use vistas::array::{OrderVector, Tensor3};
use vistas::phase::PhaseCoupling;
use vistas::correlation::{xcorr2_dims, xcorr2_terms};
use vistas::feedback::{feedback_delay, feedback_mask};
use vistas::grid::fftshift2d;
use vistas::input::feedback_choice;
use vistas::kronecker::dij;
use vistas::modes::{azimuthal_orders, guided_mode_count, harmonic_count, mode_label, sine_modes};
use vistas::phase::phase_coupling;
use vistas::select::{first_index, guide_window, modal_cutoff_index, modal_cutoff_row};

struct Cells {
    fcc: Vec<Vec<Vec<i64>>>,
    fsc: Vec<Vec<Vec<i64>>>,
    fcs: Vec<Vec<Vec<i64>>>,
    fss: Vec<Vec<Vec<i64>>>,
}

fn cells(p: &PhaseCoupling) -> Cells {
    Cells { fcc: p.fcc.to_nested(), fsc: p.fsc.to_nested(), fcs: p.fcs.to_nested(), fss: p.fss.to_nested() }
}

fn dims(t: &Tensor3) -> (usize, usize, usize) {
    let v = t.to_nested();
    let d1 = if v.is_empty() { 0 } else { v[0].len() };
    let d2 = if d1 == 0 { 0 } else { v[0][0].len() };
    (v.len(), d1, d2)
}

fn kd(i: i64, j: i64) -> f64 {
    if i == j { 1.0 } else { 0.0 }
}

/// The phase matrices exactly as the simulator computes them in floating point.
fn reference_phase(lvec: &[i64], nq: usize, nm: usize) -> Vec<[f64; 4]> {
    let mut out = vec![[0.0; 4]; nq * nq * nm];
    for k in 0..nq {
        let k_i64 = (k + 1) as i64;
        for l in 0..nm {
            for q in 0..nq {
                let q_i64 = (q + 1) as i64;
                let kp2l = k_i64 - 1 + 2 * lvec[l];
                let km2l = k_i64 - 1 - 2 * lvec[l];
                let d = kd(k_i64, q_i64);
                let a = kd(kp2l, q_i64 - 1);
                let b = kd(km2l.abs(), q_i64 - 1);
                let s = km2l.signum() as f64;
                let idx = (k * nq + q) * nm + l;
                out[idx] = [
                    d + (a + b) / 2.0,
                    d + (a + s * b) / 2.0,
                    d - (a + b) / 2.0,
                    d - (a + s * b) / 2.0,
                ];
                if k == 0 {
                    out[idx][1] = 0.0;
                    out[idx][3] = 0.0;
                }
            }
        }
    }
    out
}

#[test]
fn kronecker_delta_values() {
    assert_eq!(dij(3, 3), 1);
    assert_eq!(dij(3, 5), 0);
    assert_eq!(dij(-2, -2), 1);
    assert_eq!(dij(0, 1), 0);
}

#[test]
fn phase_coupling_matches_float_formula() {
    let orders = vec![0i64, 1, 2, 0, 3];
    let lvec = OrderVector::new(orders.clone());
    let nq = 7;
    let nm = 5;
    let p = phase_coupling(&lvec, nq, nm);
    assert_eq!(dims(&p.fcc), (nq, nq, nm));
    let t = cells(&p);
    let reference = reference_phase(&orders, nq, nm);
    for k in 0..nq {
        for q in 0..nq {
            for l in 0..nm {
                let r = reference[(k * nq + q) * nm + l];
                assert_eq!(t.fcc[k][q][l] as f64 / 2.0, r[0]);
                assert_eq!(t.fsc[k][q][l] as f64 / 2.0, r[1]);
                assert_eq!(t.fcs[k][q][l] as f64 / 2.0, r[2]);
                assert_eq!(t.fss[k][q][l] as f64 / 2.0, r[3]);
            }
        }
    }
}

#[test]
fn phase_coupling_known_entries() {
    let lvec = OrderVector::new(vec![0, 1]);
    let p = phase_coupling(&lvec, 3, 2);
    let t = cells(&p);
    // order 1, harmonic 0 couples to harmonic 2 through k + 2l and |k - 2l|
    assert_eq!(t.fcc[0][2][1], 2);
    assert_eq!(t.fcs[0][2][1], -2);
    assert_eq!(t.fsc[0][2][1], 0);
    assert_eq!(t.fss[0][2][1], 0);
    // harmonic 1 with itself through order 1: |1 - 2| = 1, sign -1
    assert_eq!(t.fcc[1][1][1], 3);
    assert_eq!(t.fsc[1][1][1], 1);
    assert_eq!(t.fcs[1][1][1], 1);
    assert_eq!(t.fss[1][1][1], 3);
    // order 0 is diagonal
    assert_eq!(t.fcc[2][2][0], 4);
    assert_eq!(t.fcc[2][1][0], 0);
}

#[test]
fn phase_coupling_pair_sums() {
    let lvec = OrderVector::new(vec![0, 1, 2, 0, 3, 1]);
    let nq = 7;
    let p = phase_coupling(&lvec, nq, 6);
    let t = cells(&p);
    for k in 0..nq {
        for q in 0..nq {
            for l in 0..6 {
                let d = if k == q { 4 } else { 0 };
                assert_eq!(t.fcc[k][q][l] + t.fcs[k][q][l], d);
                if k == 0 {
                    assert_eq!(t.fsc[k][q][l], 0);
                    assert_eq!(t.fss[k][q][l], 0);
                } else {
                    assert_eq!(t.fsc[k][q][l] + t.fss[k][q][l], d);
                }
                if l == 0 || l == 3 {
                    assert_eq!(t.fcc[k][q][l], d);
                    assert_eq!(t.fcs[k][q][l], 0);
                    assert_eq!(t.fss[k][q][l], 0);
                    if k > 0 {
                        assert_eq!(t.fsc[k][q][l], d);
                    }
                }
            }
        }
    }
}

#[test]
fn phase_coupling_with_extreme_order() {
    let big = i64::MAX / 2 - 2;
    let lvec = OrderVector::new(vec![big, -big]);
    let p = phase_coupling(&lvec, 3, 2);
    let t = cells(&p);
    for l in 0..2 {
        assert_eq!(t.fcc[1][1][l], 2);
        assert_eq!(t.fcs[1][1][l], 2);
        assert_eq!(t.fsc[2][2][l], 2);
        assert_eq!(t.fss[2][2][l], 2);
        assert_eq!(t.fcc[1][2][l], 0);
    }
}

#[test]
fn phase_coupling_without_harmonics_reads_no_orders() {
    let lvec = OrderVector::new(vec![]);
    let p = phase_coupling(&lvec, 0, 2);
    assert_eq!(p.fcc.to_nested().len(), 0);
}

#[test]
fn phase_coupling_without_modes() {
    let lvec = OrderVector::new(vec![]);
    let p = phase_coupling(&lvec, 3, 0);
    let t = cells(&p);
    assert_eq!(t.fss.len(), 3);
    assert!(t.fss.iter().all(|plane| plane.len() == 3 && plane.iter().all(|line| line.is_empty())));
}

#[test]
fn order_vector_access() {
    let v = OrderVector::new(vec![4, -1, 9]);
    assert_eq!(v.orders(), vec![4, -1, 9]);
    assert_eq!(OrderVector::new(vec![]).orders(), Vec::<i64>::new());
}

#[test]
fn lp_mode_orders_and_counts() {
    let v = azimuthal_orders(4);
    assert_eq!(v.orders(), vec![0, 1, 2, 0]);
    assert_eq!(harmonic_count(&v), 5);
    assert_eq!(sine_modes(&v), vec![false, true, true, false]);

    let all = azimuthal_orders(14);
    assert_eq!(all.orders(), vec![0, 1, 2, 0, 3, 1, 4, 2, 0, 5, 3, 6, 1, 4]);
    assert_eq!(harmonic_count(&all), 13);

    let none = azimuthal_orders(0);
    assert_eq!(none.orders().len(), 0);
    assert_eq!(harmonic_count(&none), 1);
    assert_eq!(sine_modes(&none), Vec::<bool>::new());

    let single = azimuthal_orders(1);
    assert_eq!(harmonic_count(&single), 1);
}

#[test]
fn harmonics_cover_every_order() {
    let v = azimuthal_orders(10);
    let nq = harmonic_count(&v) as i64;
    for o in v.orders() {
        assert!(2 * o < nq);
    }
    assert_eq!(nq, 11);
}

#[test]
fn guided_modes_from_cutoffs() {
    assert_eq!(guided_mode_count(&vec![true, true, false, true]), 3);
    assert_eq!(guided_mode_count(&vec![false, true]), 1);
    assert_eq!(guided_mode_count(&vec![]), 1);
    assert_eq!(guided_mode_count(&vec![true; 9]), 10);
}

#[test]
fn mode_labels() {
    assert_eq!(mode_label(0), "ALL");
    assert_eq!(mode_label(1), "LP01");
    assert_eq!(mode_label(2), "LP11");
    assert_eq!(mode_label(5), "LP31");
    assert_eq!(mode_label(9), "LP03");
}

#[test]
fn first_index_of_mask() {
    assert_eq!(first_index(&vec![false, true, true]), 1);
    assert_eq!(first_index(&vec![true]), 0);
    assert_eq!(first_index(&vec![false, false]), 0);
    assert_eq!(first_index(&vec![]), 0);
}

#[test]
fn modal_cutoff_choices() {
    assert_eq!(modal_cutoff_row(1), None);
    assert_eq!(modal_cutoff_row(0), None);
    assert_eq!(modal_cutoff_row(2), Some(1));
    assert_eq!(modal_cutoff_row(5), Some(1));
    assert_eq!(modal_cutoff_row(6), Some(5));
    assert_eq!(modal_cutoff_row(10), Some(5));
    assert_eq!(modal_cutoff_index(1, &vec![false, true]), 1);
    assert_eq!(modal_cutoff_index(3, &vec![false, false, true, true]), 2);
    assert_eq!(modal_cutoff_index(3, &vec![false, false]), 0);
}

#[test]
fn guide_window_around_core() {
    let mask = vec![false, false, true, true, true, false, false];
    let w = guide_window(&mask);
    assert_eq!((w.inside_first, w.inside_last), (2, 4));
    assert_eq!((w.first, w.last), (1, 5));
    assert_eq!(w.width, 5);
    assert_eq!(w.offsets, 9);
    assert_eq!(w.center, 4);
    assert_eq!(w.offsets, 2 * w.center + 1);
}

#[test]
fn guide_window_at_grid_edges() {
    let w = guide_window(&vec![true, true, false]);
    assert_eq!((w.first, w.last, w.width), (0, 2, 3));
    let w = guide_window(&vec![false, true]);
    assert_eq!((w.first, w.last, w.width, w.offsets, w.center), (0, 1, 2, 3, 1));
    let w = guide_window(&vec![true]);
    assert_eq!((w.first, w.last, w.width, w.offsets, w.center), (0, 0, 1, 1, 0));
}

#[test]
fn feedback_mode_selection() {
    assert_eq!(feedback_mask(0, 3), vec![true, true, true]);
    assert_eq!(feedback_mask(2, 3), vec![false, true, false]);
    assert_eq!(feedback_mask(1, 1), vec![true]);
    assert_eq!(feedback_mask(5, 3), vec![false, false, false]);
    assert_eq!(feedback_mask(0, 0), Vec::<bool>::new());
    for choice in 1..6 {
        let m = feedback_mask(choice, 4);
        assert!(m.iter().filter(|&&b| b).count() <= 1);
    }
}

#[test]
fn feedback_delay_steps() {
    assert_eq!(feedback_delay(5, 3), Some(2));
    assert_eq!(feedback_delay(3, 3), None);
    assert_eq!(feedback_delay(0, 0), None);
    assert_eq!(feedback_delay(1, 0), Some(1));
}

/// The quadrant swap exactly as the simulator writes it.
fn reference_shift(input: &Vec<Vec<i32>>) -> Vec<Vec<i32>> {
    let rows = input.len();
    let cols = if rows == 0 { 0 } else { input[0].len() };
    let mut out = vec![vec![0; cols]; rows];
    let mid_r = rows / 2;
    let mid_c = cols / 2;
    for i in 0..rows {
        let si = (i + mid_r) % rows;
        for j in 0..cols {
            let sj = (j + mid_c) % cols;
            out[si][sj] = input[i][j];
        }
    }
    out
}

fn numbered(rows: usize, cols: usize) -> Vec<Vec<i32>> {
    (0..rows).map(|i| (0..cols).map(|j| (i * cols + j) as i32).collect()).collect()
}

#[test]
fn fftshift_odd_and_even() {
    for &(r, c) in &[(3usize, 4usize), (4, 4), (5, 3), (1, 1), (2, 7), (0, 0)] {
        let g = numbered(r, c);
        assert_eq!(fftshift2d(&g), reference_shift(&g));
    }
    let g = numbered(3, 3);
    assert_eq!(fftshift2d(&g), vec![vec![8, 6, 7], vec![2, 0, 1], vec![5, 3, 4]]);
    assert_eq!(fftshift2d(&vec![vec![1, 2, 3]]), vec![vec![3, 1, 2]]);
    assert_eq!(fftshift2d(&vec![vec![1, 2], vec![3, 4]]), vec![vec![4, 3], vec![2, 1]]);
}

#[test]
fn fftshift_moves_every_cell_once() {
    for &(r, c) in &[(3usize, 5usize), (4, 4), (1, 6)] {
        let mut seen: Vec<i32> = fftshift2d(&numbered(r, c)).into_iter().flatten().collect();
        seen.sort();
        assert_eq!(seen, (0..(r * c) as i32).collect::<Vec<i32>>());
    }
}

#[test]
fn fftshift_twice_on_even_grid_is_identity() {
    let g = numbered(4, 6);
    assert_eq!(fftshift2d(&fftshift2d(&g)), g);
    let odd = numbered(3, 3);
    assert_ne!(fftshift2d(&fftshift2d(&odd)), odd);
}

#[test]
fn xcorr2_shape() {
    assert_eq!(xcorr2_dims(3, 3, 2, 2), (4, 4));
    assert_eq!(xcorr2_dims(1, 5, 7, 1), (7, 5));
}

#[test]
fn xcorr2_terms_of_one_cell() {
    assert_eq!(
        xcorr2_terms(1, 1, 2, 2, 2, 2),
        vec![(1, 1, 0, 0), (1, 0, 0, 1), (0, 1, 1, 0), (0, 0, 1, 1)]
    );
    assert_eq!(xcorr2_terms(0, 0, 2, 2, 2, 2), vec![(0, 0, 0, 0)]);
    assert_eq!(xcorr2_terms(2, 0, 2, 2, 2, 2), vec![(1, 0, 1, 0)]);
}

#[test]
fn xcorr2_terms_give_full_correlation() {
    let a: Vec<Vec<i64>> = vec![vec![1, 2, 3], vec![4, 5, 6]];
    let b: Vec<Vec<i64>> = vec![vec![1, -1], vec![2, 0], vec![0, 3]];
    let (ma, na, mb, nb) = (2usize, 3usize, 3usize, 2usize);
    let (rows, cols) = xcorr2_dims(ma, na, mb, nb);
    let mut products = 0;
    for i in 0..rows {
        for j in 0..cols {
            let mut expected = 0;
            for m in 0..mb {
                for n in 0..nb {
                    let ra = i as isize - m as isize;
                    let ca = j as isize - n as isize;
                    if ra >= 0 && ra < ma as isize && ca >= 0 && ca < na as isize {
                        expected += a[ra as usize][ca as usize] * b[m][n];
                    }
                }
            }
            let terms = xcorr2_terms(i, j, ma, na, mb, nb);
            products += terms.len();
            let got: i64 = terms.iter().map(|&(r, c, m, n)| a[r][c] * b[m][n]).sum();
            assert_eq!(got, expected);
        }
    }
    // every product appears exactly once over the whole output
    assert_eq!(products, ma * na * mb * nb);
}

#[test]
fn feedback_choice_from_typed_line() {
    assert_eq!(feedback_choice("3\n"), 3);
    assert_eq!(feedback_choice("  7  "), 7);
    assert_eq!(feedback_choice("+2"), 2);
    assert_eq!(feedback_choice("\u{3000}4\t"), 4);
    assert_eq!(feedback_choice("007"), 7);
    assert_eq!(feedback_choice(""), 0);
    assert_eq!(feedback_choice("+"), 0);
    assert_eq!(feedback_choice("-1"), 0);
    assert_eq!(feedback_choice("abc"), 0);
    assert_eq!(feedback_choice("4 5"), 0);
    assert_eq!(feedback_choice("99999999999999999999999999"), 0);
}
