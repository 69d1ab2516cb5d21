//! The azimuthal phase-coupling tensors of the carrier diffusion equations.
//!
//! Every entry of the four tensors is a multiple of one half, so they are
//! held exactly as integers counting halves: an entry `h` stands for `h / 2`.
use vstd::prelude::*;
use crate::array::{in_box, nonzero_product, order_items, tensor_cells, tensor_shape, OrderVector, Tensor3};
use crate::kronecker::{delta, dij};

verus! {

pub open spec fn abs_int(x: int) -> int {
    if x < 0 { -x } else { x }
}

pub open spec fn sign_int(x: int) -> int {
    if x > 0 { 1 } else if x < 0 { -1 } else { 0 }
}

/// Twice the `fcc` coupling between harmonics `k` and `q` through a mode of
/// azimuthal order `order` (harmonics counted from 0).
pub open spec fn fcc_halves(k: int, q: int, order: int) -> int {
    2 * delta(k, q) + delta(k + 2 * order, q) + delta(abs_int(k - 2 * order), q)
}

/// Twice the `fsc` coupling; zero on the zeroth harmonic, which has no sine part.
pub open spec fn fsc_halves(k: int, q: int, order: int) -> int {
    if k == 0 {
        0
    } else {
        2 * delta(k, q) + delta(k + 2 * order, q) + sign_int(k - 2 * order) * delta(
            abs_int(k - 2 * order),
            q,
        )
    }
}

/// Twice the `fcs` coupling.
pub open spec fn fcs_halves(k: int, q: int, order: int) -> int {
    2 * delta(k, q) - delta(k + 2 * order, q) - delta(abs_int(k - 2 * order), q)
}

/// Twice the `fss` coupling; zero on the zeroth harmonic, which has no sine part.
pub open spec fn fss_halves(k: int, q: int, order: int) -> int {
    if k == 0 {
        0
    } else {
        2 * delta(k, q) - delta(k + 2 * order, q) - sign_int(k - 2 * order) * delta(
            abs_int(k - 2 * order),
            q,
        )
    }
}

/// Which of the four couplings a tensor holds.
pub enum CouplingKind {
    Fcc,
    Fsc,
    Fcs,
    Fss,
}

/// Twice the coupling of the given kind.
pub open spec fn coupling_halves(kind: CouplingKind, k: int, q: int, order: int) -> int {
    match kind {
        CouplingKind::Fcc => fcc_halves(k, q, order),
        CouplingKind::Fsc => fsc_halves(k, q, order),
        CouplingKind::Fcs => fcs_halves(k, q, order),
        CouplingKind::Fss => fss_halves(k, q, order),
    }
}

/// The four phase-coupling tensors, indexed `[k, q, l]` for harmonics
/// `k`, `q` and mode `l`, each entry counting halves.
pub struct PhaseCoupling {
    pub fcc: Tensor3,
    pub fsc: Tensor3,
    pub fcs: Tensor3,
    pub fss: Tensor3,
}

/// The orders for which the harmonic indices `k ± 2l` of all `nq` harmonics
/// fit in an `i64` (with no harmonics nothing is computed).
pub open spec fn orders_fit(orders: Seq<i64>, nq: int, nm: int) -> bool {
    nq > 0 ==> forall|l: int|
        0 <= l < nm ==> {
            &&& i64::MIN <= 2 * #[trigger] orders[l] <= i64::MAX
            &&& nq - 1 + 2 * orders[l] <= i64::MAX
            &&& nq - 1 - 2 * orders[l] <= i64::MAX
        }
}

/// The value that each tensor holds at a key, given the mode orders.
pub open spec fn coupling_matches(
    t: Tensor3,
    orders: Seq<i64>,
    nq: int,
    nm: int,
    kind: CouplingKind,
) -> bool {
    &&& tensor_shape(t) == (nq, nq, nm)
    &&& forall|key: (int, int, int)| #[trigger]
        tensor_cells(t).contains_key(key) <==> in_box(key, (nq, nq, nm))
    &&& forall|key: (int, int, int)|
        in_box(key, (nq, nq, nm)) ==> #[trigger] tensor_cells(t)[key] == coupling_halves(kind, key.0, key.1, orders[key.2] as int)
}

/// All four tensors hold their couplings for the given mode orders.
pub open spec fn is_phase_coupling(p: PhaseCoupling, orders: Seq<i64>, nq: int, nm: int) -> bool {
    &&& coupling_matches(p.fcc, orders, nq, nm, CouplingKind::Fcc)
    &&& coupling_matches(p.fsc, orders, nq, nm, CouplingKind::Fsc)
    &&& coupling_matches(p.fcs, orders, nq, nm, CouplingKind::Fcs)
    &&& coupling_matches(p.fss, orders, nq, nm, CouplingKind::Fss)
}

/// Whether key `(k, q, l)` has been filled once the loops have reached
/// harmonic `k0`, mode `l0` and harmonic `q0` (loops nest as k, l, q).
pub open spec fn filled(key: (int, int, int), k0: int, l0: int, q0: int) -> bool {
    key.0 < k0 || (key.0 == k0 && (key.2 < l0 || (key.2 == l0 && key.1 < q0)))
}

/// The tensor holds its coupling on the filled keys and 0 elsewhere.
pub open spec fn partly_matches(
    t: Tensor3,
    orders: Seq<i64>,
    nq: int,
    nm: int,
    kind: CouplingKind,
    k0: int,
    l0: int,
    q0: int,
) -> bool {
    &&& tensor_shape(t) == (nq, nq, nm)
    &&& forall|key: (int, int, int)| #[trigger]
        tensor_cells(t).contains_key(key) <==> in_box(key, (nq, nq, nm))
    &&& forall|key: (int, int, int)|
        in_box(key, (nq, nq, nm)) ==> #[trigger] tensor_cells(t)[key] == if filled(
            key,
            k0,
            l0,
            q0,
        ) {
            coupling_halves(kind, key.0, key.1, orders[key.2] as int)
        } else {
            0
        }
}

/// Writing the value of key `(k, q, l)` advances the filled region by one key.
proof fn lemma_fill_step(
    before: Tensor3,
    after: Tensor3,
    orders: Seq<i64>,
    nq: int,
    nm: int,
    kind: CouplingKind,
    k: int,
    l: int,
    q: int,
    v: i64,
)
    requires
        0 <= k < nq,
        0 <= l < nm,
        0 <= q < nq,
        partly_matches(before, orders, nq, nm, kind, k, l, q),
        tensor_shape(after) == tensor_shape(before),
        tensor_cells(after) == tensor_cells(before).insert((k, q, l), v),
        v == coupling_halves(kind, k, q, orders[l] as int),
    ensures
        partly_matches(after, orders, nq, nm, kind, k, l, q + 1),
{
    assert forall|key: (int, int, int)| #[trigger]
        tensor_cells(after).contains_key(key) <==> in_box(key, (nq, nq, nm)) by {
        assert(tensor_cells(before).contains_key(key) <==> in_box(key, (nq, nq, nm)));
    }
    assert forall|key: (int, int, int)| in_box(key, (nq, nq, nm)) implies #[trigger] tensor_cells(
        after,
    )[key] == if filled(key, k, l, q + 1) {
        coupling_halves(kind, key.0, key.1, orders[key.2] as int)
    } else {
        0
    } by {
        if key != (k, q, l) {
            assert(tensor_cells(before)[key] == if filled(key, k, l, q) {
                coupling_halves(kind, key.0, key.1, orders[key.2] as int)
            } else {
                0
            });
        }
    }
}

/// Builds the phase-coupling tensors for `nq` azimuthal harmonics and the
/// first `nm` modes of `lvec`, entries counted in halves.
pub fn phase_coupling(lvec: &OrderVector, nq: usize, nm: usize) -> (p: PhaseCoupling)
    requires
        nq > 0 ==> nm <= order_items(*lvec).len(),
        nonzero_product(nq as int, nq as int, nm as int) <= isize::MAX,
        orders_fit(order_items(*lvec), nq as int, nm as int),
    ensures
        is_phase_coupling(p, order_items(*lvec), nq as int, nm as int),
{
    let ghost orders = order_items(*lvec);
    let mut fcc = Tensor3::zeros(nq, nq, nm);
    let mut fsc = Tensor3::zeros(nq, nq, nm);
    let mut fcs = Tensor3::zeros(nq, nq, nm);
    let mut fss = Tensor3::zeros(nq, nq, nm);
    proof {
        if nq > 0 {
            let ghost sq = nq * nq;
            assert(sq <= nonzero_product(nq as int, nq as int, nm as int)) by (nonlinear_arith)
                requires
                    nq > 0,
                    sq == nq * nq,
                    nonzero_product(nq as int, nq as int, nm as int) == nq * nq * (if nm == 0 { 1 } else { nm as int }),
            ;
            assert(nq <= 0x1_0000_0000) by (nonlinear_arith)
                requires
                    nq > 0,
                    nq * nq <= 0x7fff_ffff_ffff_ffff,
            ;
        }
    }
    let mut k: usize = 0;
    while k < nq
        invariant
            0 <= k <= nq,
            nq <= 0x1_0000_0000,
            nq > 0 ==> nm <= orders.len(),
            orders == order_items(*lvec),
            orders_fit(orders, nq as int, nm as int),
            partly_matches(fcc, orders, nq as int, nm as int, CouplingKind::Fcc, k as int, 0, 0),
            partly_matches(fsc, orders, nq as int, nm as int, CouplingKind::Fsc, k as int, 0, 0),
            partly_matches(fcs, orders, nq as int, nm as int, CouplingKind::Fcs, k as int, 0, 0),
            partly_matches(fss, orders, nq as int, nm as int, CouplingKind::Fss, k as int, 0, 0),
        decreases nq - k,
    {
        let k_i64 = (k + 1) as i64;
        let mut l: usize = 0;
        while l < nm
            invariant
                0 <= k < nq,
                0 <= l <= nm,
                nq <= 0x1_0000_0000,
                k_i64 == k + 1,
                nm <= orders.len(),
                orders == order_items(*lvec),
                orders_fit(orders, nq as int, nm as int),
                partly_matches(fcc, orders, nq as int, nm as int, CouplingKind::Fcc, k as int, l as int, 0),
                partly_matches(fsc, orders, nq as int, nm as int, CouplingKind::Fsc, k as int, l as int, 0),
                partly_matches(fcs, orders, nq as int, nm as int, CouplingKind::Fcs, k as int, l as int, 0),
                partly_matches(fss, orders, nq as int, nm as int, CouplingKind::Fss, k as int, l as int, 0),
            decreases nm - l,
        {
            let order = lvec.get(l);
            let mut q: usize = 0;
            while q < nq
                invariant
                    0 <= k < nq,
                    0 <= l < nm,
                    0 <= q <= nq,
                    nq <= 0x1_0000_0000,
                    k_i64 == k + 1,
                    nm <= orders.len(),
                    orders == order_items(*lvec),
                    order == orders[l as int],
                    i64::MIN <= 2 * order <= i64::MAX,
                    nq - 1 + 2 * order <= i64::MAX,
                    nq - 1 - 2 * order <= i64::MAX,
                    partly_matches(fcc, orders, nq as int, nm as int, CouplingKind::Fcc, k as int, l as int, q as int),
                    partly_matches(fsc, orders, nq as int, nm as int, CouplingKind::Fsc, k as int, l as int, q as int),
                    partly_matches(fcs, orders, nq as int, nm as int, CouplingKind::Fcs, k as int, l as int, q as int),
                    partly_matches(fss, orders, nq as int, nm as int, CouplingKind::Fss, k as int, l as int, q as int),
                decreases nq - q,
            {
                let q_i64 = (q + 1) as i64;
                let kp2l = k_i64 - 1 + 2 * order;
                let km2l = k_i64 - 1 - 2 * order;
                let abs_km2l = if km2l < 0 { -km2l } else { km2l };
                let signed_minus: i64 = if km2l > 0 {
                    dij(abs_km2l, q_i64 - 1)
                } else if km2l < 0 {
                    -dij(abs_km2l, q_i64 - 1)
                } else {
                    0
                };
                let d_kq = dij(k_i64, q_i64);
                let d_plus = dij(kp2l, q_i64 - 1);
                let d_minus = dij(abs_km2l, q_i64 - 1);
                let v_cc = 2 * d_kq + (d_plus + d_minus);
                let v_cs = 2 * d_kq - (d_plus + d_minus);
                let (v_sc, v_ss) = if k == 0 {
                    (0i64, 0i64)
                } else {
                    (2 * d_kq + (d_plus + signed_minus), 2 * d_kq - (d_plus + signed_minus))
                };
                let ghost (cc0, sc0, cs0, ss0) = (fcc, fsc, fcs, fss);
                fcc.set(k, q, l, v_cc);
                fsc.set(k, q, l, v_sc);
                fcs.set(k, q, l, v_cs);
                fss.set(k, q, l, v_ss);
                proof {
                    assert(coupling_halves(CouplingKind::Fcc, k as int, q as int, orders[l as int] as int) == v_cc);
                    assert(coupling_halves(CouplingKind::Fsc, k as int, q as int, orders[l as int] as int) == v_sc);
                    assert(coupling_halves(CouplingKind::Fcs, k as int, q as int, orders[l as int] as int) == v_cs);
                    assert(coupling_halves(CouplingKind::Fss, k as int, q as int, orders[l as int] as int) == v_ss);
                    lemma_fill_step(cc0, fcc, orders, nq as int, nm as int, CouplingKind::Fcc, k as int, l as int, q as int, v_cc);
                    lemma_fill_step(sc0, fsc, orders, nq as int, nm as int, CouplingKind::Fsc, k as int, l as int, q as int, v_sc);
                    lemma_fill_step(cs0, fcs, orders, nq as int, nm as int, CouplingKind::Fcs, k as int, l as int, q as int, v_cs);
                    lemma_fill_step(ss0, fss, orders, nq as int, nm as int, CouplingKind::Fss, k as int, l as int, q as int, v_ss);
                }
                q += 1;
            }
            l += 1;
        }
        k += 1;
    }
    PhaseCoupling { fcc, fsc, fcs, fss }
}


/// The `fcc` and `fcs` couplings of a harmonic pair always add up to twice
/// the Kronecker delta of the pair (in halves: four times).
pub proof fn law_fcc_fcs_sum(p: PhaseCoupling, orders: Seq<i64>, nq: int, nm: int, k: int, q: int, l: int)
    requires
        is_phase_coupling(p, orders, nq, nm),
        in_box((k, q, l), (nq, nq, nm)),
    ensures
        tensor_cells(p.fcc)[(k, q, l)] + tensor_cells(p.fcs)[(k, q, l)] == 4 * delta(k, q),
{
    assert(in_box((k, q, l), (nq, nq, nm)));
}

/// The `fsc` and `fss` couplings add up to twice the Kronecker delta of the
/// pair, except on the zeroth harmonic, where both vanish.
pub proof fn law_fsc_fss_sum(p: PhaseCoupling, orders: Seq<i64>, nq: int, nm: int, k: int, q: int, l: int)
    requires
        is_phase_coupling(p, orders, nq, nm),
        in_box((k, q, l), (nq, nq, nm)),
    ensures
        k == 0 ==> tensor_cells(p.fsc)[(k, q, l)] == 0 && tensor_cells(p.fss)[(k, q, l)] == 0,
        k > 0 ==> tensor_cells(p.fsc)[(k, q, l)] + tensor_cells(p.fss)[(k, q, l)] == 4 * delta(k, q),
{
    assert(in_box((k, q, l), (nq, nq, nm)));
}

/// A mode of azimuthal order 0 couples each harmonic only to itself: its
/// `fcc` coupling, and from the first harmonic on its `fsc` coupling, are
/// twice the Kronecker delta, and its `fcs` and `fss` couplings vanish.
pub proof fn law_symmetric_mode_is_diagonal(p: PhaseCoupling, orders: Seq<i64>, nq: int, nm: int, k: int, q: int, l: int)
    requires
        is_phase_coupling(p, orders, nq, nm),
        in_box((k, q, l), (nq, nq, nm)),
        orders[l] == 0,
    ensures
        tensor_cells(p.fcc)[(k, q, l)] == 4 * delta(k, q),
        tensor_cells(p.fcs)[(k, q, l)] == 0,
        k > 0 ==> tensor_cells(p.fsc)[(k, q, l)] == 4 * delta(k, q),
        tensor_cells(p.fss)[(k, q, l)] == 0,
{
    assert(in_box((k, q, l), (nq, nq, nm)));
}

/// Mode `l` of order `o` couples harmonic `k` to the harmonic `k + 2o`:
/// where that harmonic exists and is neither `k` nor `|k - 2o|`, the `fcc`
/// and `fsc` cells hold ½ and the `fcs` and `fss` cells hold −½ (the sine
/// tensors only from the first harmonic on), whatever the order.
pub proof fn law_couples_to_sum_harmonic(p: PhaseCoupling, orders: Seq<i64>, nq: int, nm: int, k: int, l: int)
    requires
        is_phase_coupling(p, orders, nq, nm),
        0 <= l < nm,
        0 <= k < nq,
        0 <= k + 2 * orders[l] < nq,
        k + 2 * orders[l] != k,
        k + 2 * orders[l] != abs_int(k - 2 * orders[l]),
    ensures
        tensor_cells(p.fcc)[(k, k + 2 * orders[l], l)] == 1,
        tensor_cells(p.fcs)[(k, k + 2 * orders[l], l)] == -1,
        k > 0 ==> tensor_cells(p.fsc)[(k, k + 2 * orders[l], l)] == 1,
        k > 0 ==> tensor_cells(p.fss)[(k, k + 2 * orders[l], l)] == -1,
{
    let q = k + 2 * orders[l];
    assert(in_box((k, q, l), (nq, nq, nm)));
}

/// Mode `l` of order `o` couples harmonic `k` to the harmonic `|k - 2o|`:
/// where that harmonic is neither `k` nor `k + 2o`, the `fcc` cell holds ½
/// and the `fcs` cell −½; from the first harmonic on, the `fsc` and `fss`
/// cells hold ±½ with the sign of `k - 2o` (and 0 when `k = 2o`).
pub proof fn law_couples_to_difference_harmonic(p: PhaseCoupling, orders: Seq<i64>, nq: int, nm: int, k: int, l: int)
    requires
        is_phase_coupling(p, orders, nq, nm),
        0 <= l < nm,
        0 <= k < nq,
        abs_int(k - 2 * orders[l]) < nq,
        abs_int(k - 2 * orders[l]) != k,
        abs_int(k - 2 * orders[l]) != k + 2 * orders[l],
    ensures
        tensor_cells(p.fcc)[(k, abs_int(k - 2 * orders[l]), l)] == 1,
        tensor_cells(p.fcs)[(k, abs_int(k - 2 * orders[l]), l)] == -1,
        k > 0 && k > 2 * orders[l] ==> tensor_cells(p.fsc)[(k, abs_int(k - 2 * orders[l]), l)] == 1
            && tensor_cells(p.fss)[(k, abs_int(k - 2 * orders[l]), l)] == -1,
        k > 0 && k < 2 * orders[l] ==> tensor_cells(p.fsc)[(k, abs_int(k - 2 * orders[l]), l)] == -1
            && tensor_cells(p.fss)[(k, abs_int(k - 2 * orders[l]), l)] == 1,
        k > 0 && k == 2 * orders[l] ==> tensor_cells(p.fsc)[(k, abs_int(k - 2 * orders[l]), l)] == 0
            && tensor_cells(p.fss)[(k, abs_int(k - 2 * orders[l]), l)] == 0,
{
    let q = abs_int(k - 2 * orders[l]);
    assert(in_box((k, q, l), (nq, nq, nm)));
}

/// A harmonic couples to itself with weight 1 in `fcc` and `fcs` (and in
/// `fsc` and `fss` from the first harmonic on) when no mode-shifted
/// harmonic falls on it.
pub proof fn law_self_coupling(p: PhaseCoupling, orders: Seq<i64>, nq: int, nm: int, k: int, l: int)
    requires
        is_phase_coupling(p, orders, nq, nm),
        0 <= l < nm,
        0 <= k < nq,
        k + 2 * orders[l] != k,
        abs_int(k - 2 * orders[l]) != k,
    ensures
        tensor_cells(p.fcc)[(k, k, l)] == 2,
        tensor_cells(p.fcs)[(k, k, l)] == 2,
        k > 0 ==> tensor_cells(p.fsc)[(k, k, l)] == 2 && tensor_cells(p.fss)[(k, k, l)] == 2,
{
    assert(in_box((k, k, l), (nq, nq, nm)));
}

/// Harmonic `k` couples through mode `l` only to itself and to the
/// harmonics `k + 2o` and `|k - 2o|`: every other cell of all four tensors
/// is 0.
pub proof fn law_no_other_coupling(p: PhaseCoupling, orders: Seq<i64>, nq: int, nm: int, k: int, q: int, l: int)
    requires
        is_phase_coupling(p, orders, nq, nm),
        in_box((k, q, l), (nq, nq, nm)),
        q != k,
        q != k + 2 * orders[l],
        q != abs_int(k - 2 * orders[l]),
    ensures
        tensor_cells(p.fcc)[(k, q, l)] == 0,
        tensor_cells(p.fsc)[(k, q, l)] == 0,
        tensor_cells(p.fcs)[(k, q, l)] == 0,
        tensor_cells(p.fss)[(k, q, l)] == 0,
{
    assert(in_box((k, q, l), (nq, nq, nm)));
}

} // verus!
