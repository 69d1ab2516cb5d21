//! Rectangular grids held as vectors of rows, and the quadrant swap that
//! centres the zero frequency of a two-dimensional Fourier transform.
use vstd::prelude::*;

verus! {

/// The rows of a grid, each as a sequence.
pub open spec fn grid_view<T>(g: Vec<Vec<T>>) -> Seq<Seq<T>> {
    g@.map_values(|row: Vec<T>| row@)
}

/// Number of columns: the length of the first row (0 without rows).
pub open spec fn grid_cols<T>(g: Seq<Seq<T>>) -> int {
    if g.len() == 0 { 0 } else { g[0].len() as int }
}

/// Every row has the same length.
pub open spec fn is_rectangular<T>(g: Seq<Seq<T>>) -> bool {
    forall|i: int| 0 <= i < g.len() ==> #[trigger] g[i].len() == grid_cols(g)
}

/// Half of `n`, rounded down: how far the shift moves each index.
pub open spec fn shift_amount(n: int) -> int {
    n / 2
}

/// Where index `i` of an axis of length `n` lands after the shift.
pub open spec fn shifted_index(i: int, n: int) -> int {
    (i + shift_amount(n)) % n
}

/// The index that lands on `i` after the shift.
pub open spec fn source_index(i: int, n: int) -> int {
    if i >= shift_amount(n) { i - shift_amount(n) } else { i + n - shift_amount(n) }
}

/// The grid with its quadrants swapped.
pub open spec fn fftshift_grid<T>(g: Seq<Seq<T>>) -> Seq<Seq<T>> {
    Seq::new(
        g.len(),
        |i: int|
            Seq::new(
                grid_cols(g) as nat,
                |j: int| g[source_index(i, g.len() as int)][source_index(j, grid_cols(g))],
            ),
    )
}

/// On an axis of positive length the shift and its source are inverse.
proof fn lemma_shift_source(i: int, n: int)
    requires
        0 <= i < n,
    ensures
        0 <= source_index(i, n) < n,
        0 <= shifted_index(i, n) < n,
        source_index(shifted_index(i, n), n) == i,
{
    let h = shift_amount(n);
    assert(0 <= h <= n);
    if i + h < n {
        vstd::arithmetic::div_mod::lemma_small_mod((i + h) as nat, n as nat);
    } else {
        vstd::arithmetic::div_mod::lemma_small_mod((i + h - n) as nat, n as nat);
        vstd::arithmetic::div_mod::lemma_mod_add_multiples_vanish(i + h - n, n);
    }
}

/// Swaps the quadrants of a grid so that the zero-frequency element at
/// `(0, 0)` moves to the centre `(⌊rows/2⌋, ⌊cols/2⌋)`: element `(i, j)` goes
/// to `((i + ⌊rows/2⌋) mod rows, (j + ⌊cols/2⌋) mod cols)`.
pub fn fftshift2d<T: Copy>(input: &Vec<Vec<T>>) -> (output: Vec<Vec<T>>)
    requires
        is_rectangular(grid_view(*input)),
    ensures
        grid_view(output) == fftshift_grid(grid_view(*input)),
        forall|i: int, j: int|
            0 <= i < input.len() && 0 <= j < grid_cols(grid_view(*input)) ==> output@[(i + (input.len() / 2) as int) % (input.len() as int)]@[(j
                + grid_cols(grid_view(*input)) / 2) % grid_cols(grid_view(*input))] == input@[i]@[j],
        forall|i: int, j: int|
            0 <= i < input.len() && 0 <= j < grid_cols(grid_view(*input)) ==> output@[shifted_index(
                i,
                input.len() as int,
            )]@[shifted_index(j, grid_cols(grid_view(*input)))] == input@[i]@[j],
{
    let ghost g = grid_view(*input);
    let rows = input.len();
    let cols = if rows == 0 { 0 } else { input[0].len() };
    let mid_r = rows / 2;
    let mid_c = cols / 2;
    let mut output: Vec<Vec<T>> = Vec::new();
    let mut i: usize = 0;
    while i < rows
        invariant
            i <= rows,
            rows == input.len(),
            g == grid_view(*input),
            cols == grid_cols(g),
            mid_r == shift_amount(rows as int),
            mid_c == shift_amount(cols as int),
            is_rectangular(g),
            output.len() == i,
            forall|k: int| 0 <= k < i ==> #[trigger] output@[k]@ == fftshift_grid(g)[k],
        decreases rows - i,
    {
        let src_i = if i >= mid_r { i - mid_r } else { i + (rows - mid_r) };
        assert(g[src_i as int].len() == cols);
        let mut row: Vec<T> = Vec::new();
        let mut j: usize = 0;
        while j < cols
            invariant
                i < rows,
                j <= cols,
                rows == input.len(),
                g == grid_view(*input),
                cols == grid_cols(g),
                mid_c == shift_amount(cols as int),
                src_i == source_index(i as int, rows as int),
                0 <= src_i < rows,
                g[src_i as int].len() == cols,
                row.len() == j,
                forall|k: int| 0 <= k < j ==> #[trigger] row@[k] == fftshift_grid(g)[i as int][k],
            decreases cols - j,
        {
            let src_j = if j >= mid_c { j - mid_c } else { j + (cols - mid_c) };
            assert(input@[src_i as int]@ == g[src_i as int]);
            row.push(input[src_i][src_j]);
            j += 1;
        }
        assert(row@ =~= fftshift_grid(g)[i as int]);
        output.push(row);
        i += 1;
    }
    assert(grid_view(output) =~= fftshift_grid(g));
    proof {
        assert forall|i: int, j: int|
            0 <= i < input.len() && 0 <= j < grid_cols(g) implies output@[shifted_index(
                i,
                input.len() as int,
            )]@[shifted_index(j, grid_cols(g))] == input@[i]@[j] by {
            lemma_shift_source(i, rows as int);
            lemma_shift_source(j, cols as int);
            assert(output@[shifted_index(i, rows as int)]@ == grid_view(output)[shifted_index(i, rows as int)]);
            assert(input@[i]@ == g[i]);
        }
        assert forall|i: int, j: int|
            0 <= i < input.len() && 0 <= j < grid_cols(g) implies output@[(i + (input.len() / 2) as int) % (input.len() as int)]@[(j
                + grid_cols(g) / 2) % grid_cols(g)] == input@[i]@[j] by {
            law_fftshift_moves_by_half(g, i, j);
            let a = (i + (input.len() / 2) as int) % (input.len() as int);
            lemma_shift_source(i, rows as int);
            assert(output@[a]@ == grid_view(output)[a]);
            assert(input@[i]@ == g[i]);
        }
    }
    output
}

/// On a grid with an even number of rows and of columns, swapping the
/// quadrants twice gives back the grid.
pub proof fn law_fftshift_even_involution<T>(g: Seq<Seq<T>>)
    requires
        is_rectangular(g),
        g.len() % 2 == 0,
        grid_cols(g) % 2 == 0,
    ensures
        fftshift_grid(fftshift_grid(g)) == g,
{
    let h = fftshift_grid(g);
    let rows = g.len() as int;
    let cols = grid_cols(g);
    assert(grid_cols(h) == cols) by {
        if rows > 0 {
            assert(h[0].len() == cols);
        }
    }
    assert forall|i: int| 0 <= i < rows implies #[trigger] fftshift_grid(h)[i] =~= g[i] by {
        assert(0 <= source_index(i, rows) < rows);
        assert(source_index(source_index(i, rows), rows) == i);
        assert forall|j: int| 0 <= j < cols implies fftshift_grid(h)[i][j] == g[i][j] by {
            assert(0 <= source_index(j, cols) < cols);
            assert(source_index(source_index(j, cols), cols) == j);
        }
    }
    assert(fftshift_grid(h) =~= g);
}

/// The quadrant swap moves distinct cells to distinct cells, so every cell of
/// the output comes from exactly one cell of the input.
pub proof fn law_fftshift_is_permutation(rows: int, cols: int, i1: int, j1: int, i2: int, j2: int)
    requires
        0 <= i1 < rows,
        0 <= i2 < rows,
        0 <= j1 < cols,
        0 <= j2 < cols,
        (i1, j1) != (i2, j2),
    ensures
        0 <= shifted_index(i1, rows) < rows,
        0 <= shifted_index(j1, cols) < cols,
        (shifted_index(i1, rows), shifted_index(j1, cols)) != (shifted_index(i2, rows), shifted_index(j2, cols)),
{
    lemma_shift_source(i1, rows);
    lemma_shift_source(i2, rows);
    lemma_shift_source(j1, cols);
    lemma_shift_source(j2, cols);
}

/// The shift moves every element by half the axis, rounded down, in each
/// direction: element `(i, j)` lands at `((i + rows/2) mod rows,
/// (j + cols/2) mod cols)`, so the zero-frequency element `(0, 0)` lands at
/// the centre `(rows/2, cols/2)`.
pub proof fn law_fftshift_moves_by_half<T>(g: Seq<Seq<T>>, i: int, j: int)
    requires
        is_rectangular(g),
        0 <= i < g.len(),
        0 <= j < grid_cols(g),
    ensures
        fftshift_grid(g)[(i + (g.len() / 2) as int) % (g.len() as int)][(j + grid_cols(g) / 2) % grid_cols(g)] == g[i][j],
        fftshift_grid(g)[(g.len() / 2) as int][grid_cols(g) / 2] == g[0][0],
{
    let rows = g.len() as int;
    let cols = grid_cols(g);
    lemma_shift_source(i, rows);
    lemma_shift_source(j, cols);
    lemma_shift_source(0, rows);
    lemma_shift_source(0, cols);
    vstd::arithmetic::div_mod::lemma_small_mod((rows / 2) as nat, rows as nat);
    vstd::arithmetic::div_mod::lemma_small_mod((cols / 2) as nat, cols as nat);
    assert(shifted_index(0, rows) == rows / 2);
    assert(shifted_index(0, cols) == cols / 2);
}

} // verus!
