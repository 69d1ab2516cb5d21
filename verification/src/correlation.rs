//! The index plan of a full two-dimensional cross-correlation
//! `out[i][j] = Σ a[i-m][j-n] · b[m][n]`: the output shape, and for one
//! output cell the list of index pairs whose products it sums.
use vstd::prelude::*;

verus! {

/// One term of the sum: `(row of a, column of a, row of b, column of b)`.
pub type Term = (usize, usize, usize, usize);

/// Row `m` and column `n` of `b` meet a cell of `a` at output cell `(i, j)`.
pub open spec fn term_valid(i: int, j: int, m: int, n: int, ma: int, na: int) -> bool {
    &&& m <= i
    &&& i - m < ma
    &&& n <= j
    &&& j - n < na
}

/// The term for `(i, j)` from row `m` and column `n` of `b`.
pub open spec fn term_at(i: int, j: int, m: int, n: int) -> Term {
    ((i - m) as usize, (j - n) as usize, m as usize, n as usize)
}

/// The terms from row `m` of `b`, over its columns `0..n_end`, in order.
pub open spec fn row_terms(i: int, j: int, ma: int, na: int, m: int, n_end: int) -> Seq<Term>
    decreases n_end,
{
    if n_end <= 0 {
        seq![]
    } else {
        row_terms(i, j, ma, na, m, n_end - 1) + if term_valid(i, j, m, n_end - 1, ma, na) {
            seq![term_at(i, j, m, n_end - 1)]
        } else {
            seq![]
        }
    }
}

/// The terms from rows `0..m_end` of `b` (each over columns `0..nb`), in order.
pub open spec fn correlation_terms(i: int, j: int, ma: int, na: int, nb: int, m_end: int) -> Seq<Term>
    decreases m_end,
{
    if m_end <= 0 {
        seq![]
    } else {
        correlation_terms(i, j, ma, na, nb, m_end - 1) + row_terms(i, j, ma, na, m_end - 1, nb)
    }
}

/// The shape of the full correlation of an `ma × na` grid with an `mb × nb` grid.
pub fn xcorr2_dims(ma: usize, na: usize, mb: usize, nb: usize) -> (d: (usize, usize))
    requires
        1 <= ma + mb <= usize::MAX,
        1 <= na + nb <= usize::MAX,
    ensures
        d.0 == ma + mb - 1,
        d.1 == na + nb - 1,
{
    (ma + mb - 1, na + nb - 1)
}

/// The terms summed into output cell `(i, j)`: for each row `m` of `b`, then
/// each column `n`, the pair that falls inside `a`.
pub fn xcorr2_terms(i: usize, j: usize, ma: usize, na: usize, mb: usize, nb: usize) -> (terms: Vec<Term>)
    ensures
        terms@ == correlation_terms(i as int, j as int, ma as int, na as int, nb as int, mb as int),
        terms@.no_duplicates(),
{
    let mut terms: Vec<Term> = Vec::new();
    let mut m: usize = 0;
    while m < mb
        invariant
            m <= mb,
            terms@ == correlation_terms(i as int, j as int, ma as int, na as int, nb as int, m as int),
        decreases mb - m,
    {
        let mut n: usize = 0;
        while n < nb
            invariant
                m < mb,
                n <= nb,
                terms@ == correlation_terms(i as int, j as int, ma as int, na as int, nb as int, m as int)
                    + row_terms(i as int, j as int, ma as int, na as int, m as int, n as int),
            decreases nb - n,
        {
            let ghost before = terms@;
            if m <= i && i - m < ma && n <= j && j - n < na {
                terms.push((i - m, j - n, m, n));
            }
            proof {
                let c = correlation_terms(i as int, j as int, ma as int, na as int, nb as int, m as int);
                let r = row_terms(i as int, j as int, ma as int, na as int, m as int, n as int);
                let r1 = row_terms(i as int, j as int, ma as int, na as int, m as int, n + 1);
                if term_valid(i as int, j as int, m as int, n as int, ma as int, na as int) {
                    assert(r1 == r + seq![term_at(i as int, j as int, m as int, n as int)]);
                    assert(terms@ =~= c + r1);
                } else {
                    assert(r1 =~= r);
                }
            }
            n += 1;
        }
        proof {
            assert(correlation_terms(i as int, j as int, ma as int, na as int, nb as int, m + 1)
                == correlation_terms(i as int, j as int, ma as int, na as int, nb as int, m as int)
                + row_terms(i as int, j as int, ma as int, na as int, m as int, nb as int));
        }
        m += 1;
    }
    proof {
        lemma_correlation_terms_distinct(i as int, j as int, ma as int, na as int, nb as int, mb as int);
    }
    terms
}

/// The terms from one row of `b`: every valid column gives its term, and
/// nothing else is there.
proof fn lemma_row_terms(i: int, j: int, ma: int, na: int, m: int, n_end: int)
    requires
        0 <= m <= usize::MAX,
        n_end <= usize::MAX + 1,
    ensures
        forall|n: int|
            0 <= n < n_end && term_valid(i, j, m, n, ma, na) ==> row_terms(i, j, ma, na, m, n_end).contains(
                #[trigger] term_at(i, j, m, n),
            ),
        forall|t: Term|
            #[trigger] row_terms(i, j, ma, na, m, n_end).contains(t) ==> {
                &&& t.2 == m
                &&& t.3 < n_end
                &&& term_valid(i, j, m, t.3 as int, ma, na)
                &&& t == term_at(i, j, m, t.3 as int)
            },
    decreases n_end,
{
    if n_end > 0 {
        lemma_row_terms(i, j, ma, na, m, n_end - 1);
        let prev = row_terms(i, j, ma, na, m, n_end - 1);
        let last = if term_valid(i, j, m, n_end - 1, ma, na) {
            seq![term_at(i, j, m, n_end - 1)]
        } else {
            seq![]
        };
        assert(row_terms(i, j, ma, na, m, n_end) == prev + last);
        assert forall|n: int|
            0 <= n < n_end && term_valid(i, j, m, n, ma, na) implies (prev + last).contains(
                #[trigger] term_at(i, j, m, n),
            ) by {
            if n < n_end - 1 {
                let k = choose|k: int| 0 <= k < prev.len() && prev[k] == term_at(i, j, m, n);
                assert((prev + last)[k] == term_at(i, j, m, n));
            } else {
                assert((prev + last)[prev.len() as int] == term_at(i, j, m, n));
            }
        }
        assert forall|t: Term| #[trigger] (prev + last).contains(t) implies {
            &&& t.2 == m
            &&& t.3 < n_end
            &&& term_valid(i, j, m, t.3 as int, ma, na)
            &&& t == term_at(i, j, m, t.3 as int)
        } by {
            let k = choose|k: int| 0 <= k < (prev + last).len() && (prev + last)[k] == t;
            if k < prev.len() {
                assert(prev.contains(t));
            } else {
                assert(t == term_at(i, j, m, n_end - 1));
                assert(t.3 as int == n_end - 1);
            }
        }
    }
}

/// The terms from rows `0..m_end` of `b`: every valid pair gives its term,
/// and nothing else is there.
proof fn lemma_correlation_terms(i: int, j: int, ma: int, na: int, nb: int, m_end: int)
    requires
        nb <= usize::MAX + 1,
        m_end <= usize::MAX + 1,
    ensures
        forall|m: int, n: int|
            0 <= m < m_end && 0 <= n < nb && term_valid(i, j, m, n, ma, na) ==> correlation_terms(
                i,
                j,
                ma,
                na,
                nb,
                m_end,
            ).contains(#[trigger] term_at(i, j, m, n)),
        forall|t: Term|
            #[trigger] correlation_terms(i, j, ma, na, nb, m_end).contains(t) ==> {
                &&& t.2 < m_end
                &&& t.3 < nb
                &&& term_valid(i, j, t.2 as int, t.3 as int, ma, na)
                &&& t == term_at(i, j, t.2 as int, t.3 as int)
            },
    decreases m_end,
{
    if m_end > 0 {
        lemma_correlation_terms(i, j, ma, na, nb, m_end - 1);
        lemma_row_terms(i, j, ma, na, m_end - 1, nb);
        let prev = correlation_terms(i, j, ma, na, nb, m_end - 1);
        let row = row_terms(i, j, ma, na, m_end - 1, nb);
        assert(correlation_terms(i, j, ma, na, nb, m_end) == prev + row);
        assert forall|m: int, n: int|
            0 <= m < m_end && 0 <= n < nb && term_valid(i, j, m, n, ma, na) implies (prev
                + row).contains(#[trigger] term_at(i, j, m, n)) by {
            if m < m_end - 1 {
                let k = choose|k: int| 0 <= k < prev.len() && prev[k] == term_at(i, j, m, n);
                assert((prev + row)[k] == term_at(i, j, m, n));
            } else {
                assert(row.contains(term_at(i, j, m, n)));
                let k = choose|k: int| 0 <= k < row.len() && row[k] == term_at(i, j, m, n);
                assert((prev + row)[prev.len() + k] == term_at(i, j, m, n));
            }
        }
        assert forall|t: Term| #[trigger] (prev + row).contains(t) implies {
            &&& t.2 < m_end
            &&& t.3 < nb
            &&& term_valid(i, j, t.2 as int, t.3 as int, ma, na)
            &&& t == term_at(i, j, t.2 as int, t.3 as int)
        } by {
            let k = choose|k: int| 0 <= k < (prev + row).len() && (prev + row)[k] == t;
            if k < prev.len() {
                assert(prev.contains(t));
            } else {
                assert(row[k - prev.len()] == t);
                assert(row.contains(t));
            }
        }
    }
}

/// Every product `a[r][c] · b[m][n]` of the correlation is summed into output
/// cell `(r + m, c + n)`, and into no other cell.
pub proof fn law_each_product_in_one_cell(
    ma: usize,
    na: usize,
    mb: usize,
    nb: usize,
    r: usize,
    c: usize,
    m: usize,
    n: usize,
    i: int,
    j: int,
)
    requires
        r < ma,
        c < na,
        m < mb,
        n < nb,
    ensures
        r + m < ma + mb - 1,
        c + n < na + nb - 1,
        correlation_terms(r + m, c + n, ma as int, na as int, nb as int, mb as int).contains(
            (r, c, m, n),
        ),
        correlation_terms(i, j, ma as int, na as int, nb as int, mb as int).contains((r, c, m, n))
            ==> i == r + m && j == c + n,
{
    lemma_correlation_terms(r + m, c + n, ma as int, na as int, nb as int, mb as int);
    lemma_correlation_terms(i, j, ma as int, na as int, nb as int, mb as int);
    assert(term_at(r + m, c + n, m as int, n as int) == (r, c, m, n));
}

/// A term lies in the list of output cell `(i, j)` exactly when its indices
/// are inside both grids and it is the term of that cell.
pub proof fn law_term_membership(i: int, j: int, ma: usize, na: usize, mb: usize, nb: usize, t: Term)
    ensures
        correlation_terms(i, j, ma as int, na as int, nb as int, mb as int).contains(t) <==> {
            &&& t.0 < ma
            &&& t.1 < na
            &&& t.2 < mb
            &&& t.3 < nb
            &&& t.0 + t.2 == i
            &&& t.1 + t.3 == j
        },
{
    lemma_correlation_terms(i, j, ma as int, na as int, nb as int, mb as int);
    if t.0 < ma && t.1 < na && t.2 < mb && t.3 < nb && t.0 + t.2 == i && t.1 + t.3 == j {
        assert(term_at(i, j, t.2 as int, t.3 as int) == t);
    }
}

/// The terms from one row of `b` come in increasing column order, so none
/// repeats.
proof fn lemma_row_terms_distinct(i: int, j: int, ma: int, na: int, m: int, n_end: int)
    requires
        0 <= m <= usize::MAX,
        n_end <= usize::MAX + 1,
    ensures
        row_terms(i, j, ma, na, m, n_end).no_duplicates(),
    decreases n_end,
{
    if n_end > 0 {
        lemma_row_terms_distinct(i, j, ma, na, m, n_end - 1);
        lemma_row_terms(i, j, ma, na, m, n_end - 1);
        let prev = row_terms(i, j, ma, na, m, n_end - 1);
        if term_valid(i, j, m, n_end - 1, ma, na) {
            let t = term_at(i, j, m, n_end - 1);
            let all = prev + seq![t];
            assert(row_terms(i, j, ma, na, m, n_end) == all);
            assert(t.3 as int == n_end - 1);
            assert(!prev.contains(t));
            assert forall|a: int, b: int| 0 <= a < b < all.len() implies all[a] != all[b] by {
                if b == prev.len() {
                    assert(prev.contains(all[a]));
                }
            }
        } else {
            assert(row_terms(i, j, ma, na, m, n_end) =~= prev);
        }
    }
}

/// The terms of a cell come in increasing row order of `b`, so none repeats.
proof fn lemma_correlation_terms_distinct(i: int, j: int, ma: int, na: int, nb: int, m_end: int)
    requires
        nb <= usize::MAX + 1,
        m_end <= usize::MAX + 1,
    ensures
        correlation_terms(i, j, ma, na, nb, m_end).no_duplicates(),
    decreases m_end,
{
    if m_end > 0 {
        lemma_correlation_terms_distinct(i, j, ma, na, nb, m_end - 1);
        lemma_correlation_terms(i, j, ma, na, nb, m_end - 1);
        lemma_row_terms_distinct(i, j, ma, na, m_end - 1, nb);
        lemma_row_terms(i, j, ma, na, m_end - 1, nb);
        let prev = correlation_terms(i, j, ma, na, nb, m_end - 1);
        let row = row_terms(i, j, ma, na, m_end - 1, nb);
        let all = prev + row;
        assert(correlation_terms(i, j, ma, na, nb, m_end) == all);
        assert forall|a: int, b: int| 0 <= a < b < all.len() implies all[a] != all[b] by {
            if a < prev.len() && b >= prev.len() {
                assert(prev.contains(all[a]));
                assert(row[b - prev.len()] == all[b]);
                assert(row.contains(all[b]));
            } else if a >= prev.len() {
                assert(row[a - prev.len()] == all[a]);
                assert(row[b - prev.len()] == all[b]);
            }
        }
    }
}

/// No product is summed twice into a cell: the term list of every output
/// cell has no repeated term.
pub proof fn law_terms_distinct(i: int, j: int, ma: usize, na: usize, mb: usize, nb: usize)
    ensures
        correlation_terms(i, j, ma as int, na as int, nb as int, mb as int).no_duplicates(),
{
    lemma_correlation_terms_distinct(i, j, ma as int, na as int, nb as int, mb as int);
}

} // verus!
