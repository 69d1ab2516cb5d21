//! The table of linearly polarised (LP) modes and the discrete choices made
//! from it: how many modes are guided, their azimuthal orders and labels,
//! how many azimuthal harmonics the carrier expansion needs, and which modes
//! carry a sine-oriented component.
use vstd::prelude::*;
use crate::array::{order_items, OrderVector};

verus! {

/// Azimuthal orders `l` of the LP modes, in order of increasing cutoff.
pub open spec fn lp_orders() -> Seq<i64> {
    seq![0, 1, 2, 0, 3, 1, 4, 2, 0, 5, 3, 6, 1, 4]
}

/// Number of modes in the table.
pub const LP_TABLE_LEN: usize = 14;

/// The azimuthal orders of the first `nm` modes of the table.
pub fn azimuthal_orders(nm: usize) -> (v: OrderVector)
    requires
        nm <= LP_TABLE_LEN,
    ensures
        order_items(v) == lp_orders().take(nm as int),
{
    let table: Vec<i64> = vec![0, 1, 2, 0, 3, 1, 4, 2, 0, 5, 3, 6, 1, 4];
    assert(table@ == lp_orders());
    let mut orders: Vec<i64> = Vec::new();
    let mut i: usize = 0;
    while i < nm
        invariant
            i <= nm <= LP_TABLE_LEN,
            table@ == lp_orders(),
            orders@ == lp_orders().take(i as int),
        decreases nm - i,
    {
        orders.push(table[i]);
        i += 1;
        assert(orders@ =~= lp_orders().take(i as int));
    }
    OrderVector::from_vec(orders)
}

/// Printed names of the feedback choices: all modes, then each LP mode.
pub open spec fn mode_label_text(i: int) -> Seq<char> {
    if i == 0 {
        "ALL"@
    } else if i == 1 {
        "LP01"@
    } else if i == 2 {
        "LP11"@
    } else if i == 3 {
        "LP21"@
    } else if i == 4 {
        "LP02"@
    } else if i == 5 {
        "LP31"@
    } else if i == 6 {
        "LP12"@
    } else if i == 7 {
        "LP41"@
    } else if i == 8 {
        "LP22"@
    } else {
        "LP03"@
    }
}

/// Number of labels: "ALL" and nine modes.
pub const MODE_LABEL_COUNT: usize = 10;

/// The label of feedback choice `i` (0 is all modes, `m + 1` is mode `m`).
pub fn mode_label(i: usize) -> (s: &'static str)
    requires
        i < MODE_LABEL_COUNT,
    ensures
        s@ == mode_label_text(i as int),
{
    if i == 0 {
        "ALL"
    } else if i == 1 {
        "LP01"
    } else if i == 2 {
        "LP11"
    } else if i == 3 {
        "LP21"
    } else if i == 4 {
        "LP02"
    } else if i == 5 {
        "LP31"
    } else if i == 6 {
        "LP12"
    } else if i == 7 {
        "LP41"
    } else if i == 8 {
        "LP22"
    } else {
        "LP03"
    }
}

/// The number of guided modes: one more than the length of the leading run
/// of cutoffs that lie below the V-number (`below_cutoff[k]` tells whether
/// the `k`-th cutoff is below it).
pub fn guided_mode_count(below_cutoff: &Vec<bool>) -> (nm: usize)
    requires
        below_cutoff.len() < usize::MAX,
    ensures
        1 <= nm <= below_cutoff.len() + 1,
        forall|k: int| 0 <= k < nm - 1 ==> below_cutoff@[k],
        nm - 1 == below_cutoff.len() || !below_cutoff@[nm - 1],
{
    let mut nm: usize = 1;
    while nm - 1 < below_cutoff.len() && below_cutoff[nm - 1]
        invariant
            below_cutoff.len() < usize::MAX,
            1 <= nm <= below_cutoff.len() + 1,
            forall|k: int| 0 <= k < nm - 1 ==> below_cutoff@[k],
        decreases below_cutoff.len() + 1 - nm,
    {
        nm += 1;
    }
    nm
}

/// The largest element of a sequence, 0 for the empty one.
pub open spec fn max_of(s: Seq<i64>) -> int
    decreases s.len(),
{
    if s.len() == 0 {
        0
    } else if s.len() == 1 {
        s[0] as int
    } else {
        let m = max_of(s.drop_last());
        if s.last() > m { s.last() as int } else { m }
    }
}

/// The largest element lies in the range of the element type.
proof fn lemma_max_of_bounds(s: Seq<i64>)
    ensures
        i64::MIN <= max_of(s) <= i64::MAX,
    decreases s.len(),
{
    if s.len() > 1 {
        lemma_max_of_bounds(s.drop_last());
    }
}

/// The number of azimuthal harmonics the carrier expansion needs:
/// one more than twice the largest mode order.
pub fn harmonic_count(lvec: &OrderVector) -> (nq: usize)
    requires
        0 <= max_of(order_items(*lvec)),
        1 + 2 * max_of(order_items(*lvec)) <= usize::MAX,
    ensures
        nq == 1 + 2 * max_of(order_items(*lvec)),
{
    let ghost s = order_items(*lvec);
    let n = lvec.len();
    let mut best: Option<i64> = None;
    let mut i: usize = 0;
    while i < n
        invariant
            i <= n,
            n == s.len(),
            s == order_items(*lvec),
            i == 0 ==> best is None,
            i > 0 ==> best == Some(max_of(s.take(i as int)) as i64),
        decreases n - i,
    {
        let x = lvec.get(i);
        proof {
            assert(s.take(i + 1).drop_last() =~= s.take(i as int));
            assert(s.take(i + 1).last() == x);
            lemma_max_of_bounds(s.take(i as int));
        }
        best = match best {
            None => Some(x),
            Some(b) => if x > b { Some(x) } else { Some(b) },
        };
        i += 1;
    }
    proof {
        assert(s.take(n as int) =~= s);
    }
    let m = match best {
        None => 0,
        Some(b) => b,
    };
    1 + 2 * (m as usize)
}

/// Which modes carry a sine-oriented component: those of non-zero order.
pub fn sine_modes(lvec: &OrderVector) -> (has_sine: Vec<bool>)
    ensures
        has_sine.len() == order_items(*lvec).len(),
        forall|k: int| 0 <= k < has_sine.len() ==> has_sine@[k] == (order_items(*lvec)[k] != 0),
{
    let n = lvec.len();
    let mut has_sine: Vec<bool> = Vec::new();
    let mut k: usize = 0;
    while k < n
        invariant
            k <= n,
            n == order_items(*lvec).len(),
            has_sine.len() == k,
            forall|j: int| 0 <= j < k ==> has_sine@[j] == (order_items(*lvec)[j] != 0),
        decreases n - k,
    {
        has_sine.push(lvec.get(k) != 0);
        k += 1;
    }
    has_sine
}

/// Every element is at most the largest one.
proof fn lemma_max_of_bounds_each(s: Seq<i64>)
    ensures
        forall|k: int| 0 <= k < s.len() ==> s[k] <= max_of(s),
    decreases s.len(),
{
    if s.len() > 1 {
        lemma_max_of_bounds_each(s.drop_last());
        assert forall|k: int| 0 <= k < s.len() implies s[k] <= max_of(s) by {
            if k < s.len() - 1 {
                assert(s[k] == s.drop_last()[k]);
            }
        }
    }
}

/// The harmonic count leaves room for every mode: twice any mode order is
/// below it, so the coupled harmonics `k ± 2l` of the zeroth harmonic exist.
pub proof fn law_harmonics_cover_orders(orders: Seq<i64>, nq: int)
    requires
        nq == 1 + 2 * max_of(orders),
    ensures
        forall|k: int| 0 <= k < orders.len() ==> 2 * orders[k] < nq,
{
    lemma_max_of_bounds_each(orders);
}

/// How many of the first `upto` modes of the table have order `o`.
pub open spec fn modes_of_order(o: i64, upto: int) -> int
    decreases upto,
{
    if upto <= 0 {
        0
    } else {
        modes_of_order(o, upto - 1) + if lp_orders()[upto - 1] == o { 1int } else { 0int }
    }
}

/// The label of mode `m` is "LP" followed by its azimuthal order from the
/// mode table and by its radial number: one more than the number of earlier
/// modes of the same order.
pub proof fn law_label_names_mode(m: int)
    requires
        0 <= m < MODE_LABEL_COUNT - 1,
    ensures
        mode_label_text(m + 1).len() == 4,
        mode_label_text(m + 1)[0] == 'L',
        mode_label_text(m + 1)[1] == 'P',
        mode_label_text(m + 1)[2] as int == 0x30 + lp_orders()[m],
        mode_label_text(m + 1)[3] as int == 0x30 + 1 + modes_of_order(lp_orders()[m], m),
{
    reveal_strlit("LP01");
    reveal_strlit("LP11");
    reveal_strlit("LP21");
    reveal_strlit("LP02");
    reveal_strlit("LP31");
    reveal_strlit("LP12");
    reveal_strlit("LP41");
    reveal_strlit("LP22");
    reveal_strlit("LP03");
    reveal_with_fuel(modes_of_order, 9);
    let o = lp_orders()[m];
    assert(lp_orders()[0] == 0 && lp_orders()[1] == 1 && lp_orders()[2] == 2 && lp_orders()[3] == 0
        && lp_orders()[4] == 3 && lp_orders()[5] == 1 && lp_orders()[6] == 4 && lp_orders()[7] == 2
        && lp_orders()[8] == 0);
    if m == 0 {
        assert(modes_of_order(o, 0) == 0);
    } else if m == 1 {
        assert(modes_of_order(o, 1) == 0);
    } else if m == 2 {
        assert(modes_of_order(o, 2) == 0);
    } else if m == 3 {
        assert(modes_of_order(o, 3) == 1);
    } else if m == 4 {
        assert(modes_of_order(o, 4) == 0);
    } else if m == 5 {
        assert(modes_of_order(o, 5) == 1);
    } else if m == 6 {
        assert(modes_of_order(o, 6) == 0);
    } else if m == 7 {
        assert(modes_of_order(o, 7) == 1);
    } else {
        assert(modes_of_order(o, 8) == 2);
    }
}

} // verus!
