//! Index selections made on boolean masks that the numerical code computes:
//! the first position where a test holds, the radial cutoff of the modal
//! overlap integrals, and the window of the far-field grid that covers the
//! waveguide.
use vstd::prelude::*;

verus! {

/// `f` is the first position of `s` that holds.
pub open spec fn is_first_true(s: Seq<bool>, f: int) -> bool {
    &&& 0 <= f < s.len()
    &&& s[f]
    &&& forall|j: int| 0 <= j < f ==> !s[j]
}

/// `l` is the last position of `s` that holds.
pub open spec fn is_last_true(s: Seq<bool>, l: int) -> bool {
    &&& 0 <= l < s.len()
    &&& s[l]
    &&& forall|j: int| l < j < s.len() ==> !s[j]
}

/// The first position where the mask holds, or 0 when it holds nowhere.
pub fn first_index(mask: &Vec<bool>) -> (idx: usize)
    ensures
        (exists|j: int| 0 <= j < mask.len() && mask@[j]) ==> is_first_true(mask@, idx as int),
        (forall|j: int| 0 <= j < mask.len() ==> !mask@[j]) ==> idx == 0,
{
    let mut i: usize = 0;
    while i < mask.len()
        invariant
            i <= mask.len(),
            forall|j: int| 0 <= j < i ==> !mask@[j],
        decreases mask.len() - i,
    {
        if mask[i] {
            return i;
        }
        i += 1;
    }
    0
}

/// The mode whose intensity profile sets the radial cutoff of the angular
/// diffusion integrals: none for a single mode, mode 1 for up to five modes,
/// mode 5 beyond.
pub fn modal_cutoff_row(nm: usize) -> (row: Option<usize>)
    ensures
        nm <= 1 ==> row is None,
        1 < nm < 6 ==> row == Some(1usize),
        6 <= nm ==> row == Some(5usize),
{
    if nm > 1 {
        if nm < 6 { Some(1) } else { Some(5) }
    } else {
        None
    }
}

/// The radial index where the angular diffusion integrals start: 1 for a
/// single mode, otherwise the first index where the reference profile
/// reaches its threshold (`reaches[idx]`), or 0 when it never does.
pub fn modal_cutoff_index(nm: usize, reaches: &Vec<bool>) -> (s: usize)
    ensures
        nm <= 1 ==> s == 1,
        nm > 1 && (exists|j: int| 0 <= j < reaches.len() && reaches@[j]) ==> is_first_true(
            reaches@,
            s as int,
        ),
        nm > 1 && (forall|j: int| 0 <= j < reaches.len() ==> !reaches@[j]) ==> s == 0,
{
    if nm > 1 {
        first_index(reaches)
    } else {
        1
    }
}

/// The square window of the far-field grid around the waveguide core.
pub struct GuideWindow {
    /// First grid index inside the core.
    pub inside_first: usize,
    /// Last grid index inside the core.
    pub inside_last: usize,
    /// First index of the window: one before the core, if there is one.
    pub first: usize,
    /// Last index of the window: one after the core, if there is one.
    pub last: usize,
    /// Number of grid points across the window.
    pub width: usize,
    /// Number of offsets across the correlation of two window-sized grids.
    pub offsets: usize,
    /// Index of the zero offset in the correlation.
    pub center: usize,
}

/// `w` is the window of the grid coordinates marked in `inside`.
pub open spec fn is_guide_window(inside: Seq<bool>, w: GuideWindow) -> bool {
    &&& is_first_true(inside, w.inside_first as int)
    &&& is_last_true(inside, w.inside_last as int)
    &&& w.first == if w.inside_first == 0 { 0 } else { w.inside_first - 1 }
    &&& w.last == if w.inside_last + 1 < inside.len() { w.inside_last + 1 } else { inside.len() - 1 }
    &&& w.width == w.last - w.first + 1
    &&& w.offsets == 2 * w.width - 1
    &&& w.center == w.width - 1
}

/// Finds the window around the core, given which grid points lie inside it
/// (`inside[i]` tells whether coordinate `i` is within the core radius).
pub fn guide_window(inside: &Vec<bool>) -> (w: GuideWindow)
    requires
        inside.len() <= isize::MAX,
        exists|j: int| 0 <= j < inside.len() && inside@[j],
    ensures
        is_guide_window(inside@, w),
{
    let n = inside.len();
    let lo = first_index(inside);
    let mut hi: usize = n - 1;
    while !inside[hi]
        invariant
            n == inside.len(),
            lo <= hi < n,
            is_first_true(inside@, lo as int),
            forall|j: int| hi < j < n ==> !inside@[j],
        decreases hi,
    {
        hi -= 1;
    }
    let first = lo.saturating_sub(1);
    let last = if hi + 1 < n - 1 { hi + 1 } else { n - 1 };
    let width = last - first + 1;
    GuideWindow {
        inside_first: lo,
        inside_last: hi,
        first,
        last,
        width,
        offsets: width * 2 - 1,
        center: width - 1,
    }
}

/// The window lies on the grid and holds every coordinate inside the core,
/// and the zero offset sits in the middle of the correlation offsets.
pub proof fn law_window_covers_core(inside: Seq<bool>, w: GuideWindow)
    requires
        is_guide_window(inside, w),
    ensures
        w.first <= w.inside_first <= w.inside_last <= w.last < inside.len(),
        forall|j: int| 0 <= j < inside.len() && inside[j] ==> w.first <= j <= w.last,
        w.offsets == 2 * w.center + 1,
{
    assert forall|j: int| 0 <= j < inside.len() && inside[j] implies w.first <= j <= w.last by {
        assert(!(j < w.inside_first));
        assert(!(j > w.inside_last));
    }
}

/// The window extends exactly one grid point beyond the core on each side
/// where the grid allows, and that point lies outside the core; so its width
/// is the core's span plus one for each side away from the grid's edge.
pub proof fn law_window_margin(inside: Seq<bool>, w: GuideWindow)
    requires
        is_guide_window(inside, w),
    ensures
        w.inside_first > 0 ==> w.first + 1 == w.inside_first && !inside[w.first as int],
        w.inside_first == 0 ==> w.first == 0,
        w.inside_last + 1 < inside.len() ==> w.last == w.inside_last + 1 && !inside[w.last as int],
        w.inside_last + 1 == inside.len() ==> w.last == w.inside_last,
        w.width == w.inside_last - w.inside_first + 1 + (if w.inside_first > 0 { 1int } else { 0int })
            + (if w.inside_last + 1 < inside.len() { 1int } else { 0int }),
        w.center == w.width - 1,
        w.offsets == 2 * w.width - 1,
{
}

} // verus!
