//! Mode-selective optical feedback: which modes the external cavity feeds
//! back, and which earlier time step a delayed field comes from.
use vstd::prelude::*;

verus! {

/// The modes that receive feedback: all of them for choice 0, otherwise only
/// mode `choice - 1` (none when there is no such mode among the `nm`).
pub fn feedback_mask(choice: usize, nm: usize) -> (mask: Vec<bool>)
    ensures
        mask.len() == nm,
        forall|m: int| 0 <= m < nm ==> mask@[m] == (choice == 0 || m + 1 == choice),
{
    let mut mask: Vec<bool> = Vec::new();
    let mut m: usize = 0;
    while m < nm
        invariant
            m <= nm,
            mask.len() == m,
            forall|j: int| 0 <= j < m ==> !mask@[j],
        decreases nm - m,
    {
        mask.push(false);
        m += 1;
    }
    if choice == 0 {
        let mut m: usize = 0;
        while m < nm
            invariant
                m <= nm,
                mask.len() == nm,
                forall|j: int| 0 <= j < m ==> mask@[j],
                forall|j: int| m <= j < nm ==> !mask@[j],
            decreases nm - m,
        {
            mask.set(m, true);
            m += 1;
        }
    } else if choice - 1 < nm {
        mask.set(choice - 1, true);
    }
    mask
}

/// The step whose field returns from the external cavity at step `i`, for a
/// round trip of `delay` steps: none until more than `delay` steps have run.
pub fn feedback_delay(i: usize, delay: usize) -> (src: Option<usize>)
    ensures
        src == if i > delay { Some((i - delay) as usize) } else { None::<usize> },
{
    if i > delay {
        Some(i - delay)
    } else {
        None
    }
}

/// A single-mode choice feeds back at most one mode, and choice 0 feeds
/// back every mode.
pub proof fn law_feedback_selects(mask: Seq<bool>, choice: usize, nm: usize)
    requires
        mask.len() == nm,
        forall|m: int| 0 <= m < nm ==> mask[m] == (choice == 0 || m + 1 == choice),
    ensures
        choice > 0 ==> forall|m1: int, m2: int|
            0 <= m1 < nm && 0 <= m2 < nm && mask[m1] && mask[m2] ==> m1 == m2,
        choice == 0 ==> forall|m: int| 0 <= m < nm ==> mask[m],
{
}

} // verus!
