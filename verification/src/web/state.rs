//! How many viewers are watching.

use vstd::prelude::*;

verus! {

/// The counter of watching viewers after one has left. It never goes below zero.
pub open spec fn one_less(count: usize) -> usize {
    if count == 0 {
        0
    } else {
        (count - 1) as usize
    }
}

/// The counter of watching viewers after one has left.
pub fn safe_dec_active_views(count: usize) -> (r: usize)
    ensures
        r == one_less(count),
{
    if count == 0 {
        0
    } else {
        count - 1
    }
}

/// What the counter has to do.
#[derive(Debug, Clone, Copy, PartialEq, Eq, Structural)]
pub enum ViewChange {
    Keep,
    Enter,
    Leave,
}

/// A viewer, who watches or does not.
#[derive(Debug, Clone, Copy, PartialEq, Eq)]
pub struct ActiveViewGuard {
    pub is_active: bool,
}

/// The counter after a change.
pub open spec fn counted(count: int, change: ViewChange) -> int {
    match change {
        ViewChange::Keep => count,
        ViewChange::Enter => count + 1,
        ViewChange::Leave => count - 1,
    }
}

/// What a viewer adds to the counter.
pub open spec fn share(v: ActiveViewGuard) -> int {
    if v.is_active {
        1
    } else {
        0
    }
}

impl ActiveViewGuard {
    /// A viewer who has just connected and watches.
    pub fn new() -> (r: (ActiveViewGuard, ViewChange))
        ensures
            r.0.is_active,
            r.1 == ViewChange::Enter,
    {
        (ActiveViewGuard { is_active: true }, ViewChange::Enter)
    }

    /// The viewer says whether they watch. The counter follows only where that is new.
    pub fn set(&mut self, is_active: bool) -> (r: ViewChange)
        ensures
            final(self).is_active == is_active,
            r == (if is_active == old(self).is_active {
                ViewChange::Keep
            } else if is_active {
                ViewChange::Enter
            } else {
                ViewChange::Leave
            }),
            forall|count: int| #[trigger]
                counted(count, r) - share(*final(self)) == count - share(*old(self)),
    {
        if is_active == self.is_active {
            return ViewChange::Keep;
        }
        self.is_active = is_active;
        if is_active {
            ViewChange::Enter
        } else {
            ViewChange::Leave
        }
    }

    /// The viewer is gone.
    pub fn close(&self) -> (r: ViewChange)
        ensures
            r == (if self.is_active {
                ViewChange::Leave
            } else {
                ViewChange::Keep
            }),
            forall|count: int| #[trigger] counted(count, r) == count - share(*self),
    {
        if self.is_active {
            ViewChange::Leave
        } else {
            ViewChange::Keep
        }
    }
}

/// The change that a viewer in state `was` makes by saying `now`.
pub open spec fn change_of(was: bool, now: bool) -> ViewChange {
    if was == now {
        ViewChange::Keep
    } else if now {
        ViewChange::Enter
    } else {
        ViewChange::Leave
    }
}

/// The counter after a viewer in state `was` says one thing after another, and then leaves.
pub open spec fn after_visit(count: int, was: bool, says: Seq<bool>) -> int
    decreases says.len(),
{
    if says.len() == 0 {
        counted(
            count,
            if was {
                ViewChange::Leave
            } else {
                ViewChange::Keep
            },
        )
    } else {
        after_visit(counted(count, change_of(was, says[0])), says[0], says.skip(1))
    }
}

/// A viewer who connects, says anything any number of times and leaves is counted out exactly as
/// they were counted in.
pub proof fn law_visit_is_balanced(count: int, says: Seq<bool>)
    ensures
        after_visit(counted(count, ViewChange::Enter), true, says) == count,
{
    lemma_visit(counted(count, ViewChange::Enter), true, says);
}

proof fn lemma_visit(count: int, was: bool, says: Seq<bool>)
    ensures
        after_visit(count, was, says) == count - share(ActiveViewGuard { is_active: was }),
    decreases says.len(),
{
    if says.len() > 0 {
        lemma_visit(counted(count, change_of(was, says[0])), says[0], says.skip(1));
    }
}

} // verus!
