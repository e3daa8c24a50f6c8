use vstd::prelude::*;

use super::navigation::NavigationTarget;

verus! {

/// Back/forward navigation history around the current location.
pub struct NavigationHistory {
    back: Vec<NavigationTarget>,
    current: Option<NavigationTarget>,
    forward: Vec<NavigationTarget>,
}

/// The abstract state of a history.
pub struct HistoryState {
    pub back: Seq<NavigationTarget>,
    pub current: Option<NavigationTarget>,
    pub forward: Seq<NavigationTarget>,
}

impl View for NavigationHistory {
    type V = HistoryState;

    closed spec fn view(&self) -> HistoryState {
        HistoryState { back: self.back@, current: self.current, forward: self.forward@ }
    }
}

/// Nothing can be behind or ahead of a history that has no current location.
pub open spec fn history_wf(h: HistoryState) -> bool {
    (h.back.len() > 0 || h.forward.len() > 0) ==> h.current is Some
}

/// `current` pushed onto `stack` when there is one.
pub open spec fn push_current(stack: Seq<NavigationTarget>, current: Option<NavigationTarget>) -> Seq<
    NavigationTarget,
> {
    match current {
        Some(c) => stack.push(c),
        None => stack,
    }
}

/// State and result of navigating to `target`.
pub open spec fn spec_navigate(h: HistoryState, target: NavigationTarget) -> (HistoryState, bool) {
    if h.current == Some(target) {
        (h, false)
    } else {
        (
            HistoryState {
                back: push_current(h.back, h.current),
                current: Some(target),
                forward: Seq::empty(),
            },
            true,
        )
    }
}

/// State and result of going back.
pub open spec fn spec_back(h: HistoryState) -> (HistoryState, Option<NavigationTarget>) {
    if h.back.len() == 0 {
        (h, None)
    } else {
        (
            HistoryState {
                back: h.back.drop_last(),
                current: Some(h.back.last()),
                forward: push_current(h.forward, h.current),
            },
            Some(h.back.last()),
        )
    }
}

/// State and result of going forward.
pub open spec fn spec_forward(h: HistoryState) -> (HistoryState, Option<NavigationTarget>) {
    if h.forward.len() == 0 {
        (h, None)
    } else {
        (
            HistoryState {
                back: push_current(h.back, h.current),
                current: Some(h.forward.last()),
                forward: h.forward.drop_last(),
            },
            Some(h.forward.last()),
        )
    }
}

impl Default for NavigationHistory {
    fn default() -> (h: Self)
        ensures
            h@.back.len() == 0,
            h@.current is None,
            h@.forward.len() == 0,
    {
        NavigationHistory { back: Vec::new(), current: None, forward: Vec::new() }
    }
}

impl NavigationHistory {
    /// Moves to `target`; returns false, changing nothing, when it is already current.
    pub fn navigate(&mut self, target: NavigationTarget) -> (changed: bool)
        ensures
            (final(self)@, changed) == spec_navigate(old(self)@, target),
    {
        if self.current == Some(target) {
            return false;
        }
        match self.current {
            Some(current) => self.back.push(current),
            None => {},
        }
        self.current = Some(target);
        self.forward.clear();
        assert(self@.forward =~= Seq::<NavigationTarget>::empty());
        true
    }

    /// Steps back, remembering the current location for `forward`.
    pub fn back(&mut self) -> (r: Option<NavigationTarget>)
        ensures
            (final(self)@, r) == spec_back(old(self)@),
    {
        let target = match self.back.pop() {
            Some(t) => t,
            None => return None,
        };
        match self.current {
            Some(current) => self.forward.push(current),
            None => {},
        }
        self.current = Some(target);
        self.current
    }

    /// Steps forward, remembering the current location for `back`.
    pub fn forward(&mut self) -> (r: Option<NavigationTarget>)
        ensures
            (final(self)@, r) == spec_forward(old(self)@),
    {
        let target = match self.forward.pop() {
            Some(t) => t,
            None => return None,
        };
        match self.current {
            Some(current) => self.back.push(current),
            None => {},
        }
        self.current = Some(target);
        self.current
    }

    pub fn can_back(&self) -> (r: bool)
        ensures
            r == (self@.back.len() > 0),
    {
        self.back.len() > 0
    }

    pub fn can_forward(&self) -> (r: bool)
        ensures
            r == (self@.forward.len() > 0),
    {
        self.forward.len() > 0
    }
}

/// Every operation keeps a history well formed.
pub proof fn law_history_wf_preserved(h: HistoryState, target: NavigationTarget)
    requires
        history_wf(h),
    ensures
        history_wf(spec_navigate(h, target).0),
        history_wf(spec_back(h).0),
        history_wf(spec_forward(h).0),
{
}

/// Going forward right after a successful step back restores the history exactly.
pub proof fn law_forward_undoes_back(h: HistoryState)
    requires
        history_wf(h),
        h.back.len() > 0,
    ensures
        spec_forward(spec_back(h).0) == (h, h.current),
{
    let (b, _) = spec_back(h);
    assert(b.forward.len() > 0);
    assert(b.forward.drop_last() =~= h.forward);
    assert(push_current(b.back, b.current) =~= h.back);
}

/// Going back right after a successful step forward restores the history exactly.
pub proof fn law_back_undoes_forward(h: HistoryState)
    requires
        history_wf(h),
        h.forward.len() > 0,
    ensures
        spec_back(spec_forward(h).0) == (h, h.current),
{
    let (f, _) = spec_forward(h);
    assert(f.back.drop_last() =~= h.back);
    assert(push_current(f.forward, f.current) =~= h.forward);
}

/// Navigating somewhere new clears the forward stack, and going back returns to the
/// location that was current before.
pub proof fn law_navigate_then_back(h: HistoryState, target: NavigationTarget)
    requires
        h.current is Some,
        h.current != Some(target),
    ensures
        spec_navigate(h, target).1,
        spec_navigate(h, target).0.forward.len() == 0,
        spec_back(spec_navigate(h, target).0).1 == h.current,
        spec_back(spec_navigate(h, target).0).0.forward == seq![target],
{
    let n = spec_navigate(h, target).0;
    assert(push_current(n.forward, n.current) =~= seq![target]);
}

} // verus!
