//! The navigation state machine: a current slide index and a total, moved
//! one step at a time and clamped to the ends — no wraparound, no jumps.

use vstd::prelude::*;

verus! {

/// Where the viewer stands in the presentation. Always `current < total`.
#[derive(Clone, Copy, Debug, PartialEq, Eq, Structural)]
pub struct NavigationState {
    pub current: usize,
    pub total: usize,
}

impl NavigationState {
    /// The state's invariant: it points at one of at least one slide.
    pub open spec fn wf(self) -> bool {
        1 <= self.total && self.current < self.total
    }

    /// The state after one step forward: one slide further, unless already
    /// on the last slide.
    pub open spec fn advance_spec(self) -> NavigationState {
        if self.current + 1 < self.total {
            NavigationState { current: (self.current + 1) as usize, total: self.total }
        } else {
            self
        }
    }

    /// The state after one step back: one slide earlier, unless already on
    /// the first slide.
    pub open spec fn retreat_spec(self) -> NavigationState {
        if self.current > 0 {
            NavigationState { current: (self.current - 1) as usize, total: self.total }
        } else {
            self
        }
    }

    /// A fresh state for a presentation of `total` slides, standing on the
    /// first one.
    pub fn new(total: usize) -> (s: NavigationState)
        requires
            total >= 1,
        ensures
            s.wf(),
            s.current == 0,
            s.total == total,
    {
        NavigationState { current: 0, total }
    }

    /// Steps forward, clamped at the last slide. Never fails.
    pub fn advance(&mut self)
        requires
            old(self).wf(),
        ensures
            *final(self) == old(self).advance_spec(),
            final(self).wf(),
    {
        if self.current < self.total - 1 {
            self.current = self.current + 1;
        }
    }

    /// Steps back, clamped at the first slide. Never fails.
    pub fn retreat(&mut self)
        requires
            old(self).wf(),
        ensures
            *final(self) == old(self).retreat_spec(),
            final(self).wf(),
    {
        if self.current > 0 {
            self.current = self.current - 1;
        }
    }

    /// The current slide index.
    pub fn index(&self) -> (i: usize)
        ensures
            i == self.current,
    {
        self.current
    }
}

/// The state after `k` forward steps.
pub open spec fn advance_n(s: NavigationState, k: nat) -> NavigationState
    decreases k,
{
    if k == 0 {
        s
    } else {
        advance_n(s, (k - 1) as nat).advance_spec()
    }
}

/// After `k` forward steps the index has grown by `k`, clamped to the last
/// slide; the total never changes.
pub proof fn lemma_advance_n_index(s: NavigationState, k: nat)
    requires
        s.wf(),
    ensures
        advance_n(s, k).wf(),
        advance_n(s, k).total == s.total,
        advance_n(s, k).current == if s.current + k < s.total {
            s.current + k
        } else {
            s.total - 1
        },
    decreases k,
{
    if k > 0 {
        lemma_advance_n_index(s, (k - 1) as nat);
    }
}

/// Law: with `total = N > 1`, starting on the first slide, one retreat
/// stays on the first slide; `N - 1` advances reach the last slide, and a
/// further advance stays there — clamped, never wrapping.
pub proof fn lemma_navigation_clamps(n: usize)
    requires
        n > 1,
    ensures
        (NavigationState { current: 0, total: n }).retreat_spec() == (NavigationState {
            current: 0,
            total: n,
        }),
        advance_n(NavigationState { current: 0, total: n }, (n - 1) as nat).current == n - 1,
        advance_n(NavigationState { current: 0, total: n }, (n - 1) as nat).advance_spec().current
            == n - 1,
{
    let s0 = NavigationState { current: 0, total: n };
    lemma_advance_n_index(s0, (n - 1) as nat);
}

} // verus!
