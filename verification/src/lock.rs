//! The lock primitive of the Priority Ceiling Protocol, and the threshold
//! frame around a dispatched task.
//!
//! A critical section on a resource with ceiling `c` raises the masking
//! threshold to `c` for its duration — or masks all interrupts when `c` is
//! the hardware maximum, where no higher context can exist — and restores
//! the exact prior state afterwards, so nested locks compose in stack
//! discipline.

use vstd::prelude::*;

use crate::slic::{may_start, Slic};

verus! {

/// What a lock acquisition saved, handed back on release.
#[derive(Clone, Copy, PartialEq, Eq, Structural, Debug)]
pub enum LockGuard {
    /// The ceiling was the hardware maximum: all interrupts were masked.
    Masked,
    /// The threshold was raised; `saved` is the value to restore.
    Raised { saved: u8 },
}

/// What entering a critical section with `ceiling` does: at the hardware
/// maximum it opens a global mask; otherwise it raises the threshold to
/// `ceiling` and saves the prior value. Channels are untouched.
pub open spec fn lock_enter_spec(pre: Slic, ceiling: u8, post: Slic, g: LockGuard) -> bool {
    &&& post.max_priority == pre.max_priority
    &&& post.channels@ == pre.channels@
    &&& if ceiling == pre.max_priority {
        &&& g == LockGuard::Masked
        &&& post.threshold == pre.threshold
        &&& post.mask_depth == pre.mask_depth + 1
    } else {
        &&& g == (LockGuard::Raised { saved: pre.threshold })
        &&& post.threshold == ceiling
        &&& post.mask_depth == pre.mask_depth
    }
}

/// What leaving a critical section does: the exact saved state comes back,
/// never a reset to a baseline.
pub open spec fn lock_exit_spec(pre: Slic, g: LockGuard, post: Slic) -> bool {
    &&& post.max_priority == pre.max_priority
    &&& post.channels@ == pre.channels@
    &&& match g {
        LockGuard::Masked => {
            &&& post.threshold == pre.threshold
            &&& post.mask_depth == pre.mask_depth - 1
        },
        LockGuard::Raised { saved } => {
            &&& post.threshold == saved
            &&& post.mask_depth == pre.mask_depth
        },
    }
}

impl Slic {
    /// Enters a critical section on a resource with the given ceiling: no
    /// task of priority at or below `ceiling` can begin until the matching
    /// `lock_exit`, while any task of strictly higher priority remains
    /// free to preempt.
    ///
    /// The threshold is only ever raised: the ceiling is at least the
    /// current threshold, which holds by construction of the protocol —
    /// ceilings are non-decreasing while locks nest, and a context only
    /// locks resources whose ceiling covers its own priority.
    pub fn lock_enter(&mut self, ceiling: u8) -> (g: LockGuard)
        requires
            old(self).wf(),
            old(self).threshold <= ceiling,
            ceiling <= old(self).max_priority,
            old(self).mask_depth < usize::MAX,
        ensures
            final(self).wf(),
            lock_enter_spec(*old(self), ceiling, *final(self), g),
    {
        if ceiling == self.max_priority {
            self.mask_all();
            LockGuard::Masked
        } else {
            let saved = self.get_threshold();
            self.set_threshold(ceiling);
            LockGuard::Raised { saved }
        }
    }

    /// Leaves a critical section, restoring exactly what `lock_enter`
    /// saved: a higher-ceiling lock taken inside a lower one restores to
    /// the lower one's ceiling, not to zero.
    pub fn lock_exit(&mut self, g: LockGuard)
        requires
            old(self).wf(),
            g is Masked ==> old(self).mask_depth > 0,
            g matches LockGuard::Raised { saved } ==> saved <= old(self).max_priority,
        ensures
            final(self).wf(),
            lock_exit_spec(*old(self), g, *final(self)),
    {
        match g {
            LockGuard::Masked => self.unmask_all(),
            LockGuard::Raised { saved } => self.set_threshold(saved),
        }
    }

    /// The threshold frame read on entry to a dispatched task's handler:
    /// the value `run_exit` must restore.
    pub fn run_enter(&self) -> (saved: u8)
        ensures
            saved == self.threshold,
    {
        self.get_threshold()
    }

    /// The threshold frame written on exit from a dispatched task's
    /// handler: exactly back to `saved`, the value `run_enter` observed —
    /// the preempted context's level, or 0 for idle — restored once, in
    /// stack discipline, whatever the handler's own priority was.
    pub fn run_exit(&mut self, saved: u8)
        requires
            old(self).wf(),
            saved <= old(self).max_priority,
        ensures
            final(self).wf(),
            final(self).threshold == saved,
            final(self).max_priority == old(self).max_priority,
            final(self).mask_depth == old(self).mask_depth,
            final(self).channels@ == old(self).channels@,
    {
        self.set_threshold(saved);
    }
}

/// A critical section restores exactly: releasing a lock puts the
/// controller back in the state observed when it was entered.
pub proof fn lemma_lock_restores(s0: Slic, c: u8, g: LockGuard, s1: Slic, s2: Slic)
    requires
        s0.wf(),
        c <= s0.max_priority,
        lock_enter_spec(s0, c, s1, g),
        lock_exit_spec(s1, g, s2),
    ensures
        s2.threshold == s0.threshold,
        s2.mask_depth == s0.mask_depth,
        s2.max_priority == s0.max_priority,
        s2.channels@ == s0.channels@,
{
}

/// Nested critical sections restore exactly: after an inner lock (any
/// ceiling at or above the outer's) and the outer lock both release, the
/// controller is back in the state observed before the outer lock was
/// entered — the threshold in particular.
pub proof fn lemma_nested_lock_restores(
    s0: Slic,
    c1: u8,
    c2: u8,
    g1: LockGuard,
    g2: LockGuard,
    s1: Slic,
    s2: Slic,
    s3: Slic,
    s4: Slic,
)
    requires
        s0.wf(),
        c1 <= s0.max_priority,
        c2 <= s0.max_priority,
        c1 <= c2,
        lock_enter_spec(s0, c1, s1, g1),
        lock_enter_spec(s1, c2, s2, g2),
        lock_exit_spec(s2, g2, s3),
        lock_exit_spec(s3, g1, s4),
    ensures
        s4.threshold == s0.threshold,
        s4.mask_depth == s0.mask_depth,
        s4.max_priority == s0.max_priority,
        s4.channels@ == s0.channels@,
{
}

/// The protocol's blocking guarantee. While a lock with ceiling `c` is
/// held, a pending task of priority `p` may begin exactly when it could
/// before and `p` exceeds `c`: a task at or below the ceiling is blocked,
/// one above it preempts. Once the lock is released, whether a task may
/// begin is again exactly what it was before the lock was entered.
pub proof fn lemma_lock_blocks(s0: Slic, c: u8, g: LockGuard, s1: Slic, s2: Slic, p: u8)
    requires
        s0.wf(),
        c <= s0.max_priority,
        p <= s0.max_priority,
        lock_enter_spec(s0, c, s1, g),
        lock_exit_spec(s1, g, s2),
    ensures
        may_start(s1, p) <==> (s0.mask_depth == 0 && p > c),
        may_start(s2, p) <==> may_start(s0, p),
{
}

} // verus!
