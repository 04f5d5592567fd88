//! Model of the backend interrupt controller: the process-wide masking
//! threshold, a global interrupt mask, and the per-channel pending /
//! enabled state.
//!
//! This is the narrow interface the lock and dispatch primitives are built
//! on: enable, pend, unpend, get-threshold, set-threshold, mask-all /
//! unmask-all. A channel outside the validated set is a broken invariant
//! between analysis and runtime: the operation reports
//! `UnsupportedInterrupt` and changes nothing, and a correctly validated
//! system never takes that path.

use vstd::pervasive::VecAdditionalExecFns;
use vstd::prelude::*;

verus! {

/// A runtime error that a correctly validated configuration never raises.
#[derive(Clone, Copy, PartialEq, Eq, Structural, Debug)]
pub enum RuntimeError {
    /// A channel outside the validated set was handed to a primitive.
    UnsupportedInterrupt { channel: u8 },
}

/// The per-channel state of one software-triggerable interrupt.
#[derive(Clone, Copy, PartialEq, Eq, Structural, Debug)]
pub struct ChannelState {
    /// The channel is marked for execution; hardware arbitration will run
    /// its handler once the masking state allows it.
    pub pending: bool,
    /// The channel has been set up and may fire.
    pub enabled: bool,
    /// The priority the channel was enabled with.
    pub priority: u8,
    /// The execution context (hart) the channel was bound to.
    pub context: u8,
}

/// The state of the interrupt controller for one execution context.
///
/// Channel identifiers are `1 ..= channels.len()` (0 is reserved), so
/// channel `ch` lives at index `ch - 1`.
pub struct Slic {
    /// Largest priority value the hardware can represent.
    pub max_priority: u8,
    /// Current masking threshold: work at a priority at or below it is
    /// deferred.
    pub threshold: u8,
    /// How many global critical sections are currently open; all
    /// interrupts are masked whenever it is non-zero.
    pub mask_depth: usize,
    /// The software-triggerable channels.
    pub channels: Vec<ChannelState>,
}

impl Slic {
    /// Internal consistency: the threshold and every channel priority are
    /// representable.
    pub open spec fn wf(self) -> bool {
        &&& self.threshold <= self.max_priority
        &&& forall|i: int|
            0 <= i < self.channels@.len() ==> (#[trigger] self.channels@[i]).priority
                <= self.max_priority
    }

    /// Whether `ch` names a channel of this controller.
    pub open spec fn supports(self, ch: u8) -> bool {
        1 <= ch <= self.channels@.len()
    }

    /// The state of channel `ch`.
    pub open spec fn channel(self, ch: u8) -> ChannelState
        recommends
            self.supports(ch),
    {
        self.channels@[ch - 1]
    }

    /// A fresh controller: idle threshold, no global mask, all channels
    /// disabled and unpended.
    pub fn new(max_priority: u8, n_channels: u8) -> (s: Slic)
        ensures
            s.wf(),
            s.max_priority == max_priority,
            s.threshold == 0,
            s.mask_depth == 0,
            s.channels@.len() == n_channels,
            forall|i: int|
                0 <= i < n_channels ==> s.channels@[i] == (ChannelState {
                    pending: false,
                    enabled: false,
                    priority: 0,
                    context: 0,
                }),
    {
        let mut channels: Vec<ChannelState> = Vec::new();
        let mut i: u8 = 0;
        while i < n_channels
            invariant
                i <= n_channels,
                channels@.len() == i,
                forall|j: int|
                    0 <= j < i ==> channels@[j] == (ChannelState {
                        pending: false,
                        enabled: false,
                        priority: 0,
                        context: 0,
                    }),
            decreases n_channels - i,
        {
            channels.push(ChannelState { pending: false, enabled: false, priority: 0, context: 0 });
            i = i + 1;
        }
        Slic { max_priority, threshold: 0, mask_depth: 0, channels }
    }

    /// The current masking threshold.
    pub fn get_threshold(&self) -> (t: u8)
        ensures
            t == self.threshold,
    {
        self.threshold
    }

    /// Writes the masking threshold; everything else is untouched.
    pub fn set_threshold(&mut self, t: u8)
        requires
            t <= old(self).max_priority,
        ensures
            final(self).threshold == t,
            final(self).max_priority == old(self).max_priority,
            final(self).mask_depth == old(self).mask_depth,
            final(self).channels@ == old(self).channels@,
    {
        self.threshold = t;
    }

    /// Opens a global critical section: all interrupts masked until the
    /// matching `unmask_all`.
    pub fn mask_all(&mut self)
        requires
            old(self).mask_depth < usize::MAX,
        ensures
            final(self).mask_depth == old(self).mask_depth + 1,
            final(self).threshold == old(self).threshold,
            final(self).max_priority == old(self).max_priority,
            final(self).channels@ == old(self).channels@,
    {
        self.mask_depth = self.mask_depth + 1;
    }

    /// Closes the innermost global critical section.
    pub fn unmask_all(&mut self)
        requires
            old(self).mask_depth > 0,
        ensures
            final(self).mask_depth == old(self).mask_depth - 1,
            final(self).threshold == old(self).threshold,
            final(self).max_priority == old(self).max_priority,
            final(self).channels@ == old(self).channels@,
    {
        self.mask_depth = self.mask_depth - 1;
    }

    /// Marks channel `ch` pending; hardware priority arbitration will
    /// schedule it. Fails on a channel outside the validated set, changing
    /// nothing.
    pub fn pend(&mut self, ch: u8) -> (r: Result<(), RuntimeError>)
        ensures
            pend_spec(*old(self), ch, *final(self), r),
            old(self).wf() ==> final(self).wf(),
    {
        if ch >= 1 && (ch as usize) <= self.channels.len() {
            let idx = (ch - 1) as usize;
            let c = self.channels[idx];
            self.channels.set(idx, ChannelState { pending: true, ..c });
            Ok(())
        } else {
            Err(RuntimeError::UnsupportedInterrupt { channel: ch })
        }
    }

    /// Clears channel `ch`'s pending flag. Clearing an already-clear
    /// channel is a no-op, not an error. Fails on a channel outside the
    /// validated set, changing nothing.
    pub fn unpend(&mut self, ch: u8) -> (r: Result<(), RuntimeError>)
        ensures
            unpend_spec(*old(self), ch, *final(self), r),
            old(self).wf() ==> final(self).wf(),
    {
        if ch >= 1 && (ch as usize) <= self.channels.len() {
            let idx = (ch - 1) as usize;
            let c = self.channels[idx];
            self.channels.set(idx, ChannelState { pending: false, ..c });
            Ok(())
        } else {
            Err(RuntimeError::UnsupportedInterrupt { channel: ch })
        }
    }

    /// One-time setup of channel `ch`: assigns its priority and execution
    /// context, then enables it. Fails on a channel outside the validated
    /// set, changing nothing.
    pub fn enable(&mut self, ch: u8, priority: u8, context: u8) -> (r: Result<(), RuntimeError>)
        requires
            priority <= old(self).max_priority,
        ensures
            enable_spec(*old(self), ch, priority, context, *final(self), r),
            old(self).wf() ==> final(self).wf(),
    {
        if ch >= 1 && (ch as usize) <= self.channels.len() {
            let idx = (ch - 1) as usize;
            let c = self.channels[idx];
            self.channels.set(idx, ChannelState { enabled: true, priority, context, ..c });
            Ok(())
        } else {
            Err(RuntimeError::UnsupportedInterrupt { channel: ch })
        }
    }

    /// The first step of a software task's handler: unpend the handler's
    /// own channel. This simulates edge-triggered hardware semantics on
    /// targets whose software interrupts have sticky pending flags, so the
    /// task can be pended again from within its own execution without the
    /// request being lost.
    pub fn async_entry(&mut self, ch: u8) -> (r: Result<(), RuntimeError>)
        ensures
            unpend_spec(*old(self), ch, *final(self), r),
            old(self).wf() ==> final(self).wf(),
    {
        self.unpend(ch)
    }

    /// Whether a pending task of priority `p` may begin executing now:
    /// nothing is globally masked and `p` is above the threshold.
    pub fn can_start(&self, p: u8) -> (b: bool)
        ensures
            b == may_start(*self, p),
    {
        self.mask_depth == 0 && p > self.threshold
    }
}

/// A pending task of priority `p` may begin executing in state `s`.
pub open spec fn may_start(s: Slic, p: u8) -> bool {
    s.mask_depth == 0 && p > s.threshold
}

/// What `pend` does: on a supported channel the pending flag is set and
/// nothing else changes; on an unsupported one the state is untouched and
/// `UnsupportedInterrupt` comes back.
pub open spec fn pend_spec(pre: Slic, ch: u8, post: Slic, r: Result<(), RuntimeError>) -> bool {
    &&& post.max_priority == pre.max_priority
    &&& post.threshold == pre.threshold
    &&& post.mask_depth == pre.mask_depth
    &&& if pre.supports(ch) {
        &&& r is Ok
        &&& post.channels@ == pre.channels@.update(
            ch - 1,
            ChannelState { pending: true, ..pre.channels@[ch - 1] },
        )
    } else {
        &&& r == Err::<(), RuntimeError>(RuntimeError::UnsupportedInterrupt { channel: ch })
        &&& post.channels@ == pre.channels@
    }
}

/// What `unpend` does: the mirror of `pend_spec` with the flag cleared.
pub open spec fn unpend_spec(pre: Slic, ch: u8, post: Slic, r: Result<(), RuntimeError>) -> bool {
    &&& post.max_priority == pre.max_priority
    &&& post.threshold == pre.threshold
    &&& post.mask_depth == pre.mask_depth
    &&& if pre.supports(ch) {
        &&& r is Ok
        &&& post.channels@ == pre.channels@.update(
            ch - 1,
            ChannelState { pending: false, ..pre.channels@[ch - 1] },
        )
    } else {
        &&& r == Err::<(), RuntimeError>(RuntimeError::UnsupportedInterrupt { channel: ch })
        &&& post.channels@ == pre.channels@
    }
}

/// What `enable` does: the channel is enabled with the given priority and
/// context; pending is untouched.
pub open spec fn enable_spec(
    pre: Slic,
    ch: u8,
    priority: u8,
    context: u8,
    post: Slic,
    r: Result<(), RuntimeError>,
) -> bool {
    &&& post.max_priority == pre.max_priority
    &&& post.threshold == pre.threshold
    &&& post.mask_depth == pre.mask_depth
    &&& if pre.supports(ch) {
        &&& r is Ok
        &&& post.channels@ == pre.channels@.update(
            ch - 1,
            ChannelState { enabled: true, priority, context, ..pre.channels@[ch - 1] },
        )
    } else {
        &&& r == Err::<(), RuntimeError>(RuntimeError::UnsupportedInterrupt { channel: ch })
        &&& post.channels@ == pre.channels@
    }
}

/// Unpending is idempotent: on a channel that is already unpended, a
/// further `unpend` succeeds and leaves the whole controller state
/// unchanged.
pub proof fn lemma_unpend_idempotent(pre: Slic, ch: u8, post: Slic, r: Result<(), RuntimeError>)
    requires
        unpend_spec(pre, ch, post, r),
        pre.supports(ch),
        !pre.channel(ch).pending,
    ensures
        r is Ok,
        post.channels@ == pre.channels@,
        post.threshold == pre.threshold,
        post.mask_depth == pre.mask_depth,
        post.max_priority == pre.max_priority,
{
    assert(pre.channels@[ch - 1] == (ChannelState { pending: false, ..pre.channels@[ch - 1] }));
    assert(post.channels@ =~= pre.channels@);
}

} // verus!
