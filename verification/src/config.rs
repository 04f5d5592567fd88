//! Data model of the task/resource graph and of the target hardware.
//!
//! The graph is fixed ahead of execution: tasks are never created or
//! destroyed at runtime. Priority 0 is reserved for the idle context and is
//! never assigned to a task.

use vstd::prelude::*;

verus! {

/// The priority of the idle/background context; never a task priority.
pub const IDLE_PRIORITY: u8 = 0;

/// How a task is triggered: bound to a hardware interrupt line, or
/// dispatched through a software-triggerable channel.
#[derive(Clone, Copy, PartialEq, Eq, Structural, Debug)]
pub enum Binding {
    /// The task is entered by a specific hardware interrupt.
    Hardware { interrupt: u16 },
    /// The task is scheduled by pending a software dispatcher channel.
    Software,
}

/// One task of the static configuration: a fixed priority, a binding, and
/// the indices of the resources it accesses.
#[derive(Debug)]
pub struct Task {
    pub priority: u8,
    pub binding: Binding,
    pub resources: Vec<usize>,
}

impl Task {
    /// Whether the task accesses resource `r`.
    pub open spec fn accesses(self, r: usize) -> bool {
        self.resources@.contains(r)
    }

    /// Whether the task is software-dispatched.
    pub open spec fn is_software(self) -> bool {
        self.binding is Software
    }
}

/// Description of the target interrupt controller: the bounds every
/// configuration is validated against.
#[derive(Debug)]
pub struct Target {
    /// Largest priority value the hardware can represent.
    pub max_priority: u8,
    /// Number of software-dispatcher channels the target offers; the valid
    /// channel identifiers are `1 ..= soft_channels` (0 is reserved).
    pub soft_channels: u8,
    /// The hardware interrupt identifiers that exist on this target.
    pub hw_interrupts: Vec<u16>,
}

impl Target {
    /// Whether `ch` names a software-dispatcher channel of this target.
    pub open spec fn supports_channel(self, ch: u8) -> bool {
        1 <= ch <= self.soft_channels
    }

    /// Whether `irq` names a hardware interrupt line of this target.
    pub open spec fn supports_interrupt(self, irq: u16) -> bool {
        self.hw_interrupts@.contains(irq)
    }
}

} // verus!
