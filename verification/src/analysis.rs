//! Build-time analysis of a task/resource configuration.
//!
//! Computes the lock ceiling of every resource, allocates software
//! dispatcher channels (one per distinct non-idle software priority), and
//! validates the configuration against the target's hardware limits. All
//! failures here are fatal configuration errors: a rejected configuration
//! must never reach execution.

use vstd::prelude::*;

use crate::config::{Binding, Target, Task, IDLE_PRIORITY};

verus! {

/// A fatal configuration error, detected before execution begins.
#[derive(Clone, Copy, PartialEq, Eq, Structural, Debug)]
pub enum ConfigError {
    /// A requested dispatcher channel is outside the target's channel set.
    UnsupportedDispatcher { index: usize, channel: u8 },
    /// A task's priority exceeds the hardware's maximum representable one.
    UnsupportedPriority { task: usize, priority: u8 },
    /// A hardware task binds an interrupt the target does not have.
    InvalidBinding { task: usize, interrupt: u16 },
    /// More distinct software priorities than dispatcher channels; `task` is
    /// the first task whose priority level could not be given a channel.
    InsufficientDispatchers { task: usize, priority: u8 },
}

/// The ceiling of resource `r`: the maximum priority among the tasks that
/// access it, or `None` if no task does (the resource is unused and is
/// excluded from the generated ceiling table).
pub open spec fn spec_ceiling(tasks: Seq<Task>, r: usize) -> Option<u8>
    decreases tasks.len(),
{
    if tasks.len() == 0 {
        None
    } else {
        let rest = spec_ceiling(tasks.drop_last(), r);
        let t = tasks.last();
        if t.accesses(r) {
            match rest {
                None => Some(t.priority),
                Some(c) => Some(if t.priority > c { t.priority } else { c }),
            }
        } else {
            rest
        }
    }
}

/// The ceiling of a resource is exactly the maximum priority over its
/// accessors: it is defined iff some task accesses the resource, it bounds
/// every accessor's priority, and it is attained by one of them.
pub proof fn lemma_ceiling_is_max(tasks: Seq<Task>, r: usize)
    ensures
        (spec_ceiling(tasks, r) is Some) <==> (exists|i: int|
            0 <= i < tasks.len() && #[trigger] tasks[i].accesses(r)),
        forall|i: int|
            0 <= i < tasks.len() && #[trigger] tasks[i].accesses(r) ==> tasks[i].priority
                <= spec_ceiling(tasks, r)->0,
        (spec_ceiling(tasks, r) is Some) ==> exists|i: int|
            0 <= i < tasks.len() && #[trigger] tasks[i].accesses(r) && tasks[i].priority
                == spec_ceiling(tasks, r)->0,
    decreases tasks.len(),
{
    if tasks.len() > 0 {
        lemma_ceiling_is_max(tasks.drop_last(), r);
        assert forall|i: int| 0 <= i < tasks.len() && #[trigger] tasks[i].accesses(r) implies tasks[i].priority
            <= spec_ceiling(tasks, r)->0 by {
            if i < tasks.len() - 1 {
                assert(tasks.drop_last()[i] == tasks[i]);
            }
        }
        if spec_ceiling(tasks, r) is Some {
            if tasks.last().accesses(r) && tasks.last().priority == spec_ceiling(tasks, r)->0 {
                assert(tasks[tasks.len() - 1].accesses(r));
            } else {
                let j = choose|j: int|
                    0 <= j < tasks.drop_last().len() && #[trigger] tasks.drop_last()[j].accesses(r)
                        && tasks.drop_last()[j].priority == spec_ceiling(tasks.drop_last(), r)->0;
                assert(tasks[j].accesses(r));
            }
        }
        if exists|i: int| 0 <= i < tasks.len() && #[trigger] tasks[i].accesses(r) {
            let i = choose|i: int| 0 <= i < tasks.len() && #[trigger] tasks[i].accesses(r);
            if i < tasks.len() - 1 {
                assert(tasks.drop_last()[i].accesses(r));
            }
        }
    }
}

/// Once every task priority is validated against the hardware maximum,
/// every resource ceiling is representable too: a lock may always raise
/// the threshold to it.
pub proof fn lemma_ceiling_within_hardware(tasks: Seq<Task>, r: usize, max: u8)
    requires
        forall|i: int| 0 <= i < tasks.len() ==> (#[trigger] tasks[i]).priority <= max,
    ensures
        spec_ceiling(tasks, r) is Some ==> spec_ceiling(tasks, r)->0 <= max,
{
    lemma_ceiling_is_max(tasks, r);
}

/// Whether task `t` accesses resource `r`.
fn accesses_resource(t: &Task, r: usize) -> (b: bool)
    ensures
        b == t.accesses(r),
{
    let mut i: usize = 0;
    while i < t.resources.len()
        invariant
            i <= t.resources.len(),
            forall|j: int| 0 <= j < i ==> t.resources@[j] != r,
        decreases t.resources.len() - i,
    {
        if t.resources[i] == r {
            return true;
        }
        i = i + 1;
    }
    false
}

/// The ceiling of resource `r` under `tasks`: the maximum priority among its
/// accessors, or `None` if it has none.
pub fn ceiling_of(tasks: &Vec<Task>, r: usize) -> (c: Option<u8>)
    ensures
        c == spec_ceiling(tasks@, r),
{
    let mut c: Option<u8> = None;
    let mut i: usize = 0;
    while i < tasks.len()
        invariant
            i <= tasks.len(),
            c == spec_ceiling(tasks@.take(i as int), r),
        decreases tasks.len() - i,
    {
        assert(tasks@.take(i + 1).drop_last() =~= tasks@.take(i as int));
        assert(tasks@.take(i + 1).last() == tasks@[i as int]);
        if accesses_resource(&tasks[i], r) {
            c = match c {
                None => Some(tasks[i].priority),
                Some(m) => Some(if tasks[i].priority > m { tasks[i].priority } else { m }),
            };
        }
        i = i + 1;
    }
    assert(tasks@.take(tasks@.len() as int) =~= tasks@);
    c
}

/// The distinct non-idle priorities of the software tasks in `tasks`, in
/// order of first occurrence. Its length is the number of dispatcher
/// channels the configuration needs.
pub open spec fn distinct_soft_prios(tasks: Seq<Task>) -> Seq<u8>
    decreases tasks.len(),
{
    if tasks.len() == 0 {
        Seq::empty()
    } else {
        let rest = distinct_soft_prios(tasks.drop_last());
        let t = tasks.last();
        if t.is_software() && t.priority > 0 && !rest.contains(t.priority) {
            rest.push(t.priority)
        } else {
            rest
        }
    }
}

/// `distinct_soft_prios` holds each priority level once, and holds exactly
/// the priority levels used by non-idle software tasks: its length is the
/// number of distinct such levels.
pub proof fn lemma_distinct_soft_prios(tasks: Seq<Task>)
    ensures
        distinct_soft_prios(tasks).no_duplicates(),
        forall|p: u8|
            distinct_soft_prios(tasks).contains(p) <==> (exists|i: int|
                0 <= i < tasks.len() && (#[trigger] tasks[i]).is_software() && tasks[i].priority
                    == p && p > 0),
    decreases tasks.len(),
{
    if tasks.len() > 0 {
        lemma_distinct_soft_prios(tasks.drop_last());
        assert forall|p: u8| distinct_soft_prios(tasks).contains(p) implies (exists|i: int|
            0 <= i < tasks.len() && (#[trigger] tasks[i]).is_software() && tasks[i].priority == p
                && p > 0) by {
            if distinct_soft_prios(tasks.drop_last()).contains(p) {
                let i = choose|i: int|
                    0 <= i < tasks.drop_last().len() && (#[trigger] tasks.drop_last()[i]).is_software()
                        && tasks.drop_last()[i].priority == p && p > 0;
                assert(tasks[i].is_software());
            } else {
                assert(tasks[tasks.len() - 1].is_software());
            }
        }
        assert forall|p: u8|
            (exists|i: int|
                0 <= i < tasks.len() && (#[trigger] tasks[i]).is_software() && tasks[i].priority
                    == p && p > 0) implies distinct_soft_prios(tasks).contains(p) by {
            let i = choose|i: int|
                0 <= i < tasks.len() && (#[trigger] tasks[i]).is_software() && tasks[i].priority
                    == p && p > 0;
            let rest = distinct_soft_prios(tasks.drop_last());
            if i < tasks.len() - 1 {
                assert(tasks.drop_last()[i].is_software());
                assert(rest.contains(p));
                let j = choose|j: int| 0 <= j < rest.len() && rest[j] == p;
                assert(distinct_soft_prios(tasks)[j] == p);
            } else {
                if rest.contains(p) {
                    let j = choose|j: int| 0 <= j < rest.len() && rest[j] == p;
                    assert(distinct_soft_prios(tasks)[j] == p);
                } else {
                    assert(distinct_soft_prios(tasks) == rest.push(p));
                    assert(distinct_soft_prios(tasks)[rest.len() as int] == p);
                }
            }
        }
    }
}

/// The number of distinct software priority levels in a prefix never
/// exceeds the number in the whole configuration.
pub proof fn lemma_distinct_prefix_len(tasks: Seq<Task>, j: int)
    requires
        0 <= j <= tasks.len(),
    ensures
        distinct_soft_prios(tasks.take(j)).len() <= distinct_soft_prios(tasks).len(),
    decreases tasks.len(),
{
    if j < tasks.len() {
        assert(tasks.drop_last().take(j) =~= tasks.take(j));
        lemma_distinct_prefix_len(tasks.drop_last(), j);
    } else {
        assert(tasks.take(j) =~= tasks);
    }
}

/// One entry of the dispatcher assignment: the software tasks at `priority`
/// are dispatched through channel `channel`.
#[derive(Clone, Copy, PartialEq, Eq, Structural, Debug)]
pub struct PrioChannel {
    pub priority: u8,
    pub channel: u8,
}

/// Whether `seen` holds `p` (distinct priorities collected so far).
fn contains_prio(seen: &Vec<u8>, p: u8) -> (b: bool)
    ensures
        b == seen@.contains(p),
{
    let mut i: usize = 0;
    while i < seen.len()
        invariant
            i <= seen.len(),
            forall|j: int| 0 <= j < i ==> seen@[j] != p,
        decreases seen.len() - i,
    {
        if seen[i] == p {
            return true;
        }
        i = i + 1;
    }
    false
}

/// The dispatcher assignment is correct for `tasks` and the requested
/// channel list: one channel per distinct non-idle software priority, in
/// order of first occurrence.
pub open spec fn assignment_ok(tasks: Seq<Task>, channels: Seq<u8>, a: Seq<PrioChannel>) -> bool {
    &&& a.len() == distinct_soft_prios(tasks).len()
    &&& forall|i: int|
        0 <= i < a.len() ==> a[i] == (PrioChannel {
            priority: distinct_soft_prios(tasks)[i],
            channel: channels[i],
        })
}

/// Allocates one dispatcher channel per distinct non-idle software-task
/// priority, in order of first occurrence; fails with
/// `InsufficientDispatchers` at the first priority level found short a
/// channel.
pub fn allocate_dispatchers(tasks: &Vec<Task>, channels: &Vec<u8>) -> (r: Result<
    Vec<PrioChannel>,
    ConfigError,
>)
    ensures
        (r is Ok) <==> distinct_soft_prios(tasks@).len() <= channels@.len(),
        match r {
            Ok(a) => assignment_ok(tasks@, channels@, a@),
            Err(e) => e matches ConfigError::InsufficientDispatchers { task, priority } && {
                &&& 0 <= task < tasks@.len()
                &&& tasks@[task as int].is_software()
                &&& tasks@[task as int].priority == priority
                &&& priority > 0
                &&& distinct_soft_prios(tasks@.take(task as int)).len() == channels@.len()
                &&& !distinct_soft_prios(tasks@.take(task as int)).contains(priority)
            },
        },
{
    let mut seen: Vec<u8> = Vec::new();
    let mut assignment: Vec<PrioChannel> = Vec::new();
    let mut i: usize = 0;
    while i < tasks.len()
        invariant
            i <= tasks.len(),
            seen@ == distinct_soft_prios(tasks@.take(i as int)),
            seen@.len() <= channels@.len(),
            assignment_ok(tasks@.take(i as int), channels@, assignment@),
        decreases tasks.len() - i,
    {
        assert(tasks@.take(i + 1).drop_last() =~= tasks@.take(i as int));
        assert(tasks@.take(i + 1).last() == tasks@[i as int]);
        let t = &tasks[i];
        let is_soft = match t.binding {
            Binding::Software => true,
            Binding::Hardware { .. } => false,
        };
        if is_soft && t.priority > IDLE_PRIORITY && !contains_prio(&seen, t.priority) {
            if seen.len() == channels.len() {
                proof {
                    assert(distinct_soft_prios(tasks@.take(i + 1)) == distinct_soft_prios(
                        tasks@.take(i as int),
                    ).push(t.priority));
                    lemma_distinct_prefix_len(tasks@, i + 1);
                }
                return Err(
                    ConfigError::InsufficientDispatchers { task: i, priority: t.priority },
                );
            }
            let ch = channels[seen.len()];
            assignment.push(PrioChannel { priority: t.priority, channel: ch });
            seen.push(t.priority);
        }
        i = i + 1;
    }
    assert(tasks@.take(tasks@.len() as int) =~= tasks@);
    Ok(assignment)
}

/// The number of dispatcher channels the configuration needs: one per
/// distinct non-idle priority level among its software tasks.
pub fn required_dispatchers(tasks: &Vec<Task>) -> (n: usize)
    ensures
        n == distinct_soft_prios(tasks@).len(),
{
    let mut seen: Vec<u8> = Vec::new();
    let mut i: usize = 0;
    while i < tasks.len()
        invariant
            i <= tasks.len(),
            seen@ == distinct_soft_prios(tasks@.take(i as int)),
        decreases tasks.len() - i,
    {
        assert(tasks@.take(i + 1).drop_last() =~= tasks@.take(i as int));
        assert(tasks@.take(i + 1).last() == tasks@[i as int]);
        let t = &tasks[i];
        let is_soft = match t.binding {
            Binding::Software => true,
            Binding::Hardware { .. } => false,
        };
        if is_soft && t.priority > IDLE_PRIORITY && !contains_prio(&seen, t.priority) {
            seen.push(t.priority);
        }
        i = i + 1;
    }
    assert(tasks@.take(tasks@.len() as int) =~= tasks@);
    seen.len()
}

/// A full configuration handed over by the front end: the task graph, the
/// dispatcher channels made available to it, and how many resources the
/// ceiling table must cover.
#[derive(Debug)]
pub struct Graph {
    pub tasks: Vec<Task>,
    pub dispatchers: Vec<u8>,
    pub n_resources: usize,
}

/// The result of a successful analysis: a ceiling per resource (unused
/// resources carry `None` and are excluded from the generated table) and
/// the dispatcher assignment.
#[derive(Debug)]
pub struct Analysis {
    pub ceilings: Vec<Option<u8>>,
    pub dispatchers: Vec<PrioChannel>,
}

/// Every requested dispatcher channel exists on the target.
pub open spec fn dispatchers_supported(g: Graph, t: Target) -> bool {
    forall|i: int| 0 <= i < g.dispatchers@.len() ==> t.supports_channel(#[trigger] g.dispatchers@[i])
}

/// Every task priority is representable by the target's hardware.
pub open spec fn priorities_supported(g: Graph, t: Target) -> bool {
    forall|i: int| 0 <= i < g.tasks@.len() ==> (#[trigger] g.tasks@[i]).priority <= t.max_priority
}

/// Every hardware task binds an interrupt line the target has.
pub open spec fn bindings_supported(g: Graph, t: Target) -> bool {
    forall|i: int|
        0 <= i < g.tasks@.len() ==> match (#[trigger] g.tasks@[i]).binding {
            Binding::Hardware { interrupt } => t.supports_interrupt(interrupt),
            Binding::Software => true,
        }
}

/// The configuration needs no more dispatcher channels than it was given.
pub open spec fn enough_dispatchers(g: Graph) -> bool {
    distinct_soft_prios(g.tasks@).len() <= g.dispatchers@.len()
}

/// A configuration the analysis accepts: supported dispatchers, priorities
/// and bindings, and enough dispatcher channels.
pub open spec fn valid_config(g: Graph, t: Target) -> bool {
    &&& dispatchers_supported(g, t)
    &&& priorities_supported(g, t)
    &&& bindings_supported(g, t)
    &&& enough_dispatchers(g)
}

/// Whether `xs` holds the interrupt identifier `irq`.
fn contains_interrupt(xs: &Vec<u16>, irq: u16) -> (b: bool)
    ensures
        b == xs@.contains(irq),
{
    let mut i: usize = 0;
    while i < xs.len()
        invariant
            i <= xs.len(),
            forall|j: int| 0 <= j < i ==> xs@[j] != irq,
        decreases xs.len() - i,
    {
        if xs[i] == irq {
            return true;
        }
        i = i + 1;
    }
    false
}

/// Validates a configuration against the target and produces the ceiling
/// table and the dispatcher assignment. Checks run in a fixed order:
/// dispatcher channels, task priorities, hardware bindings, then dispatcher
/// allocation; the first failure is reported and is fatal.
pub fn analyze(g: &Graph, t: &Target) -> (r: Result<Analysis, ConfigError>)
    ensures
        (r is Ok) <==> valid_config(*g, *t),
        match r {
            Ok(a) => {
                &&& a.ceilings@.len() == g.n_resources
                &&& forall|j: int|
                    0 <= j < g.n_resources ==> a.ceilings@[j] == spec_ceiling(g.tasks@, j as usize)
                &&& assignment_ok(g.tasks@, g.dispatchers@, a.dispatchers@)
                &&& forall|j: int|
                    0 <= j < g.n_resources ==> match #[trigger] a.ceilings@[j] {
                        Some(c) => c <= t.max_priority,
                        None => true,
                    }
            },
            Err(e) => match e {
                ConfigError::UnsupportedDispatcher { index, channel } => {
                    &&& 0 <= index < g.dispatchers@.len()
                    &&& g.dispatchers@[index as int] == channel
                    &&& !t.supports_channel(channel)
                    &&& forall|j: int| 0 <= j < index ==> t.supports_channel(#[trigger] g.dispatchers@[j])
                },
                ConfigError::UnsupportedPriority { task, priority } => {
                    &&& dispatchers_supported(*g, *t)
                    &&& 0 <= task < g.tasks@.len()
                    &&& g.tasks@[task as int].priority == priority
                    &&& priority > t.max_priority
                    &&& forall|j: int|
                        0 <= j < task ==> (#[trigger] g.tasks@[j]).priority <= t.max_priority
                },
                ConfigError::InvalidBinding { task, interrupt } => {
                    &&& dispatchers_supported(*g, *t)
                    &&& priorities_supported(*g, *t)
                    &&& 0 <= task < g.tasks@.len()
                    &&& g.tasks@[task as int].binding == (Binding::Hardware { interrupt })
                    &&& !t.supports_interrupt(interrupt)
                    &&& forall|j: int|
                        0 <= j < task ==> match (#[trigger] g.tasks@[j]).binding {
                            Binding::Hardware { interrupt: irq } => t.supports_interrupt(irq),
                            Binding::Software => true,
                        }
                },
                ConfigError::InsufficientDispatchers { task, priority } => {
                    &&& dispatchers_supported(*g, *t)
                    &&& priorities_supported(*g, *t)
                    &&& bindings_supported(*g, *t)
                    &&& 0 <= task < g.tasks@.len()
                    &&& g.tasks@[task as int].is_software()
                    &&& g.tasks@[task as int].priority == priority
                    &&& priority > 0
                    &&& distinct_soft_prios(g.tasks@.take(task as int)).len()
                        == g.dispatchers@.len()
                    &&& !distinct_soft_prios(g.tasks@.take(task as int)).contains(priority)
                },
            },
        },
{
    let mut i: usize = 0;
    while i < g.dispatchers.len()
        invariant
            i <= g.dispatchers@.len(),
            forall|j: int| 0 <= j < i ==> t.supports_channel(#[trigger] g.dispatchers@[j]),
        decreases g.dispatchers.len() - i,
    {
        let ch = g.dispatchers[i];
        if ch < 1 || ch > t.soft_channels {
            return Err(ConfigError::UnsupportedDispatcher { index: i, channel: ch });
        }
        i = i + 1;
    }
    let mut i: usize = 0;
    while i < g.tasks.len()
        invariant
            i <= g.tasks@.len(),
            dispatchers_supported(*g, *t),
            forall|j: int| 0 <= j < i ==> (#[trigger] g.tasks@[j]).priority <= t.max_priority,
        decreases g.tasks.len() - i,
    {
        if g.tasks[i].priority > t.max_priority {
            return Err(
                ConfigError::UnsupportedPriority { task: i, priority: g.tasks[i].priority },
            );
        }
        i = i + 1;
    }
    let mut i: usize = 0;
    while i < g.tasks.len()
        invariant
            i <= g.tasks@.len(),
            dispatchers_supported(*g, *t),
            priorities_supported(*g, *t),
            forall|j: int|
                0 <= j < i ==> match (#[trigger] g.tasks@[j]).binding {
                    Binding::Hardware { interrupt: irq } => t.supports_interrupt(irq),
                    Binding::Software => true,
                },
        decreases g.tasks.len() - i,
    {
        match g.tasks[i].binding {
            Binding::Hardware { interrupt } => {
                if !contains_interrupt(&t.hw_interrupts, interrupt) {
                    return Err(ConfigError::InvalidBinding { task: i, interrupt });
                }
            },
            Binding::Software => {},
        }
        i = i + 1;
    }
    let dispatchers = match allocate_dispatchers(&g.tasks, &g.dispatchers) {
        Ok(a) => a,
        Err(e) => {
            return Err(e);
        },
    };
    let mut ceilings: Vec<Option<u8>> = Vec::new();
    let mut j: usize = 0;
    while j < g.n_resources
        invariant
            j <= g.n_resources,
            ceilings@.len() == j,
            forall|k: int| 0 <= k < j ==> ceilings@[k] == spec_ceiling(g.tasks@, k as usize),
        decreases g.n_resources - j,
    {
        let c = ceiling_of(&g.tasks, j);
        ceilings.push(c);
        j = j + 1;
    }
    proof {
        assert forall|j: int| 0 <= j < g.n_resources implies match #[trigger] ceilings@[j] {
            Some(c) => c <= t.max_priority,
            None => true,
        } by {
            lemma_ceiling_within_hardware(g.tasks@, j as usize, t.max_priority);
        }
    }
    Ok(Analysis { ceilings, dispatchers })
}

/// An interrupt line to be set up before execution starts: a dispatcher
/// channel or a hardware task binding, with its priority.
#[derive(Clone, Copy, PartialEq, Eq, Structural, Debug)]
pub struct InterruptSource {
    pub interrupt: u16,
    pub priority: u8,
}

/// One step of the pre-init sequence: enable `interrupt` at `priority` on
/// the per-cpu interrupt slot `cpu_int_id`.
#[derive(Clone, Copy, PartialEq, Eq, Structural, Debug)]
pub struct EnableStep {
    pub interrupt: u16,
    pub priority: u8,
    pub cpu_int_id: u8,
}

/// Plans the interrupt setup run before execution begins: one enable step
/// per source, in order, with consecutive per-cpu slots starting at 1
/// (slot 0 is reserved). Fails with `UnsupportedPriority` at the first
/// source whose priority the hardware cannot represent.
pub fn pre_init_enable_interrupts(sources: &Vec<InterruptSource>, max_priority: u8) -> (r: Result<
    Vec<EnableStep>,
    ConfigError,
>)
    requires
        sources@.len() <= 254,
    ensures
        (r is Ok) <==> (forall|i: int|
            0 <= i < sources@.len() ==> (#[trigger] sources@[i]).priority <= max_priority),
        match r {
            Ok(steps) => {
                &&& steps@.len() == sources@.len()
                &&& forall|i: int|
                    0 <= i < steps@.len() ==> steps@[i] == (EnableStep {
                        interrupt: sources@[i].interrupt,
                        priority: sources@[i].priority,
                        cpu_int_id: (i + 1) as u8,
                    })
            },
            Err(e) => e matches ConfigError::UnsupportedPriority { task, priority } && {
                &&& 0 <= task < sources@.len()
                &&& sources@[task as int].priority == priority
                &&& priority > max_priority
                &&& forall|j: int|
                    0 <= j < task ==> (#[trigger] sources@[j]).priority <= max_priority
            },
        },
{
    let mut steps: Vec<EnableStep> = Vec::new();
    let mut i: usize = 0;
    while i < sources.len()
        invariant
            i <= sources@.len(),
            sources@.len() <= 254,
            steps@.len() == i,
            forall|j: int| 0 <= j < i ==> (#[trigger] sources@[j]).priority <= max_priority,
            forall|j: int|
                0 <= j < i ==> steps@[j] == (EnableStep {
                    interrupt: sources@[j].interrupt,
                    priority: sources@[j].priority,
                    cpu_int_id: (j + 1) as u8,
                }),
        decreases sources.len() - i,
    {
        let s = sources[i];
        if s.priority > max_priority {
            return Err(ConfigError::UnsupportedPriority { task: i, priority: s.priority });
        }
        steps.push(EnableStep { interrupt: s.interrupt, priority: s.priority, cpu_int_id: (i + 1) as u8 });
        i = i + 1;
    }
    Ok(steps)
}

/// The highest priority level async hardware-abstraction drivers may use:
/// the analysis' bound when it found one, otherwise everything the
/// hardware's priority bits can represent.
pub fn async_prio_limit(max_async_prio: Option<u8>, prio_bits: u8) -> (r: u8)
    requires
        max_async_prio is None ==> prio_bits < 8,
    ensures
        r == match max_async_prio {
            Some(m) => m,
            None => (1u8 << prio_bits),
        },
{
    match max_async_prio {
        Some(m) => m,
        None => 1u8 << prio_bits,
    }
}

} // verus!
