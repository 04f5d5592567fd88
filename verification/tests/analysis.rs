use rtic_cva6::analysis::{
    allocate_dispatchers, analyze, async_prio_limit, ceiling_of, pre_init_enable_interrupts,
    required_dispatchers, Analysis, ConfigError, EnableStep, Graph, InterruptSource, PrioChannel,
};
use rtic_cva6::config::{Binding, Target, Task};

fn soft(priority: u8, resources: Vec<usize>) -> Task {
    Task { priority, binding: Binding::Software, resources }
}

fn hard(priority: u8, interrupt: u16, resources: Vec<usize>) -> Task {
    Task { priority, binding: Binding::Hardware { interrupt }, resources }
}

fn cva6_target() -> Target {
    Target { max_priority: 15, soft_channels: 3, hw_interrupts: vec![7, 9, 11] }
}

#[test]
fn ceiling_is_max_of_accessors() {
    let tasks = vec![soft(1, vec![0]), soft(3, vec![0]), soft(2, vec![1])];
    assert_eq!(ceiling_of(&tasks, 0), Some(3));
    assert_eq!(ceiling_of(&tasks, 1), Some(2));
}

#[test]
fn unused_resource_has_no_ceiling() {
    let tasks = vec![soft(1, vec![0]), soft(3, vec![0])];
    assert_eq!(ceiling_of(&tasks, 1), None);
    assert_eq!(ceiling_of(&Vec::new(), 0), None);
}

#[test]
fn three_tasks_two_priority_levels_two_channels() {
    // Software tasks at priorities 1, 2, 2 sharing nothing, two dispatcher
    // channels: analysis succeeds with {1 -> Soft1, 2 -> Soft2}.
    let g = Graph {
        tasks: vec![soft(1, vec![]), soft(2, vec![]), soft(2, vec![])],
        dispatchers: vec![1, 2],
        n_resources: 0,
    };
    let a: Analysis = analyze(&g, &cva6_target()).unwrap();
    assert_eq!(
        a.dispatchers,
        vec![
            PrioChannel { priority: 1, channel: 1 },
            PrioChannel { priority: 2, channel: 2 },
        ]
    );
    assert!(a.ceilings.is_empty());
}

#[test]
fn allocation_succeeds_iff_enough_channels() {
    let tasks = vec![soft(1, vec![]), soft(2, vec![]), soft(2, vec![])];
    assert!(allocate_dispatchers(&tasks, &vec![1, 2]).is_ok());
    assert!(allocate_dispatchers(&tasks, &vec![1, 2, 3]).is_ok());
    let short = allocate_dispatchers(&tasks, &vec![1]);
    // The second task brings the first priority level found short a channel.
    assert_eq!(
        short,
        Err(ConfigError::InsufficientDispatchers { task: 1, priority: 2 })
    );
}

#[test]
fn required_channels_count_distinct_levels() {
    let tasks = vec![soft(1, vec![]), soft(2, vec![]), soft(2, vec![]), hard(3, 7, vec![])];
    assert_eq!(required_dispatchers(&tasks), 2);
    assert_eq!(required_dispatchers(&Vec::new()), 0);
}

#[test]
fn idle_priority_tasks_need_no_dispatcher() {
    let tasks = vec![soft(0, vec![]), soft(0, vec![])];
    let a = allocate_dispatchers(&tasks, &Vec::new()).unwrap();
    assert!(a.is_empty());
}

#[test]
fn hardware_tasks_need_no_dispatcher() {
    let tasks = vec![hard(3, 7, vec![]), hard(4, 9, vec![])];
    let a = allocate_dispatchers(&tasks, &Vec::new()).unwrap();
    assert!(a.is_empty());
}

#[test]
fn priority_above_hardware_maximum_is_rejected() {
    // Priority 16 on a target whose hardware maximum is 15.
    let g = Graph {
        tasks: vec![soft(1, vec![]), soft(16, vec![])],
        dispatchers: vec![1, 2],
        n_resources: 0,
    };
    assert_eq!(
        analyze(&g, &cva6_target()).unwrap_err(),
        ConfigError::UnsupportedPriority { task: 1, priority: 16 }
    );
}

#[test]
fn unknown_dispatcher_channel_is_rejected() {
    let g = Graph {
        tasks: vec![soft(1, vec![])],
        dispatchers: vec![1, 4],
        n_resources: 0,
    };
    assert_eq!(
        analyze(&g, &cva6_target()).unwrap_err(),
        ConfigError::UnsupportedDispatcher { index: 1, channel: 4 }
    );
}

#[test]
fn unknown_hardware_interrupt_is_rejected() {
    let g = Graph {
        tasks: vec![hard(2, 99, vec![])],
        dispatchers: vec![],
        n_resources: 0,
    };
    assert_eq!(
        analyze(&g, &cva6_target()).unwrap_err(),
        ConfigError::InvalidBinding { task: 0, interrupt: 99 }
    );
}

#[test]
fn analyze_produces_ceiling_table() {
    let g = Graph {
        tasks: vec![soft(1, vec![0]), hard(3, 7, vec![0]), soft(2, vec![2])],
        dispatchers: vec![1, 3],
        n_resources: 3,
    };
    let a = analyze(&g, &cva6_target()).unwrap();
    assert_eq!(a.ceilings, vec![Some(3), None, Some(2)]);
    assert_eq!(
        a.dispatchers,
        vec![
            PrioChannel { priority: 1, channel: 1 },
            PrioChannel { priority: 2, channel: 3 },
        ]
    );
}

#[test]
fn enable_sequence_assigns_consecutive_cpu_slots() {
    let sources = vec![
        InterruptSource { interrupt: 7, priority: 3 },
        InterruptSource { interrupt: 9, priority: 1 },
    ];
    let steps = pre_init_enable_interrupts(&sources, 15).unwrap();
    assert_eq!(
        steps,
        vec![
            EnableStep { interrupt: 7, priority: 3, cpu_int_id: 1 },
            EnableStep { interrupt: 9, priority: 1, cpu_int_id: 2 },
        ]
    );
}

#[test]
fn enable_sequence_rejects_unrepresentable_priority() {
    let sources = vec![
        InterruptSource { interrupt: 7, priority: 3 },
        InterruptSource { interrupt: 9, priority: 16 },
    ];
    assert_eq!(
        pre_init_enable_interrupts(&sources, 15),
        Err(ConfigError::UnsupportedPriority { task: 1, priority: 16 })
    );
}

#[test]
fn async_limit_uses_analysis_bound_or_priority_bits() {
    assert_eq!(async_prio_limit(Some(3), 4), 3);
    assert_eq!(async_prio_limit(None, 4), 16);
    assert_eq!(async_prio_limit(None, 0), 1);
}
