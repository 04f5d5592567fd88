use rtic_cva6::lock::LockGuard;
use rtic_cva6::slic::{RuntimeError, Slic};

fn fresh() -> Slic {
    // The CVA6 target: 4 priority bits (maximum 15), three software
    // channels Soft1..Soft3.
    Slic::new(15, 3)
}

#[test]
fn fresh_controller_is_idle() {
    let s = fresh();
    assert_eq!(s.get_threshold(), 0);
    assert_eq!(s.mask_depth, 0);
    assert_eq!(s.channels.len(), 3);
    for c in &s.channels {
        assert!(!c.pending);
        assert!(!c.enabled);
        assert_eq!(c.priority, 0);
    }
}

#[test]
fn threshold_read_back() {
    let mut s = fresh();
    s.set_threshold(5);
    assert_eq!(s.get_threshold(), 5);
    s.set_threshold(0);
    assert_eq!(s.get_threshold(), 0);
}

#[test]
fn pend_and_unpend_toggle_one_channel() {
    let mut s = fresh();
    assert_eq!(s.pend(2), Ok(()));
    assert!(!s.channels[0].pending);
    assert!(s.channels[1].pending);
    assert!(!s.channels[2].pending);
    assert_eq!(s.unpend(2), Ok(()));
    assert!(!s.channels[1].pending);
}

#[test]
fn unpend_is_idempotent() {
    let mut s = fresh();
    assert_eq!(s.pend(1), Ok(()));
    assert_eq!(s.unpend(1), Ok(()));
    let before = (s.get_threshold(), s.mask_depth, s.channels.clone());
    // A second unpend on the already-unpended channel: no error, no toggle.
    assert_eq!(s.unpend(1), Ok(()));
    assert_eq!(s.get_threshold(), before.0);
    assert_eq!(s.mask_depth, before.1);
    assert_eq!(s.channels, before.2);
}

#[test]
fn channel_outside_validated_set_is_refused() {
    let mut s = fresh();
    assert_eq!(s.pend(0), Err(RuntimeError::UnsupportedInterrupt { channel: 0 }));
    assert_eq!(s.pend(4), Err(RuntimeError::UnsupportedInterrupt { channel: 4 }));
    assert_eq!(s.unpend(4), Err(RuntimeError::UnsupportedInterrupt { channel: 4 }));
    assert_eq!(
        s.enable(4, 1, 1),
        Err(RuntimeError::UnsupportedInterrupt { channel: 4 })
    );
    // Nothing changed.
    assert_eq!(s.get_threshold(), 0);
    for c in &s.channels {
        assert!(!c.pending && !c.enabled);
    }
}

#[test]
fn enable_sets_up_channel() {
    let mut s = fresh();
    assert_eq!(s.enable(3, 2, 1), Ok(()));
    assert!(s.channels[2].enabled);
    assert_eq!(s.channels[2].priority, 2);
    assert_eq!(s.channels[2].context, 1);
    assert!(!s.channels[2].pending);
}

#[test]
fn async_entry_unpends_own_channel() {
    let mut s = fresh();
    assert_eq!(s.pend(2), Ok(()));
    assert_eq!(s.async_entry(2), Ok(()));
    assert!(!s.channels[1].pending);
    // The task may immediately be pended again from its own body.
    assert_eq!(s.pend(2), Ok(()));
    assert!(s.channels[1].pending);
}

#[test]
fn nested_locks_restore_exactly() {
    let mut s = fresh();
    s.set_threshold(1);
    let before = s.get_threshold();
    let g1 = s.lock_enter(2);
    assert_eq!(s.get_threshold(), 2);
    let g2 = s.lock_enter(3);
    assert_eq!(s.get_threshold(), 3);
    s.lock_exit(g2);
    // Inner release restores the outer ceiling, not zero.
    assert_eq!(s.get_threshold(), 2);
    s.lock_exit(g1);
    assert_eq!(s.get_threshold(), before);
    assert_eq!(s.mask_depth, 0);
}

#[test]
fn lock_at_ceiling_three_blocks_priority_two() {
    // A resource accessed at priorities 1 and 3 has ceiling 3. While the
    // priority-1 task holds the lock, a pended priority-2 task must wait;
    // it runs only after release.
    let mut s = fresh();
    let g = s.lock_enter(3);
    assert_eq!(s.pend(2), Ok(()));
    assert!(s.channels[1].pending);
    assert!(!s.can_start(2));
    s.lock_exit(g);
    assert!(s.channels[1].pending);
    assert!(s.can_start(2));
}

#[test]
fn lock_below_ceiling_lets_higher_priority_preempt() {
    let mut s = fresh();
    let g = s.lock_enter(3);
    assert!(s.can_start(4));
    s.lock_exit(g);
}

#[test]
fn lock_at_hardware_maximum_masks_everything() {
    let mut s = fresh();
    let g = s.lock_enter(15);
    assert_eq!(g, LockGuard::Masked);
    assert_eq!(s.mask_depth, 1);
    // Even the highest priority cannot begin while globally masked.
    assert!(!s.can_start(15));
    s.lock_exit(g);
    assert_eq!(s.mask_depth, 0);
    assert!(s.can_start(15));
}

#[test]
fn run_frame_restores_saved_threshold() {
    let mut s = fresh();
    s.set_threshold(2);
    let saved = s.run_enter();
    s.set_threshold(5);
    s.run_exit(saved);
    assert_eq!(s.get_threshold(), 2);
}

#[test]
fn run_frame_over_idle_restores_idle() {
    // A handler dispatched over the idle context (threshold 0) must hand
    // the idle threshold back exactly, whatever its own priority was.
    let mut s = fresh();
    let saved = s.run_enter();
    assert_eq!(saved, 0);
    let g = s.lock_enter(1);
    s.lock_exit(g);
    s.run_exit(saved);
    assert_eq!(s.get_threshold(), 0);
}
