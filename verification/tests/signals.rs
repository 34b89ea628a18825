//! Basic signal behavior: construction, reads, writes, handles.

use sycamore_reactive::handles::{ReadSignalTrait, SignalTrait, StaticSignal};
use sycamore_reactive::runtime::Runtime;

#[test]
fn signals() {
    let mut rt: Runtime<i32> = Runtime::new();
    let state = StaticSignal::new(&mut rt, 0);
    assert_eq!(*state.get(&mut rt), 0);

    let _ = state.set(&mut rt, 1);
    assert_eq!(*state.get(&mut rt), 1);
}

#[test]
fn signal_composition() {
    let mut rt: Runtime<i32> = Runtime::new();
    let state = StaticSignal::new(&mut rt, 0);

    let double = |rt: &mut Runtime<i32>| *state.get(rt) * 2;

    assert_eq!(double(&mut rt), 0);

    let _ = state.set(&mut rt, 1);
    assert_eq!(double(&mut rt), 2);
}

#[test]
fn state_handle() {
    let mut rt: Runtime<i32> = Runtime::new();
    let state = StaticSignal::new(&mut rt, 0);
    let readonly = state.handle();

    assert_eq!(*readonly.get(&mut rt), 0);

    let _ = state.set(&mut rt, 1);
    assert_eq!(*readonly.get(&mut rt), 1);
}

#[test]
fn last_write_wins_after_a_sequence_of_sets() {
    let mut rt: Runtime<i32> = Runtime::new();
    let state = StaticSignal::new(&mut rt, 0);

    let _ = state.set(&mut rt, 1);
    let _ = state.set(&mut rt, 2);
    let _ = state.set(&mut rt, 3);

    assert_eq!(*state.get_untracked(&rt), 3);
}

#[test]
fn snapshots_are_stable_across_later_writes() {
    let mut rt: Runtime<i32> = Runtime::new();
    let state = StaticSignal::new(&mut rt, 7);

    let snapshot = state.get_untracked(&rt);
    let _ = state.set(&mut rt, 9);

    // the old snapshot is shared and immutable; the write installed a new one
    assert_eq!(*snapshot, 7);
    assert_eq!(*state.get_untracked(&rt), 9);
}

#[test]
fn untracked_read_sees_update_before_any_notification() {
    let mut rt: Runtime<i32> = Runtime::new();
    let state = StaticSignal::new(&mut rt, 0);

    rt.update_at(state.handle.sig, 42);
    assert_eq!(*state.get_untracked(&rt), 42);
}
