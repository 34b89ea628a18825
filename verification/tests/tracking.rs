//! Dependency tracking: edges discovered at read time, deduplicated per
//! run, and only while a computation is active.

use sycamore_reactive::handles::{DynSignal, ReadSignalTrait, SignalTrait, StaticSignal};
use sycamore_reactive::runtime::{AnySignalInner, Runtime};
use sycamore_reactive::signal::AnySigRef;

#[test]
fn tracked_reads_register_one_edge_per_distinct_cell() {
    let mut rt: Runtime<i32> = Runtime::new();
    let x = StaticSignal::new(&mut rt, 1);
    let y = StaticSignal::new(&mut rt, 2);

    let cb = rt.register_callback();
    rt.push_context(cb.as_ptr());

    // x is read three times, y once: still one edge each
    let _ = x.get(&mut rt);
    let _ = x.get(&mut rt);
    let _ = y.get(&mut rt);
    let _ = x.get(&mut rt);

    let ctx = rt.pop_context().expect("a context was active");
    assert_eq!(ctx.callback, cb.as_ptr());
    assert_eq!(ctx.dependencies.len(), 2);
    assert_eq!(ctx.dependencies[0].as_ptr(), x.handle.sig);
    assert_eq!(ctx.dependencies[1].as_ptr(), y.handle.sig);
}

#[test]
fn untracked_contexts_collect_no_edges() {
    let mut rt: Runtime<i32> = Runtime::new();
    let x = StaticSignal::new(&mut rt, 1);

    // no active computation: this read registers nowhere and does not fail
    assert_eq!(*x.get(&mut rt), 1);

    // an explicitly untracked read registers nothing even while tracking
    let cb = rt.register_callback();
    rt.push_context(cb.as_ptr());
    let _ = x.get_untracked(&rt);
    let ctx = rt.pop_context().expect("a context was active");
    assert_eq!(ctx.dependencies.len(), 0);
}

#[test]
fn only_the_top_context_tracks() {
    let mut rt: Runtime<i32> = Runtime::new();
    let x = StaticSignal::new(&mut rt, 1);
    let outer = rt.register_callback();
    let inner = rt.register_callback();

    rt.push_context(outer.as_ptr());
    rt.push_context(inner.as_ptr());
    let _ = x.get(&mut rt);

    let inner_ctx = rt.pop_context().expect("inner context");
    let outer_ctx = rt.pop_context().expect("outer context");
    assert_eq!(inner_ctx.dependencies.len(), 1);
    assert_eq!(outer_ctx.dependencies.len(), 0);
}

#[test]
fn dependency_edges_keep_the_handle_flavor() {
    let mut rt: Runtime<i32> = Runtime::new();
    let stat = StaticSignal::new(&mut rt, 1);
    let dynamic = DynSignal::new(&mut rt, 2);

    let cb = rt.register_callback();
    rt.push_context(cb.as_ptr());
    let _ = stat.get(&mut rt);
    let _ = dynamic.get(&mut rt);
    let ctx = rt.pop_context().expect("a context was active");

    assert_eq!(ctx.dependencies[0], AnySigRef::Static(stat.handle.sig));
    assert_eq!(ctx.dependencies[1], AnySigRef::Dynamic(dynamic.handle.sig));
}

#[test]
fn type_erased_subscription_protocol() {
    let mut rt: Runtime<i32> = Runtime::new();
    let state = StaticSignal::new(&mut rt, 0);
    let cb = rt.register_callback();
    let edge = state.handle().as_anysigref();

    // the effect layer holds only the erased reference and the callback
    AnySignalInner::subscribe(&mut rt, edge.as_ptr(), cb);
    let pass = state.trigger_subscribers(&rt);
    assert_eq!(pass.len(), 1);

    AnySignalInner::unsubscribe(&mut rt, edge.as_ptr(), cb.as_ptr());
    let pass = state.trigger_subscribers(&rt);
    assert_eq!(pass.len(), 0);
}

#[test]
fn tracking_stack_is_empty_at_teardown() {
    let mut rt: Runtime<i32> = Runtime::new();
    assert_eq!(rt.active_depth(), 0);
    assert!(rt.pop_context().is_none());

    let cb = rt.register_callback();
    rt.push_context(cb.as_ptr());
    assert_eq!(rt.active_depth(), 1);
    let _ = rt.pop_context();
    assert_eq!(rt.active_depth(), 0);
}

#[test]
fn unsubscribing_an_unknown_identity_changes_nothing() {
    let mut rt: Runtime<i32> = Runtime::new();
    let state = StaticSignal::new(&mut rt, 0);
    let cb = rt.register_callback();
    rt.subscribe_at(state.handle.sig, cb);

    // an identity that was never subscribed: a no-op, no panic
    rt.unsubscribe_at(state.handle.sig, 4096);

    let pass = state.trigger_subscribers(&rt);
    assert_eq!(pass.len(), 1);
    assert_eq!(pass[0].as_ptr(), cb.as_ptr());
}

#[test]
fn subscribing_twice_is_a_single_subscription() {
    let mut rt: Runtime<i32> = Runtime::new();
    let state = StaticSignal::new(&mut rt, 0);
    let cb = rt.register_callback();
    rt.subscribe_at(state.handle.sig, cb);
    rt.subscribe_at(state.handle.sig, cb);

    let pass = state.trigger_subscribers(&rt);
    assert_eq!(pass.len(), 1);
}

#[test]
fn unsubscribe_keeps_the_remaining_order() {
    let mut rt: Runtime<i32> = Runtime::new();
    let state = StaticSignal::new(&mut rt, 0);
    let a = rt.register_callback();
    let b = rt.register_callback();
    let c = rt.register_callback();
    rt.subscribe_at(state.handle.sig, a);
    rt.subscribe_at(state.handle.sig, b);
    rt.subscribe_at(state.handle.sig, c);

    // removing the first subscriber leaves [b, c] in registration order,
    // so the pass still fires strictly later-registered first
    rt.unsubscribe_at(state.handle.sig, a.as_ptr());
    let pass = state.trigger_subscribers(&rt);
    assert_eq!(pass.len(), 2);
    assert_eq!(pass[0].as_ptr(), c.as_ptr());
    assert_eq!(pass[1].as_ptr(), b.as_ptr());

    // the same holds after removing a middle subscriber
    rt.unsubscribe_at(state.handle.sig, b.as_ptr());
    let pass = state.trigger_subscribers(&rt);
    assert_eq!(pass.len(), 1);
    assert_eq!(pass[0].as_ptr(), c.as_ptr());
}

#[test]
fn unsubscribe_removes_the_subscription() {
    let mut rt: Runtime<i32> = Runtime::new();
    let state = StaticSignal::new(&mut rt, 0);
    let a = rt.register_callback();
    let b = rt.register_callback();
    rt.subscribe_at(state.handle.sig, a);
    rt.subscribe_at(state.handle.sig, b);

    rt.unsubscribe_at(state.handle.sig, a.as_ptr());

    let pass = state.trigger_subscribers(&rt);
    assert_eq!(pass.len(), 1);
    assert_eq!(pass[0].as_ptr(), b.as_ptr());
}
