//! Propagation: reverse notification order, the re-entrancy guard, and
//! skipping of disposed subscribers. The test harness plays the host layer:
//! it owns the callback closures and drives each propagation pass the
//! library computes, depth-first.

use std::cell::RefCell;
use std::rc::Rc;

use sycamore_reactive::callback::Callback;
use sycamore_reactive::handles::{ReadSignalTrait, SignalTrait, DynSignal, StaticSignal};
use sycamore_reactive::runtime::Runtime;

struct World {
    rt: RefCell<Runtime<i32>>,
    bodies: RefCell<Vec<Rc<dyn Fn(&World)>>>,
    log: RefCell<Vec<(usize, i32)>>,
}

fn world_new() -> World {
    World {
        rt: RefCell::new(Runtime::new()),
        bodies: RefCell::new(Vec::new()),
        log: RefCell::new(Vec::new()),
    }
}

/// Dispatches one propagation pass: begin each callback (disposed and
/// running ones are skipped by the runtime), run its body, finish it. A
/// body that writes dispatches its own nested pass before returning.
fn dispatch(world: &World, pass: Vec<Callback>) {
    for cb in pass {
        let p = cb.as_ptr();
        let ok = world.rt.borrow_mut().try_begin_invoke(p);
        if ok {
            let body = world.bodies.borrow()[p].clone();
            body(world);
            world.rt.borrow_mut().finish_invoke(p);
        }
    }
}

/// Writes a value and drives the resulting pass to completion.
fn write(world: &World, state: StaticSignal<i32>, value: i32) {
    let pass = {
        let mut rt = world.rt.borrow_mut();
        state.set(&mut *rt, value)
    };
    dispatch(world, pass);
}

/// Registers a computation whose body logs (own identity, current value).
fn add_observer(world: &World, state: StaticSignal<i32>) -> Callback {
    let cb = world.rt.borrow_mut().register_callback();
    let p = cb.as_ptr();
    world.bodies.borrow_mut().push(Rc::new(move |w: &World| {
        let v = {
            let rt = w.rt.borrow();
            *state.get_untracked(&rt)
        };
        w.log.borrow_mut().push((p, v));
    }));
    cb
}

/// Registers a computation that logs and then writes `value + 1` back to
/// the very cell it is subscribed to, as long as the value is below `limit`.
fn add_incrementer(world: &World, state: StaticSignal<i32>, limit: i32) -> Callback {
    let cb = world.rt.borrow_mut().register_callback();
    let p = cb.as_ptr();
    world.bodies.borrow_mut().push(Rc::new(move |w: &World| {
        let v = {
            let rt = w.rt.borrow();
            *state.get_untracked(&rt)
        };
        w.log.borrow_mut().push((p, v));
        if v < limit {
            write(w, state, v + 1);
        }
    }));
    cb
}

#[test]
fn two_subscribers_fire_in_reverse_order_every_write() {
    let world = world_new();
    let state = {
        let mut rt = world.rt.borrow_mut();
        StaticSignal::new(&mut *rt, 0)
    };
    assert_eq!(*state.get_untracked(&world.rt.borrow()), 0);

    let a = add_observer(&world, state);
    let b = add_observer(&world, state);
    {
        let mut rt = world.rt.borrow_mut();
        rt.subscribe_at(state.handle.sig, a);
        rt.subscribe_at(state.handle.sig, b);
    }

    write(&world, state, 5);
    // the second-registered subscriber fires first, both observe 5
    assert_eq!(*world.log.borrow(), vec![(b.as_ptr(), 5), (a.as_ptr(), 5)]);

    // writing the same value again still notifies: no equality short-circuit
    write(&world, state, 5);
    assert_eq!(
        *world.log.borrow(),
        vec![(b.as_ptr(), 5), (a.as_ptr(), 5), (b.as_ptr(), 5), (a.as_ptr(), 5)],
    );
}

#[test]
fn three_subscribers_fire_in_reverse_registration_order() {
    let world = world_new();
    let state = {
        let mut rt = world.rt.borrow_mut();
        StaticSignal::new(&mut *rt, 0)
    };
    let a = add_observer(&world, state);
    let b = add_observer(&world, state);
    let c = add_observer(&world, state);
    {
        let mut rt = world.rt.borrow_mut();
        rt.subscribe_at(state.handle.sig, a);
        rt.subscribe_at(state.handle.sig, b);
        rt.subscribe_at(state.handle.sig, c);
    }

    write(&world, state, 3);
    assert_eq!(
        *world.log.borrow(),
        vec![(c.as_ptr(), 3), (b.as_ptr(), 3), (a.as_ptr(), 3)],
    );
}

#[test]
fn self_triggering_callback_is_not_reentered() {
    let world = world_new();
    let state = {
        let mut rt = world.rt.borrow_mut();
        StaticSignal::new(&mut *rt, 0)
    };
    let c = add_incrementer(&world, state, 10);
    {
        let mut rt = world.rt.borrow_mut();
        rt.subscribe_at(state.handle.sig, c);
    }

    write(&world, state, 1);

    // the body ran once, wrote 2, and its own nested notification was
    // dropped by the re-entrancy guard rather than queued
    assert_eq!(*world.log.borrow(), vec![(c.as_ptr(), 1)]);
    assert_eq!(*state.get_untracked(&world.rt.borrow()), 2);
}

#[test]
fn disposed_subscriber_is_skipped_silently() {
    let world = world_new();
    let state = {
        let mut rt = world.rt.borrow_mut();
        StaticSignal::new(&mut *rt, 0)
    };
    let a = add_observer(&world, state);
    {
        let mut rt = world.rt.borrow_mut();
        rt.subscribe_at(state.handle.sig, a);
    }

    write(&world, state, 1);
    assert_eq!(*world.log.borrow(), vec![(a.as_ptr(), 1)]);

    world.rt.borrow_mut().dispose_callback(a.as_ptr());

    // the pass still names the disposed subscriber; dispatch skips it
    write(&world, state, 2);
    assert_eq!(*world.log.borrow(), vec![(a.as_ptr(), 1)]);
    assert_eq!(*state.get_untracked(&world.rt.borrow()), 2);
}

#[test]
fn a_fresh_cell_has_an_empty_pass() {
    let mut rt: Runtime<i32> = Runtime::new();
    let state = StaticSignal::new(&mut rt, 0);
    let pass = state.set(&mut rt, 1);
    assert_eq!(pass.len(), 0);
}

#[test]
fn dyn_signals_share_the_write_protocol() {
    let mut rt: Runtime<i32> = Runtime::new();
    let state = DynSignal::new(&mut rt, 0);
    let also = state.clone();
    assert_eq!(*also.get(&mut rt), 0);

    let cb = rt.register_callback();
    rt.subscribe_at(state.handle.sig, cb);
    let pass = state.set(&mut rt, 8);
    assert_eq!(pass.len(), 1);
    assert_eq!(pass[0].as_ptr(), cb.as_ptr());
    assert_eq!(*also.get_untracked(&rt), 8);

    let read = state.handle();
    assert_eq!(*read.get(&mut rt), 8);
}

#[test]
fn trigger_subscribers_notifies_without_a_value_change() {
    let world = world_new();
    let state = {
        let mut rt = world.rt.borrow_mut();
        StaticSignal::new(&mut *rt, 4)
    };
    let a = add_observer(&world, state);
    {
        let mut rt = world.rt.borrow_mut();
        rt.subscribe_at(state.handle.sig, a);
    }

    let pass = {
        let rt = world.rt.borrow();
        state.trigger_subscribers(&rt)
    };
    dispatch(&world, pass);

    assert_eq!(*world.log.borrow(), vec![(a.as_ptr(), 4)]);
    assert_eq!(*state.get_untracked(&world.rt.borrow()), 4);
}
