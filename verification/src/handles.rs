//! Read and write handles over signal cells.
//!
//! A read handle is a capability to fetch the current snapshot and to
//! register as a dependency; it never mutates. A write handle additionally
//! exposes `set` (replace snapshot, then propagate) and
//! `trigger_subscribers` (propagate without replacing). Each comes in two
//! ownership flavors sharing one protocol: "permanently-alive" handles to
//! cells meant to outlive every observer, and "shared" handles to
//! explicitly-owned cells whose reclamation belongs to the owning layer.

use vstd::prelude::*;
use std::rc::Rc;
use core::marker::PhantomData;
use crate::callback::{Callback, CallbackState};
use crate::signal::AnySigRef;
use crate::runtime::{is_reverse_schedule, Runtime};
use crate::tracker::after_read;

verus! {

/// A readonly handle to a permanently-alive signal cell.
pub struct StaticReadSignal<T> {
    /// The identity of the cell.
    pub sig: usize,
    /// The handle is typed by the cell's value type.
    pub _marker: PhantomData<T>,
}

impl<T> Clone for StaticReadSignal<T> {
    /// Another handle to the same cell.
    fn clone(&self) -> (r: Self)
        ensures
            r.sig == self.sig,
    {
        StaticReadSignal { sig: self.sig, _marker: PhantomData }
    }
}

impl<T> Copy for StaticReadSignal<T> {

}

/// A readonly handle to a shared, explicitly-owned signal cell.
pub struct DynReadSignal<T> {
    /// The identity of the cell.
    pub sig: usize,
    /// The handle is typed by the cell's value type.
    pub _marker: PhantomData<T>,
}

impl<T> Clone for DynReadSignal<T> {
    /// Another handle to the same cell.
    fn clone(&self) -> (r: Self)
        ensures
            r.sig == self.sig,
    {
        DynReadSignal { sig: self.sig, _marker: PhantomData }
    }
}

/// The read protocol shared by both ownership flavors: fetch the current
/// snapshot, tracked or untracked.
pub trait ReadSignalTrait<T>: Sized {
    /// The type-erased reference this handle produces: which cell, and
    /// which ownership flavor.
    spec fn sigref_spec(&self) -> AnySigRef;

    /// The type-erased reference to the cell, keeping the flavor.
    fn as_anysigref(&self) -> (r: AnySigRef)
        ensures
            r == self.sigref_spec(),
    ;

    /// Fetches the current snapshot. If a reactive computation is active,
    /// first registers this cell as a dependency of it — exactly once per
    /// distinct cell, however often it is read. If none is active, tracking
    /// is skipped entirely: a deliberate conditional, not a failure path,
    /// since teardown code legitimately reads without re-subscribing.
    ///
    /// The precondition states the disposal-ordering invariant: a
    /// computation is never disposed while it is actively running.
    fn get(&self, rt: &mut Runtime<T>) -> (r: Rc<T>)
        requires
            old(rt).wf(),
            self.sigref_spec().ptr_spec() < old(rt).n_cells(),
            old(rt).tracker.is_tracking() ==> old(rt).registry.state_of(
                old(rt).tracker.model().last().callback as int,
            ) != CallbackState::Disposed,
        ensures
            final(rt).wf(),
            final(rt).cells == old(rt).cells,
            final(rt).registry == old(rt).registry,
            final(rt).tracker.model() == after_read(old(rt).tracker.model(), self.sigref_spec()),
            *r == old(rt).value_at(self.sigref_spec().ptr_spec() as int),
    ;

    /// Fetches the current snapshot without ever registering a dependency,
    /// whether or not a computation is active. The snapshot is immutable
    /// and shared: a later write installs a new snapshot and never touches
    /// this one.
    fn get_untracked(&self, rt: &Runtime<T>) -> (r: Rc<T>)
        requires
            self.sigref_spec().ptr_spec() < rt.n_cells(),
        ensures
            *r == rt.value_at(self.sigref_spec().ptr_spec() as int),
    ;
}

impl<T> ReadSignalTrait<T> for StaticReadSignal<T> {
    open spec fn sigref_spec(&self) -> AnySigRef {
        AnySigRef::Static(self.sig)
    }

    fn as_anysigref(&self) -> (r: AnySigRef) {
        AnySigRef::Static(self.sig)
    }

    fn get(&self, rt: &mut Runtime<T>) -> (r: Rc<T>) {
        rt.get_at(AnySigRef::Static(self.sig))
    }

    fn get_untracked(&self, rt: &Runtime<T>) -> (r: Rc<T>) {
        rt.get_untracked_at(self.sig)
    }
}

impl<T> ReadSignalTrait<T> for DynReadSignal<T> {
    open spec fn sigref_spec(&self) -> AnySigRef {
        AnySigRef::Dynamic(self.sig)
    }

    fn as_anysigref(&self) -> (r: AnySigRef) {
        AnySigRef::Dynamic(self.sig)
    }

    fn get(&self, rt: &mut Runtime<T>) -> (r: Rc<T>) {
        rt.get_at(AnySigRef::Dynamic(self.sig))
    }

    fn get_untracked(&self, rt: &Runtime<T>) -> (r: Rc<T>) {
        rt.get_untracked_at(self.sig)
    }
}

/// Permanently-alive state that can be set: the cell is meant to outlive
/// all of its observers and is never reclaimed.
pub struct StaticSignal<T> {
    /// The read handle this write handle extends.
    pub handle: StaticReadSignal<T>,
}

impl<T> Clone for StaticSignal<T> {
    /// Another write handle to the same cell.
    fn clone(&self) -> (r: Self)
        ensures
            r.handle.sig == self.handle.sig,
    {
        StaticSignal { handle: StaticReadSignal { sig: self.handle.sig, _marker: PhantomData } }
    }
}

impl<T> Copy for StaticSignal<T> {

}

/// Shared, explicitly-owned state that can be set: the cell lives as long
/// as its owning layer keeps it.
pub struct DynSignal<T> {
    /// The read handle this write handle extends.
    pub handle: DynReadSignal<T>,
}

impl<T> Clone for DynSignal<T> {
    /// Another write handle to the same cell.
    fn clone(&self) -> (r: Self)
        ensures
            r.handle.sig == self.handle.sig,
    {
        DynSignal { handle: DynReadSignal { sig: self.handle.sig, _marker: PhantomData } }
    }
}

/// The write protocol shared by both ownership flavors.
pub trait SignalTrait<T>: Sized {
    /// The read-handle flavor this write handle yields.
    type ReadSignalType: ReadSignalTrait<T>;

    /// The type-erased reference to the underlying cell.
    spec fn sigref_spec(&self) -> AnySigRef;

    /// Creates a new signal with the given value: a fresh cell, no
    /// subscribers, everything else in the runtime untouched.
    fn new(rt: &mut Runtime<T>, initial: T) -> (s: Self)
        requires
            old(rt).wf(),
        ensures
            final(rt).wf(),
            s.sigref_spec().ptr_spec() == old(rt).n_cells(),
            final(rt).n_cells() == old(rt).n_cells() + 1,
            final(rt).value_at(s.sigref_spec().ptr_spec() as int) == initial,
            final(rt).subs_at(s.sigref_spec().ptr_spec() as int) == Seq::<usize>::empty(),
            forall|j: int|
                0 <= j < old(rt).n_cells() ==> final(rt).cells@[j] == old(rt).cells@[j],
            final(rt).registry == old(rt).registry,
            final(rt).tracker == old(rt).tracker,
    ;

    /// The read handle associated with this signal.
    fn handle(&self) -> (h: Self::ReadSignalType)
        ensures
            h.sigref_spec().ptr_spec() == self.sigref_spec().ptr_spec(),
    ;

    /// Consumes this signal and returns its underlying read handle.
    fn into_handle(self) -> (h: Self::ReadSignalType)
        ensures
            h.sigref_spec().ptr_spec() == self.sigref_spec().ptr_spec(),
    ;

    /// Sets the current value of the state: replaces the snapshot, then
    /// returns the propagation pass over the subscribers as they stood at
    /// the write — update then trigger, with no value-equality
    /// short-circuit. The host layer dispatches the pass.
    fn set(&self, rt: &mut Runtime<T>, new_value: T) -> (r: Vec<Callback>)
        requires
            old(rt).wf(),
            self.sigref_spec().ptr_spec() < old(rt).n_cells(),
        ensures
            final(rt).wf(),
            final(rt).values_model() == old(rt).values_model().update(
                self.sigref_spec().ptr_spec() as int,
                new_value,
            ),
            final(rt).n_cells() == old(rt).n_cells(),
            final(rt).value_at(self.sigref_spec().ptr_spec() as int) == new_value,
            forall|j: int|
                0 <= j < old(rt).n_cells() ==> final(rt).subs_at(j) == old(rt).subs_at(j),
            final(rt).registry == old(rt).registry,
            final(rt).tracker == old(rt).tracker,
            is_reverse_schedule(r@, old(rt).subs_at(self.sigref_spec().ptr_spec() as int)),
    ;

    /// Calls all the subscribers without modifying the state: returns the
    /// propagation pass alone. Useful with inner mutability, where the
    /// value changed without going through the handle.
    fn trigger_subscribers(&self, rt: &Runtime<T>) -> (r: Vec<Callback>)
        requires
            rt.wf(),
            self.sigref_spec().ptr_spec() < rt.n_cells(),
        ensures
            is_reverse_schedule(r@, rt.subs_at(self.sigref_spec().ptr_spec() as int)),
    ;
}

impl<T> SignalTrait<T> for StaticSignal<T> {
    type ReadSignalType = StaticReadSignal<T>;

    open spec fn sigref_spec(&self) -> AnySigRef {
        AnySigRef::Static(self.handle.sig)
    }

    fn new(rt: &mut Runtime<T>, initial: T) -> (s: Self) {
        let id = rt.create_cell(initial);
        StaticSignal { handle: StaticReadSignal { sig: id, _marker: PhantomData } }
    }

    fn handle(&self) -> (h: StaticReadSignal<T>) {
        self.handle
    }

    fn into_handle(self) -> (h: StaticReadSignal<T>) {
        self.handle
    }

    fn set(&self, rt: &mut Runtime<T>, new_value: T) -> (r: Vec<Callback>) {
        rt.set_at(self.handle.sig, new_value)
    }

    fn trigger_subscribers(&self, rt: &Runtime<T>) -> (r: Vec<Callback>) {
        rt.trigger_subscribers_at(self.handle.sig)
    }
}

impl<T> SignalTrait<T> for DynSignal<T> {
    type ReadSignalType = DynReadSignal<T>;

    open spec fn sigref_spec(&self) -> AnySigRef {
        AnySigRef::Dynamic(self.handle.sig)
    }

    fn new(rt: &mut Runtime<T>, initial: T) -> (s: Self) {
        let id = rt.create_cell(initial);
        DynSignal { handle: DynReadSignal { sig: id, _marker: PhantomData } }
    }

    fn handle(&self) -> (h: DynReadSignal<T>) {
        self.handle.clone()
    }

    fn into_handle(self) -> (h: DynReadSignal<T>) {
        self.handle
    }

    fn set(&self, rt: &mut Runtime<T>, new_value: T) -> (r: Vec<Callback>) {
        rt.set_at(self.handle.sig, new_value)
    }

    fn trigger_subscribers(&self, rt: &Runtime<T>) -> (r: Vec<Callback>) {
        rt.trigger_subscribers_at(self.handle.sig)
    }
}

impl<T> StaticSignal<T> {
    /// Fetches the current snapshot through the read handle, tracked.
    pub fn get(&self, rt: &mut Runtime<T>) -> (r: Rc<T>)
        requires
            old(rt).wf(),
            self.handle.sig < old(rt).n_cells(),
            old(rt).tracker.is_tracking() ==> old(rt).registry.state_of(
                old(rt).tracker.model().last().callback as int,
            ) != CallbackState::Disposed,
        ensures
            final(rt).wf(),
            final(rt).cells == old(rt).cells,
            final(rt).registry == old(rt).registry,
            final(rt).tracker.model() == after_read(
                old(rt).tracker.model(),
                AnySigRef::Static(self.handle.sig),
            ),
            *r == old(rt).value_at(self.handle.sig as int),
    {
        self.handle.get(rt)
    }

    /// Fetches the current snapshot through the read handle, untracked.
    pub fn get_untracked(&self, rt: &Runtime<T>) -> (r: Rc<T>)
        requires
            self.handle.sig < rt.n_cells(),
        ensures
            *r == rt.value_at(self.handle.sig as int),
    {
        self.handle.get_untracked(rt)
    }
}

impl<T> DynSignal<T> {
    /// Fetches the current snapshot through the read handle, tracked.
    pub fn get(&self, rt: &mut Runtime<T>) -> (r: Rc<T>)
        requires
            old(rt).wf(),
            self.handle.sig < old(rt).n_cells(),
            old(rt).tracker.is_tracking() ==> old(rt).registry.state_of(
                old(rt).tracker.model().last().callback as int,
            ) != CallbackState::Disposed,
        ensures
            final(rt).wf(),
            final(rt).cells == old(rt).cells,
            final(rt).registry == old(rt).registry,
            final(rt).tracker.model() == after_read(
                old(rt).tracker.model(),
                AnySigRef::Dynamic(self.handle.sig),
            ),
            *r == old(rt).value_at(self.handle.sig as int),
    {
        self.handle.get(rt)
    }

    /// Fetches the current snapshot through the read handle, untracked.
    pub fn get_untracked(&self, rt: &Runtime<T>) -> (r: Rc<T>)
        requires
            self.handle.sig < rt.n_cells(),
        ensures
            *r == rt.value_at(self.handle.sig as int),
    {
        self.handle.get_untracked(rt)
    }
}

} // verus!
