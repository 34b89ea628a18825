//! The runtime: one explicit value holding the whole reactive graph — the
//! signal cells, the callback registry and the dependency tracker — and the
//! propagation engine over it.
//!
//! Propagation is split in two. [`Runtime::trigger_subscribers_at`] computes
//! the pass: a snapshot of the cell's subscribers, in reverse insertion
//! order, taken before anything runs, so callbacks that subscribe or
//! unsubscribe mid-pass cannot corrupt it. The host layer, which owns the
//! computations' closures, then walks the pass: for each entry it calls
//! [`Runtime::try_begin_invoke`] (which refuses disposed callbacks — the
//! weak reference is gone — and running ones — the re-entrancy guard),
//! runs the closure on success, and ends with [`Runtime::finish_invoke`].
//! A nested write inside a closure yields a nested pass, driven to
//! completion depth-first before the outer pass resumes.

use vstd::prelude::*;
use std::rc::Rc;
use crate::callback::{Callback, CallbackPtr, CallbackRegistry, CallbackState};
use crate::signal::{AnySigRef, SignalInner, rc_clone};
use crate::submap::map_values;
use crate::tracker::{after_read, Context, DependencyTracker};

verus! {

/// The position of identity `x` in a subscriber sequence (meaningful when
/// it occurs exactly once, as a well-formed cell guarantees).
pub open spec fn sub_index(s: Seq<usize>, x: usize) -> int {
    choose|i: int| 0 <= i < s.len() && s[i] == x
}

/// `r` is the propagation pass for subscribers `subs`: the same callbacks,
/// in reverse insertion order.
pub open spec fn is_reverse_schedule(r: Seq<Callback>, subs: Seq<usize>) -> bool {
    &&& r.len() == subs.len()
    &&& forall|k: int| 0 <= k < r.len() ==> (#[trigger] r[k]).ptr == subs[subs.len() - 1 - k]
}

/// The whole reactive graph, as one explicit value.
pub struct Runtime<T> {
    /// The signal cells, identified by their position.
    pub cells: Vec<SignalInner<T>>,
    /// The lifecycle state of every registered callback.
    pub registry: CallbackRegistry,
    /// The stack of currently running computations.
    pub tracker: DependencyTracker,
}

impl<T> Runtime<T> {
    /// How many cells exist.
    pub open spec fn n_cells(self) -> int {
        self.cells@.len() as int
    }

    /// The current value of cell `i`.
    pub open spec fn value_at(self, i: int) -> T {
        self.cells@[i].value()
    }

    /// The current values of all cells, by identity.
    pub open spec fn values_model(self) -> Seq<T> {
        self.cells@.map_values(|c: SignalInner<T>| c.value())
    }

    /// The subscribers of cell `i`, in subscription order.
    pub open spec fn subs_at(self, i: int) -> Seq<usize> {
        self.cells@[i].subs()
    }

    /// Every cell's subscriber list is well-formed.
    pub open spec fn cells_ok(self) -> bool {
        forall|i: int| 0 <= i < self.cells@.len() ==> (#[trigger] self.cells@[i]).wf()
    }

    /// The graph is well-formed: cells and tracker both are.
    pub open spec fn wf(self) -> bool {
        &&& self.cells_ok()
        &&& self.tracker.wf()
    }

    /// A fresh runtime: no cells, no callbacks, empty tracking stack.
    pub fn new() -> (r: Runtime<T>)
        ensures
            r.wf(),
            r.n_cells() == 0,
            r.registry.states_model() == Seq::<CallbackState>::empty(),
            r.tracker.model() == Seq::<crate::tracker::ContextModel>::empty(),
    {
        Runtime {
            cells: Vec::new(),
            registry: CallbackRegistry::new(),
            tracker: DependencyTracker::new(),
        }
    }

    /// Creates a cell whose first snapshot is `value`, with an empty
    /// subscriber set, and returns its identity. Nothing else changes.
    pub fn create_cell(&mut self, value: T) -> (id: usize)
        requires
            old(self).wf(),
        ensures
            final(self).wf(),
            id == old(self).n_cells(),
            final(self).n_cells() == old(self).n_cells() + 1,
            final(self).value_at(id as int) == value,
            final(self).subs_at(id as int) == Seq::<usize>::empty(),
            forall|j: int|
                0 <= j < old(self).n_cells() ==> final(self).cells@[j] == old(self).cells@[j],
            final(self).registry == old(self).registry,
            final(self).tracker == old(self).tracker,
    {
        let id = self.cells.len();
        let c = SignalInner::new(value);
        self.cells.push(c);
        id
    }

    /// Fetches the current snapshot of cell `sig` without ever registering
    /// a dependency, whether or not a computation is active.
    pub fn get_untracked_at(&self, sig: usize) -> (r: Rc<T>)
        requires
            sig < self.n_cells(),
        ensures
            r == self.cells@[sig as int].inner,
            *r == self.value_at(sig as int),
    {
        rc_clone(&self.cells[sig].inner)
    }

    /// Fetches the current snapshot of the cell `sig` refers to; if a
    /// computation is active, first registers that cell as one of its
    /// dependencies. With no active computation the read is deliberately
    /// untracked, not an error: teardown code reads cells without wanting
    /// to re-subscribe.
    ///
    /// A computation must never be disposed while it is actively running:
    /// the precondition states that of the tracking stack's top.
    pub fn get_at(&mut self, sig: AnySigRef) -> (r: Rc<T>)
        requires
            old(self).wf(),
            sig.ptr_spec() < old(self).n_cells(),
            old(self).tracker.is_tracking() ==> old(self).registry.state_of(
                old(self).tracker.model().last().callback as int,
            ) != CallbackState::Disposed,
        ensures
            final(self).wf(),
            final(self).cells == old(self).cells,
            final(self).registry == old(self).registry,
            final(self).tracker.model() == after_read(old(self).tracker.model(), sig),
            r == old(self).cells@[sig.ptr_spec() as int].inner,
            *r == old(self).value_at(sig.ptr_spec() as int),
    {
        self.tracker.record_read(sig);
        let p = sig.as_ptr();
        rc_clone(&self.cells[p].inner)
    }

    /// Idempotent insert of `handler` into cell `sig`'s subscriber list,
    /// keyed by the handler's identity. Values, registry and tracker are
    /// untouched.
    pub fn subscribe_at(&mut self, sig: usize, handler: Callback)
        requires
            old(self).wf(),
            sig < old(self).n_cells(),
        ensures
            final(self).wf(),
            final(self).n_cells() == old(self).n_cells(),
            old(self).subs_at(sig as int).contains(handler.ptr) ==> final(self).subs_at(
                sig as int,
            ) == old(self).subs_at(sig as int),
            !old(self).subs_at(sig as int).contains(handler.ptr) ==> final(self).subs_at(
                sig as int,
            ) == old(self).subs_at(sig as int).push(handler.ptr),
            final(self).value_at(sig as int) == old(self).value_at(sig as int),
            forall|j: int|
                0 <= j < old(self).n_cells() && j != sig ==> final(self).cells@[j] == old(
                    self,
                ).cells@[j],
            final(self).registry == old(self).registry,
            final(self).tracker == old(self).tracker,
    {
        let c = &mut self.cells[sig];
        c.subscribe(handler);
    }

    /// Idempotent removal of the handler with identity `handler` from cell
    /// `sig`'s subscriber list: removing an absent identity is a no-op, and
    /// afterwards the identity is not subscribed. The remaining subscribers
    /// keep their relative insertion order, so later passes still fire in
    /// strict reverse-registration order. Values, registry and tracker are
    /// untouched.
    pub fn unsubscribe_at(&mut self, sig: usize, handler: CallbackPtr)
        requires
            old(self).wf(),
            sig < old(self).n_cells(),
        ensures
            final(self).wf(),
            final(self).n_cells() == old(self).n_cells(),
            !old(self).subs_at(sig as int).contains(handler) ==> final(self).subs_at(sig as int)
                == old(self).subs_at(sig as int),
            !final(self).subs_at(sig as int).contains(handler),
            old(self).subs_at(sig as int).contains(handler) ==> final(self).subs_at(sig as int)
                == old(self).subs_at(sig as int).remove(
                crate::submap::key_index(old(self).cells@[sig as int].entries(), handler),
            ),
            final(self).value_at(sig as int) == old(self).value_at(sig as int),
            forall|j: int|
                0 <= j < old(self).n_cells() && j != sig ==> final(self).cells@[j] == old(
                    self,
                ).cells@[j],
            final(self).registry == old(self).registry,
            final(self).tracker == old(self).tracker,
    {
        proof {
            crate::submap::lemma_has_key_is_contains(self.cells@[sig as int].entries(), handler);
        }
        let c = &mut self.cells[sig];
        c.unsubscribe(handler);
    }

    /// Replaces cell `sig`'s snapshot. Does **not** notify subscribers:
    /// notification is a separate, explicit step, so several related cells
    /// can be updated before one coalesced propagation pass.
    pub fn update_at(&mut self, sig: usize, new_value: T)
        requires
            old(self).wf(),
            sig < old(self).n_cells(),
        ensures
            final(self).wf(),
            final(self).values_model() == old(self).values_model().update(sig as int, new_value),
            final(self).n_cells() == old(self).n_cells(),
            final(self).value_at(sig as int) == new_value,
            forall|j: int| 0 <= j < old(self).n_cells() ==> final(self).subs_at(j) == old(
                self,
            ).subs_at(j),
            forall|j: int|
                0 <= j < old(self).n_cells() && j != sig ==> final(self).value_at(j) == old(
                    self,
                ).value_at(j),
            final(self).registry == old(self).registry,
            final(self).tracker == old(self).tracker,
    {
        let c = &mut self.cells[sig];
        c.update(new_value);
        proof {
            assert(self.values_model() =~= old(self).values_model().update(
                sig as int,
                new_value,
            ));
            assert forall|j: int|
                0 <= j < old(self).n_cells() implies self.subs_at(j) == old(self).subs_at(j) by {
                if j != sig {
                    assert(self.cells@[j] == old(self).cells@[j]);
                }
            }
        }
    }

    /// The propagation pass for cell `sig`: a snapshot of its subscribers,
    /// taken before anything is invoked, in reverse insertion order, so
    /// later-registered (inner) computations fire before earlier-registered
    /// (outer) ones. Dispatch-time skipping of dead or running callbacks is
    /// the business of [`Runtime::try_begin_invoke`].
    pub fn trigger_subscribers_at(&self, sig: usize) -> (r: Vec<Callback>)
        requires
            self.wf(),
            sig < self.n_cells(),
        ensures
            is_reverse_schedule(r@, self.subs_at(sig as int)),
    {
        let ghost s = self.subs_at(sig as int);
        let vals = map_values(&self.cells[sig].subscribers);
        proof {
            assert(self.cells@[sig as int].wf());
            assert(vals@ =~= s);
        }
        let mut r: Vec<Callback> = Vec::new();
        let mut i: usize = vals.len();
        while i > 0
            invariant
                i <= vals@.len(),
                vals@ == s,
                r@.len() == s.len() - i,
                forall|k: int| 0 <= k < r@.len() ==> (#[trigger] r@[k]).ptr == s[s.len() - 1 - k],
            decreases i,
        {
            i -= 1;
            r.push(Callback { ptr: vals[i] });
        }
        r
    }

    /// Replaces cell `sig`'s snapshot with `new_value` and returns the
    /// propagation pass over the subscribers as they stood at the moment of
    /// the write: update, then trigger. Subscribers always fire — there is
    /// no value-equality short-circuit.
    pub fn set_at(&mut self, sig: usize, new_value: T) -> (r: Vec<Callback>)
        requires
            old(self).wf(),
            sig < old(self).n_cells(),
        ensures
            final(self).wf(),
            final(self).values_model() == old(self).values_model().update(sig as int, new_value),
            final(self).n_cells() == old(self).n_cells(),
            final(self).value_at(sig as int) == new_value,
            forall|j: int| 0 <= j < old(self).n_cells() ==> final(self).subs_at(j) == old(
                self,
            ).subs_at(j),
            forall|j: int|
                0 <= j < old(self).n_cells() && j != sig ==> final(self).value_at(j) == old(
                    self,
                ).value_at(j),
            final(self).registry == old(self).registry,
            final(self).tracker == old(self).tracker,
            is_reverse_schedule(r@, old(self).subs_at(sig as int)),
    {
        self.update_at(sig, new_value);
        self.trigger_subscribers_at(sig)
    }

    /// Registers a fresh computation, initially idle; cells and tracker are
    /// untouched.
    pub fn register_callback(&mut self) -> (cb: Callback)
        ensures
            cb.ptr == old(self).registry.n_callbacks(),
            final(self).registry.states_model() == old(self).registry.states_model().push(
                CallbackState::Idle,
            ),
            final(self).cells == old(self).cells,
            final(self).tracker == old(self).tracker,
    {
        self.registry.register()
    }

    /// Disposes a computation: terminal; it is skipped by every later pass.
    pub fn dispose_callback(&mut self, p: CallbackPtr)
        requires
            old(self).registry.is_registered(p as int),
        ensures
            final(self).registry.states_model() == old(self).registry.states_model().update(
                p as int,
                CallbackState::Disposed,
            ),
            final(self).cells == old(self).cells,
            final(self).tracker == old(self).tracker,
    {
        self.registry.dispose(p)
    }

    /// Tries to begin invoking callback `p` during a propagation pass:
    /// succeeds exactly for a registered, idle callback, marking it
    /// running. A disposed callback (owner torn down) and a running one
    /// (re-entrancy) are silent no-ops — skipped, never an error.
    pub fn try_begin_invoke(&mut self, p: CallbackPtr) -> (ok: bool)
        ensures
            ok == old(self).registry.can_begin(p as int),
            ok ==> final(self).registry.states_model() == old(
                self,
            ).registry.states_model().update(p as int, CallbackState::Running),
            !ok ==> final(self).registry.states_model() == old(self).registry.states_model(),
            final(self).cells == old(self).cells,
            final(self).tracker == old(self).tracker,
    {
        self.registry.try_begin_invoke(p)
    }

    /// Ends an invocation: a running callback returns to idle; one that
    /// disposed itself during its own run stays disposed.
    pub fn finish_invoke(&mut self, p: CallbackPtr)
        ensures
            old(self).registry.is_registered(p as int) && old(self).registry.state_of(p as int)
                == CallbackState::Running ==> final(self).registry.states_model() == old(
                self,
            ).registry.states_model().update(p as int, CallbackState::Idle),
            !(old(self).registry.is_registered(p as int) && old(self).registry.state_of(p as int)
                == CallbackState::Running) ==> final(self).registry.states_model() == old(
                self,
            ).registry.states_model(),
            final(self).cells == old(self).cells,
            final(self).tracker == old(self).tracker,
    {
        self.registry.finish_invoke(p);
    }

    /// Enters a computation: its context, with no dependencies yet, becomes
    /// the current tracking target.
    pub fn push_context(&mut self, cb: CallbackPtr)
        requires
            old(self).wf(),
        ensures
            final(self).wf(),
            final(self).tracker.model() == old(self).tracker.model().push(
                crate::tracker::ContextModel { callback: cb, deps: Seq::<AnySigRef>::empty() },
            ),
            final(self).cells == old(self).cells,
            final(self).registry == old(self).registry,
    {
        self.tracker.push_context(cb)
    }

    /// How many computations are active right now. The stack starts empty
    /// and must be empty again at teardown: a non-empty stack there
    /// indicates a leaked active computation.
    pub fn active_depth(&self) -> (n: usize)
        ensures
            n == self.tracker.depth(),
    {
        self.tracker.stack.len()
    }

    /// Leaves the current computation, handing back its context with the
    /// dependencies discovered during the run; a no-op when none is active.
    pub fn pop_context(&mut self) -> (r: Option<Context>)
        requires
            old(self).wf(),
        ensures
            final(self).wf(),
            old(self).tracker.depth() == 0 ==> r == None::<Context> && final(self).tracker.model()
                == old(self).tracker.model(),
            old(self).tracker.depth() > 0 ==> final(self).tracker.model() == old(
                self,
            ).tracker.model().drop_last() && (r matches Some(c) && c.model() == old(
                self,
            ).tracker.model().last()),
            final(self).cells == old(self).cells,
            final(self).registry == old(self).registry,
    {
        self.tracker.pop_context()
    }
}

/// The last write wins: whatever was written before, writing `a` and then
/// `b` to the same cell leaves exactly the state a single write of `b`
/// would, so a later untracked read returns `b`.
pub proof fn lemma_last_set_wins<T>(vals: Seq<T>, i: int, a: T, b: T)
    requires
        0 <= i < vals.len(),
    ensures
        vals.update(i, a).update(i, b) == vals.update(i, b),
        vals.update(i, a).update(i, b)[i] == b,
{
    assert(vals.update(i, a).update(i, b) =~= vals.update(i, b));
}

/// The cell values after the writes in `writes` are applied to cell `i`,
/// one at a time, oldest first: each step is exactly what one `set` leaves
/// behind by [`Runtime::set_at`]'s contract.
pub open spec fn after_sets<T>(vals: Seq<T>, i: int, writes: Seq<T>) -> Seq<T>
    decreases writes.len(),
{
    if writes.len() == 0 {
        vals
    } else {
        after_sets(vals.update(i, writes.first()), i, writes.drop_first())
    }
}

/// For every sequence of writes to one cell, however long and from
/// whatever starting state, the cell ends up holding the value of the last
/// write — so an untracked read after the sequence returns it.
pub proof fn lemma_sequence_of_sets_ends_at_last<T>(vals: Seq<T>, i: int, writes: Seq<T>)
    requires
        0 <= i < vals.len(),
        writes.len() > 0,
    ensures
        after_sets(vals, i, writes).len() == vals.len(),
        after_sets(vals, i, writes)[i] == writes.last(),
    decreases writes.len(),
{
    if writes.len() == 1 {
        let v1 = vals.update(i, writes.first());
        assert(writes.drop_first().len() == 0);
        assert(after_sets(v1, i, writes.drop_first()) == v1);
        assert(after_sets(vals, i, writes) == after_sets(v1, i, writes.drop_first()));
        assert(writes.first() == writes.last());
    } else {
        lemma_sequence_of_sets_ends_at_last(vals.update(i, writes.first()), i, writes.drop_first());
        assert(writes.drop_first().last() == writes.last());
    }
}

/// Reverse notification order: of two computations subscribed to the same
/// cell, the later-registered one (position `j`) stands strictly earlier in
/// the propagation pass than the earlier-registered one (position `i`).
pub proof fn lemma_reverse_order(r: Seq<Callback>, subs: Seq<usize>, i: int, j: int)
    requires
        is_reverse_schedule(r, subs),
        0 <= i < j < subs.len(),
    ensures
        subs.len() - 1 - j < subs.len() - 1 - i,
        r[subs.len() - 1 - j].ptr == subs[j],
        r[subs.len() - 1 - i].ptr == subs[i],
{
}

/// Subscribe/unsubscribe on the cells of any runtime, regardless of the
/// cells' value type: the type-erased protocol the dependency edges use.
pub trait AnySignalInner {
    /// How many cells exist.
    spec fn cells_n(&self) -> int;

    /// The subscribers of cell `i`, in subscription order.
    spec fn cell_subs(&self, i: int) -> Seq<usize>;

    /// Every cell's subscriber list is well-formed.
    spec fn cells_wf(&self) -> bool;

    /// Wrapper around [`SignalInner::subscribe`]: idempotent insert.
    fn subscribe(&mut self, sig: usize, handler: Callback)
        requires
            old(self).cells_wf(),
            sig < old(self).cells_n(),
        ensures
            final(self).cells_wf(),
            final(self).cells_n() == old(self).cells_n(),
            old(self).cell_subs(sig as int).contains(handler.ptr) ==> final(self).cell_subs(
                sig as int,
            ) == old(self).cell_subs(sig as int),
            !old(self).cell_subs(sig as int).contains(handler.ptr) ==> final(self).cell_subs(
                sig as int,
            ) == old(self).cell_subs(sig as int).push(handler.ptr),
            forall|j: int|
                0 <= j < old(self).cells_n() && j != sig ==> final(self).cell_subs(j) == old(
                    self,
                ).cell_subs(j),
    ;

    /// Wrapper around [`SignalInner::unsubscribe`]: idempotent removal,
    /// keeping the remaining subscribers' relative insertion order.
    fn unsubscribe(&mut self, sig: usize, handler: CallbackPtr)
        requires
            old(self).cells_wf(),
            sig < old(self).cells_n(),
        ensures
            final(self).cells_wf(),
            final(self).cells_n() == old(self).cells_n(),
            !old(self).cell_subs(sig as int).contains(handler) ==> final(self).cell_subs(
                sig as int,
            ) == old(self).cell_subs(sig as int),
            old(self).cell_subs(sig as int).contains(handler) ==> final(self).cell_subs(
                sig as int,
            ) == old(self).cell_subs(sig as int).remove(
                sub_index(old(self).cell_subs(sig as int), handler),
            ),
            !final(self).cell_subs(sig as int).contains(handler),
            forall|j: int|
                0 <= j < old(self).cells_n() && j != sig ==> final(self).cell_subs(j) == old(
                    self,
                ).cell_subs(j),
    ;
}

impl<T> AnySignalInner for Runtime<T> {
    open spec fn cells_n(&self) -> int {
        self.n_cells()
    }

    open spec fn cell_subs(&self, i: int) -> Seq<usize> {
        self.subs_at(i)
    }

    open spec fn cells_wf(&self) -> bool {
        self.cells_ok()
    }

    fn subscribe(&mut self, sig: usize, handler: Callback) {
        let c = &mut self.cells[sig];
        c.subscribe(handler);
    }

    fn unsubscribe(&mut self, sig: usize, handler: CallbackPtr) {
        let ghost s = self.cells@[sig as int].subs();
        let ghost ent = self.cells@[sig as int].entries();
        proof {
            crate::submap::lemma_has_key_is_contains(ent, handler);
        }
        let c = &mut self.cells[sig];
        c.unsubscribe(handler);
        proof {
            if s.contains(handler) {
                let i = crate::submap::key_index(ent, handler);
                let j = sub_index(s, handler);
                assert(0 <= j < s.len() && s[j] == handler);
                assert(0 <= i < ent.len() && ent[i].0 == handler);
                assert(s[i] == ent[i].0 && s[j] == ent[j].0);
                assert(i == j) by {
                    if i != j {
                        assert(crate::submap::unique_keys(ent));
                    }
                }
            }
        }
    }
}

} // verus!
