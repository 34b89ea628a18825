//! The dependency tracker: a stack of "currently running reactive
//! computation" contexts, confined to one logical thread.
//!
//! Entering a computation pushes its context; leaving pops it. Only the top
//! of the stack is the current tracking target: a cell read while the stack
//! is non-empty becomes a dependency of the top context, deduplicated by
//! cell identity. A read with an empty stack registers nothing — the
//! deliberate conditional that lets teardown code read cells without
//! re-subscribing. The stack is explicit state handed to the reader, with a
//! documented start (empty) and teardown (empty again), never ambient
//! global state.

use vstd::prelude::*;
use crate::callback::CallbackPtr;
use crate::signal::AnySigRef;

verus! {

/// One active computation: its callback identity, and the cells it has read
/// so far in this run, in first-read order.
pub struct Context {
    /// The identity of the computation's callback.
    pub callback: CallbackPtr,
    /// The discovered dependency edges: one per distinct cell read.
    pub dependencies: Vec<AnySigRef>,
}

/// The mathematical content of a [`Context`].
#[verifier::ext_equal]
pub struct ContextModel {
    /// The identity of the computation's callback.
    pub callback: CallbackPtr,
    /// The discovered dependency edges, in first-read order.
    pub deps: Seq<AnySigRef>,
}

impl ContextModel {
    /// The identities of the cells this context depends on, in order.
    pub open spec fn dep_ptrs(self) -> Seq<usize> {
        self.deps.map_values(|d: AnySigRef| d.ptr_spec())
    }

    /// Whether the cell with identity `p` is already a dependency.
    pub open spec fn has_dep(self, p: usize) -> bool {
        self.dep_ptrs().contains(p)
    }

    /// Well-formed: no cell identity occurs twice among the dependencies.
    pub open spec fn wf(self) -> bool {
        forall|i: int, j: int|
            0 <= i < j < self.deps.len() ==> self.dep_ptrs()[i] != self.dep_ptrs()[j]
    }
}

impl Context {
    /// The mathematical content of this context.
    pub open spec fn model(self) -> ContextModel {
        ContextModel { callback: self.callback, deps: self.dependencies@ }
    }
}

/// The stack of contexts after a cell read: empty stacks are untouched; a
/// cell already depended on by the top context is not added again; a new
/// cell is appended to the top context's dependencies. Contexts below the
/// top are never touched.
pub open spec fn after_read(m: Seq<ContextModel>, sig: AnySigRef) -> Seq<ContextModel> {
    if m.len() == 0 {
        m
    } else {
        let top = m.last();
        if top.has_dep(sig.ptr_spec()) {
            m
        } else {
            m.update(
                m.len() - 1,
                ContextModel { callback: top.callback, deps: top.deps.push(sig) },
            )
        }
    }
}

/// The stack of zero-or-more active computation contexts.
pub struct DependencyTracker {
    /// The active contexts; the last is the current tracking target.
    pub stack: Vec<Context>,
}

impl DependencyTracker {
    /// The stack's mathematical content, bottom first.
    pub open spec fn model(self) -> Seq<ContextModel> {
        self.stack@.map_values(|c: Context| c.model())
    }

    /// How many computations are active.
    pub open spec fn depth(self) -> int {
        self.stack@.len() as int
    }

    /// Whether a computation is active, so reads are tracked.
    pub open spec fn is_tracking(self) -> bool {
        self.depth() > 0
    }

    /// Well-formed: every context's dependency set is duplicate-free.
    pub open spec fn wf(self) -> bool {
        forall|i: int| 0 <= i < self.model().len() ==> (#[trigger] self.model()[i]).wf()
    }

    /// An empty stack: the documented initial state.
    pub fn new() -> (r: DependencyTracker)
        ensures
            r.wf(),
            r.model() == Seq::<ContextModel>::empty(),
    {
        let r = DependencyTracker { stack: Vec::new() };
        proof {
            assert(r.model() =~= Seq::<ContextModel>::empty());
        }
        r
    }

    /// Enters a computation: pushes a context with no dependencies yet.
    pub fn push_context(&mut self, cb: CallbackPtr)
        ensures
            final(self).model() == old(self).model().push(
                ContextModel { callback: cb, deps: Seq::<AnySigRef>::empty() },
            ),
            old(self).wf() ==> final(self).wf(),
    {
        self.stack.push(Context { callback: cb, dependencies: Vec::new() });
        proof {
            assert(self.model() =~= old(self).model().push(
                ContextModel { callback: cb, deps: Seq::<AnySigRef>::empty() },
            ));
        }
    }

    /// Leaves the current computation: pops its context and hands it back,
    /// dependencies included, so the owning layer can build its edges. On an
    /// empty stack this is a no-op returning nothing.
    pub fn pop_context(&mut self) -> (r: Option<Context>)
        ensures
            old(self).depth() == 0 ==> r == None::<Context> && final(self).model() == old(
                self,
            ).model(),
            old(self).depth() > 0 ==> final(self).model() == old(self).model().drop_last() && (
            r matches Some(c) && c.model() == old(self).model().last()),
            old(self).wf() ==> final(self).wf(),
    {
        let r = self.stack.pop();
        proof {
            if old(self).depth() > 0 {
                assert(self.model() =~= old(self).model().drop_last());
            }
        }
        r
    }

    /// Registers a cell read. With an active computation, the read cell
    /// becomes a dependency of the top context — exactly once per distinct
    /// cell, however often it is read. With no active computation, nothing
    /// is registered.
    pub fn record_read(&mut self, sig: AnySigRef)
        requires
            old(self).wf(),
        ensures
            final(self).wf(),
            final(self).model() == after_read(old(self).model(), sig),
            final(self).depth() == old(self).depth(),
    {
        let n = self.stack.len();
        if n == 0 {
            return ;
        }
        let p = sig.as_ptr();
        let top = &mut self.stack[n - 1];
        let ghost d0 = top.dependencies@;
        let mut found = false;
        let mut i: usize = 0;
        while i < top.dependencies.len()
            invariant
                top.dependencies@ == d0,
                n == old(self).stack@.len(),
                n >= 1,
                top.callback == old(self).stack@[n as int - 1].callback,
                0 <= i <= d0.len(),
                found <==> exists|j: int| 0 <= j < i && d0[j].ptr_spec() == p,
            decreases d0.len() - i,
        {
            if top.dependencies[i].as_ptr() == p {
                found = true;
            }
            i += 1;
        }
        if !found {
            top.dependencies.push(sig);
        }
        proof {
            let m0 = old(self).model();
            let t0 = m0.last();
            assert(t0 == old(self).stack@[n as int - 1].model());
            assert(t0.deps == d0);
            assert forall|q: usize| t0.has_dep(q) implies exists|j: int|
                0 <= j < d0.len() && d0[j].ptr_spec() == q by {
                let j = choose|j: int| 0 <= j < t0.dep_ptrs().len() && t0.dep_ptrs()[j] == q;
                assert(d0[j].ptr_spec() == q);
            }
            if found {
                let j = choose|j: int| 0 <= j < d0.len() && d0[j].ptr_spec() == p;
                assert(t0.dep_ptrs()[j] == p);
                assert(t0.has_dep(p));
                assert(self.stack@ =~= old(self).stack@);
                assert(self.model() =~= m0);
            } else {
                assert(!t0.has_dep(p));
                assert(self.model() =~= m0.update(
                    m0.len() - 1,
                    ContextModel { callback: t0.callback, deps: t0.deps.push(sig) },
                ));
                let t1 = self.model().last();
                assert(t1.deps == t0.deps.push(sig));
                assert forall|a: int, b: int|
                    0 <= a < b < t1.deps.len() implies t1.dep_ptrs()[a] != t1.dep_ptrs()[b] by {
                    assert(t1.dep_ptrs()[a] == t1.deps[a].ptr_spec());
                    assert(t1.dep_ptrs()[b] == t1.deps[b].ptr_spec());
                    if b == t0.deps.len() {
                        assert(t1.deps[b] == sig);
                        assert(t1.deps[a] == d0[a]);
                        assert(d0[a].ptr_spec() != p);
                    } else {
                        assert(t1.deps[a] == t0.deps[a]);
                        assert(t1.deps[b] == t0.deps[b]);
                        assert(t0.wf());
                        assert(t0.dep_ptrs()[a] == t0.deps[a].ptr_spec());
                        assert(t0.dep_ptrs()[b] == t0.deps[b].ptr_spec());
                    }
                }
            }
        }
    }
}

/// A read performed with no active computation registers zero dependency
/// edges: the tracker is left exactly as it was.
pub proof fn lemma_untracked_read_is_noop(m: Seq<ContextModel>, sig: AnySigRef)
    requires
        m.len() == 0,
    ensures
        after_read(m, sig) == m,
{
}

/// Dependency registration is idempotent: within one run, a cell read any
/// number of times registers exactly one dependency edge — every read after
/// the first changes nothing.
pub proof fn lemma_read_idempotent(m: Seq<ContextModel>, sig: AnySigRef)
    ensures
        after_read(after_read(m, sig), sig) == after_read(m, sig),
{
    if m.len() > 0 {
        let p = sig.ptr_spec();
        let top = m.last();
        let m1 = after_read(m, sig);
        if !top.has_dep(p) {
            let top1 = m1.last();
            assert(top1.deps == top.deps.push(sig));
            assert(top1.dep_ptrs()[top.deps.len() as int] == p);
            assert(top1.has_dep(p));
            assert(after_read(m1, sig) == m1);
        }
    }
}

/// The first read of a cell inside a run registers exactly one edge: the
/// cell is appended to the top context's dependencies, and nothing else —
/// no other context, no other edge — changes.
pub proof fn lemma_first_read_registers_one_edge(m: Seq<ContextModel>, sig: AnySigRef)
    requires
        m.len() > 0,
        !m.last().has_dep(sig.ptr_spec()),
    ensures
        after_read(m, sig).len() == m.len(),
        after_read(m, sig).last().deps == m.last().deps.push(sig),
        forall|i: int| 0 <= i < m.len() - 1 ==> after_read(m, sig)[i] == m[i],
{
}

} // verus!
