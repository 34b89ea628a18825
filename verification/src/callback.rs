//! The callback registry: identities and lifecycle states of reactive
//! computations.
//!
//! A cell's subscriber list must reference computations without keeping them
//! alive. The registry makes that weak relation explicit: a [`Callback`] is a
//! stable identity, and the registry resolves it to a [`CallbackState`]. A
//! computation whose owner was torn down is `Disposed` (the "weak reference is
//! gone" answer); one in the middle of its own execution is `Running`, and the
//! re-entrancy guard refuses to begin it again.

use vstd::prelude::*;

verus! {

/// Identity of a reactive computation: a stable key usable in subscriber
/// maps, independent of the computation's current liveness.
pub type CallbackPtr = usize;

/// Lifecycle state of a reactive computation's callback.
///
/// `Disposed` is terminal: it is reachable from `Idle` and from `Running`,
/// and no transition leaves it.
#[derive(Clone, Copy, PartialEq, Eq, Structural, Debug)]
pub enum CallbackState {
    /// Registered and not currently executing.
    Idle,
    /// Currently executing; an attempt to begin it again is refused.
    Running,
    /// Its owning computation was torn down; it is never invoked again.
    Disposed,
}

/// An identity-comparable handle to a registered callback.
#[derive(Clone, Copy, PartialEq, Eq, Structural, Debug)]
pub struct Callback {
    /// The identity: the position this callback was registered at.
    pub ptr: CallbackPtr,
}

impl Callback {
    /// The identity of this callback.
    pub fn as_ptr(&self) -> (r: CallbackPtr)
        ensures
            r == self.ptr,
    {
        self.ptr
    }
}

/// The registry of reactive computations: resolves a [`CallbackPtr`] to the
/// callback's current lifecycle state.
pub struct CallbackRegistry {
    /// State of each registered callback, indexed by its identity.
    pub states: Vec<CallbackState>,
}

impl CallbackRegistry {
    /// The state of every registered callback, by identity.
    pub open spec fn states_model(self) -> Seq<CallbackState> {
        self.states@
    }

    /// How many callbacks have ever been registered.
    pub open spec fn n_callbacks(self) -> int {
        self.states@.len() as int
    }

    /// Whether `p` is the identity of a registered callback.
    pub open spec fn is_registered(self, p: int) -> bool {
        0 <= p < self.states@.len()
    }

    /// The state of the callback with identity `p`.
    pub open spec fn state_of(self, p: int) -> CallbackState {
        self.states@[p]
    }

    /// A callback may begin executing exactly when it is registered and idle:
    /// not disposed, and not already running.
    pub open spec fn can_begin(self, p: int) -> bool {
        self.is_registered(p) && self.state_of(p) == CallbackState::Idle
    }

    /// An empty registry.
    pub fn new() -> (r: CallbackRegistry)
        ensures
            r.states_model() == Seq::<CallbackState>::empty(),
    {
        CallbackRegistry { states: Vec::new() }
    }

    /// Registers a fresh callback, initially idle, and returns its handle.
    /// The identity is distinct from every previously registered one.
    pub fn register(&mut self) -> (cb: Callback)
        ensures
            cb.ptr == old(self).n_callbacks(),
            final(self).states_model() == old(self).states_model().push(CallbackState::Idle),
    {
        let p = self.states.len();
        self.states.push(CallbackState::Idle);
        Callback { ptr: p }
    }

    /// Marks the callback as disposed. Disposal is terminal: once disposed,
    /// the callback is skipped by every later dispatch.
    pub fn dispose(&mut self, p: CallbackPtr)
        requires
            old(self).is_registered(p as int),
        ensures
            final(self).states_model()
                == old(self).states_model().update(p as int, CallbackState::Disposed),
    {
        self.states.set(p, CallbackState::Disposed);
    }

    /// Tries to begin invoking the callback `p`.
    ///
    /// Succeeds, marking it `Running`, exactly when `p` is a registered, idle
    /// callback. Fails as a silent no-op when `p` was never registered, is
    /// disposed (the weak reference is gone), or is already running (the
    /// re-entrancy guard), leaving every state unchanged.
    pub fn try_begin_invoke(&mut self, p: CallbackPtr) -> (ok: bool)
        ensures
            ok == old(self).can_begin(p as int),
            ok ==> final(self).states_model()
                == old(self).states_model().update(p as int, CallbackState::Running),
            !ok ==> final(self).states_model() == old(self).states_model(),
    {
        if p < self.states.len() {
            let st = self.states[p];
            if st == CallbackState::Idle {
                self.states.set(p, CallbackState::Running);
                true
            } else {
                false
            }
        } else {
            false
        }
    }

    /// Ends an invocation begun by [`Self::try_begin_invoke`]: a running
    /// callback returns to idle. If the callback disposed itself during its
    /// own run, it stays disposed; any other state is left unchanged.
    pub fn finish_invoke(&mut self, p: CallbackPtr)
        ensures
            old(self).is_registered(p as int)
                && old(self).state_of(p as int) == CallbackState::Running
                ==> final(self).states_model()
                    == old(self).states_model().update(p as int, CallbackState::Idle),
            !(old(self).is_registered(p as int)
                && old(self).state_of(p as int) == CallbackState::Running)
                ==> final(self).states_model() == old(self).states_model(),
    {
        if p < self.states.len() {
            let st = self.states[p];
            if st == CallbackState::Running {
                self.states.set(p, CallbackState::Idle);
            }
        }
    }
}

/// A callback that is already executing is never re-entered: beginning it
/// again fails and changes no state, so a nested propagation pass reaching
/// the callback that triggered it drops that notification instead of
/// recursing.
pub proof fn lemma_running_never_reentered(reg: CallbackRegistry, p: int)
    requires
        reg.is_registered(p),
        reg.state_of(p) == CallbackState::Running,
    ensures
        !reg.can_begin(p),
{
}

/// A disposed callback is never invoked again: beginning it fails and
/// changes no state, whichever cell triggers it.
pub proof fn lemma_disposed_never_invoked(reg: CallbackRegistry, p: int)
    requires
        reg.is_registered(p),
        reg.state_of(p) == CallbackState::Disposed,
    ensures
        !reg.can_begin(p),
{
}

} // verus!
