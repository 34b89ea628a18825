//! The signal cell: a current value held as a shared immutable snapshot,
//! plus the insertion-ordered set of subscribed callbacks.

use vstd::prelude::*;
use std::rc::Rc;
use crate::callback::{Callback, CallbackPtr};
use crate::submap::{
    sub_entries, has_key, key_index, keys_of, unique_keys, map_new, map_insert, map_shift_remove,
};

verus! {

/// A type-erased reference to a signal cell, recording which ownership
/// flavor the handle that produced it had: permanently-alive or shared.
#[derive(Clone, Copy, PartialEq, Eq, Structural, Debug)]
pub enum AnySigRef {
    /// Produced by a permanently-alive handle.
    Static(usize),
    /// Produced by a shared, explicitly-owned handle.
    Dynamic(usize),
}

impl AnySigRef {
    /// The identity of the referenced cell, independent of flavor.
    pub open spec fn ptr_spec(self) -> usize {
        match self {
            AnySigRef::Static(p) => p,
            AnySigRef::Dynamic(p) => p,
        }
    }

    /// The identity of the referenced cell, usable as a dependency-set key.
    pub fn as_ptr(&self) -> (r: usize)
        ensures
            r == self.ptr_spec(),
    {
        match self {
            AnySigRef::Static(p) => *p,
            AnySigRef::Dynamic(p) => *p,
        }
    }
}

/// Relies on std's `Rc::clone`: the clone shares the same allocation, so it
/// holds the same value as the pointer it was cloned from.
#[verifier::external_body]
pub(crate) fn rc_clone<T>(r: &Rc<T>) -> (res: Rc<T>)
    ensures
        res == *r,
{
    Rc::clone(r)
}

/// The atomic unit of mutable state: the current value, shared as an
/// immutable snapshot, and the ordered set of subscribed callbacks.
pub struct SignalInner<T> {
    /// The current snapshot. An update installs a brand-new snapshot;
    /// holders of an older one keep a stable value.
    pub inner: Rc<T>,
    /// Insertion-ordered mapping from callback identity to the stored
    /// handle's identity; the order governs notification order.
    pub subscribers: indexmap::IndexMap<usize, usize>,
}

impl<T> SignalInner<T> {
    /// The subscriber entries, in insertion order.
    pub open spec fn entries(self) -> Seq<(usize, usize)> {
        sub_entries(self.subscribers)
    }

    /// The subscribed callback identities, in subscription order.
    pub open spec fn subs(self) -> Seq<usize> {
        keys_of(self.entries())
    }

    /// The current value.
    pub open spec fn value(self) -> T {
        *self.inner
    }

    /// Well-formed: no identity is subscribed twice, and each entry stores
    /// the handle whose identity is its own key.
    pub open spec fn wf(self) -> bool {
        &&& unique_keys(self.entries())
        &&& forall|i: int|
            0 <= i < self.entries().len() ==> (#[trigger] self.entries()[i]).1
                == self.entries()[i].0
    }

    /// Wraps `value` as the first snapshot, with an empty subscriber set.
    pub fn new(value: T) -> (r: SignalInner<T>)
        ensures
            r.wf(),
            r.value() == value,
            r.entries() == Seq::<(usize, usize)>::empty(),
            r.subs() == Seq::<usize>::empty(),
    {
        let r = SignalInner { inner: Rc::new(value), subscribers: map_new() };
        proof {
            assert(r.subs() =~= Seq::<usize>::empty());
        }
        r
    }

    /// Adds a handler to the subscriber list, keyed by its identity. If the
    /// handler is already a subscriber, this does nothing: a callback
    /// subscribing twice is a no-op.
    pub fn subscribe(&mut self, handler: Callback)
        requires
            old(self).wf(),
        ensures
            final(self).wf(),
            final(self).value() == old(self).value(),
            old(self).subs().contains(handler.ptr) ==> final(self).subs() == old(self).subs(),
            !old(self).subs().contains(handler.ptr) ==> final(self).subs() == old(
                self,
            ).subs().push(handler.ptr),
    {
        let p = handler.as_ptr();
        proof {
            crate::submap::lemma_has_key_is_contains(self.entries(), p);
        }
        let ghost s0 = self.entries();
        let _ = map_insert(&mut self.subscribers, p, p);
        proof {
            if has_key(s0, p) {
                let i = key_index(s0, p);
                assert(0 <= i < s0.len() && s0[i].0 == p);
                assert(s0[i] == (p, p));
                assert(self.entries() =~= s0);
                assert(self.subs() =~= old(self).subs());
            } else {
                assert(self.entries() == s0.push((p, p)));
                assert(self.subs() =~= old(self).subs().push(p));
                assert forall|i: int, j: int|
                    0 <= i < j < self.entries().len() implies self.entries()[i].0
                    != self.entries()[j].0 by {
                    if j == s0.len() {
                        assert(!has_key(s0, p));
                        assert(self.entries()[i].0 == s0[i].0);
                    }
                }
            }
        }
    }

    /// Removes a handler from the subscriber list. If the handler is not a
    /// subscriber, this does nothing: removing an absent identity is a
    /// no-op. A present entry is removed in place: the remaining
    /// subscribers keep their relative insertion order, since that order
    /// governs notification order.
    pub fn unsubscribe(&mut self, handler: CallbackPtr)
        requires
            old(self).wf(),
        ensures
            final(self).wf(),
            final(self).value() == old(self).value(),
            !old(self).subs().contains(handler) ==> final(self).subs() == old(self).subs(),
            old(self).subs().contains(handler) ==> ({
                let i = key_index(old(self).entries(), handler);
                final(self).subs() == old(self).subs().remove(i)
            }),
            !final(self).subs().contains(handler),
    {
        proof {
            crate::submap::lemma_has_key_is_contains(self.entries(), handler);
        }
        let ghost s0 = self.entries();
        let _ = map_shift_remove(&mut self.subscribers, handler);
        proof {
            if has_key(s0, handler) {
                let i = key_index(s0, handler);
                assert(0 <= i < s0.len() && s0[i].0 == handler);
                assert(self.entries() == s0.remove(i));
                assert forall|a: int| 0 <= a < self.entries().len() implies #[trigger] self
                    .entries()[a] == (if a < i {
                    s0[a]
                } else {
                    s0[a + 1]
                }) by {}
                assert(self.subs() =~= old(self).subs().remove(i));
                assert forall|a: int, b: int|
                    0 <= a < b < self.entries().len() implies self.entries()[a].0
                    != self.entries()[b].0 by {
                }
                assert forall|a: int|
                    0 <= a < self.subs().len() implies #[trigger] self.subs()[a]
                    != handler by {
                    assert(self.subs()[a] == self.entries()[a].0);
                    if a < i {
                        assert(self.entries()[a] == s0[a]);
                    } else {
                        assert(self.entries()[a] == s0[a + 1]);
                    }
                }
                crate::submap::lemma_has_key_is_contains(self.entries(), handler);
                assert(!self.subs().contains(handler));
            } else {
                assert(self.entries() == s0);
                crate::submap::lemma_has_key_is_contains(self.entries(), handler);
            }
        }
    }

    /// Replaces the snapshot with a brand-new one holding `new_value`. This
    /// does **not** notify the subscribers; propagation is a separate,
    /// explicit step, so several related cells can be updated before one
    /// coalesced pass.
    pub fn update(&mut self, new_value: T)
        ensures
            final(self).value() == new_value,
            final(self).entries() == old(self).entries(),
            final(self).subs() == old(self).subs(),
    {
        self.inner = Rc::new(new_value);
    }
}

} // verus!
