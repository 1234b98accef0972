//! The table of authenticated channels.
//!
//! A channel is known by a 32-byte identifier, which is the key share that
//! opened it. An identifier is accepted once: presenting it again is a
//! replay, whether the channel is still open or long closed. So a closed
//! channel never comes back.

use vstd::prelude::*;
use crate::wire::{array32_eq, copy_items};

verus! {

/// The handle of a channel with a client.
#[derive(Clone, Copy, Debug, PartialEq, Eq)]
pub struct ClientSession(pub [u8; 32]);

/// The handle of a channel with a peer node.
#[derive(Clone, Copy, Debug, PartialEq, Eq)]
pub struct PeerSession(pub [u8; 32]);

/// A message bound to one channel, with additional data that travels in the
/// clear beside it.
#[derive(Clone, Debug, PartialEq, Eq)]
pub struct EnclaveMessage<S> {
    pub aad: Vec<u8>,
    pub channel_id: S,
    pub data: Vec<u8>,
}

/// What a session table holds: the channels that are open, and every
/// identifier that was ever registered.
pub ghost struct SessionsView {
    pub open: Set<[u8; 32]>,
    pub used: Set<[u8; 32]>,
}

impl SessionsView {
    /// The table with no channel.
    pub open spec fn empty() -> SessionsView {
        SessionsView { open: Set::empty(), used: Set::empty() }
    }

    /// The table after `id` was registered.
    pub open spec fn registered(self, id: [u8; 32]) -> SessionsView {
        SessionsView { open: self.open.insert(id), used: self.used.insert(id) }
    }

    /// The table after `id` was closed.
    pub open spec fn closed(self, id: [u8; 32]) -> SessionsView {
        SessionsView { open: self.open.remove(id), used: self.used }
    }
}

/// Closing a channel a second time changes nothing.
pub proof fn close_is_idempotent(table: SessionsView, id: [u8; 32])
    ensures
        table.closed(id).closed(id) == table.closed(id),
        !table.closed(id).open.contains(id),
{
    assert(table.closed(id).open.remove(id) =~= table.closed(id).open);
}

/// Closing one channel leaves the others as they were.
pub proof fn close_keeps_others(table: SessionsView, id: [u8; 32], other: [u8; 32])
    requires
        other != id,
    ensures
        table.closed(id).open.contains(other) == table.open.contains(other),
{
}

/// The channels of one kind.
pub struct SessionTable {
    open: Vec<[u8; 32]>,
    used: Vec<[u8; 32]>,
}

/// Whether `id` occurs in `ids`.
fn holds(ids: &Vec<[u8; 32]>, id: &[u8; 32]) -> (found: bool)
    ensures
        found == ids@.contains(*id),
{
    let mut i: usize = 0;
    while i < ids.len()
        invariant
            i <= ids.len(),
            forall|k: int| 0 <= k < i ==> ids@[k] != *id,
        decreases ids.len() - i,
    {
        if array32_eq(&ids[i], id) {
            return true;
        }
        i += 1;
    }
    false
}

impl View for SessionTable {
    type V = SessionsView;

    closed spec fn view(&self) -> SessionsView {
        SessionsView { open: self.open@.to_set(), used: self.used@.to_set() }
    }
}

impl Clone for SessionTable {
    fn clone(&self) -> (copy: Self)
        ensures
            copy@ == self@,
    {
        proof {
            use_type_invariant(self);
        }
        SessionTable { open: copy_items(&self.open), used: copy_items(&self.used) }
    }
}

impl SessionTable {
    #[verifier::type_invariant]
    spec fn consistent(self) -> bool {
        &&& self.open@.no_duplicates()
        &&& forall|i: int| 0 <= i < self.open@.len() ==> self.used@.contains(#[trigger] self.open@[i])
    }

    /// A table with no channel.
    pub fn new() -> (table: Self)
        ensures
            table@ == SessionsView::empty(),
    {
        let table = SessionTable { open: Vec::new(), used: Vec::new() };
        assert(table.open@.to_set() =~= Set::<[u8; 32]>::empty());
        assert(table.used@.to_set() =~= Set::<[u8; 32]>::empty());
        table
    }

    /// Whether the channel `id` is open.
    pub fn is_open(&self, id: &[u8; 32]) -> (open: bool)
        ensures
            open == self@.open.contains(*id),
    {
        holds(&self.open, id)
    }

    /// Whether `id` was ever registered.
    pub fn was_used(&self, id: &[u8; 32]) -> (used: bool)
        ensures
            used == self@.used.contains(*id),
    {
        holds(&self.used, id)
    }

    /// Registers the channel `id` unless the identifier was used before.
    ///
    /// Returns whether the channel was registered; the table changes only
    /// then.
    pub fn register(&mut self, id: [u8; 32]) -> (registered: bool)
        ensures
            registered == !old(self)@.used.contains(id),
            final(self)@ == if registered {
                old(self)@.registered(id)
            } else {
                old(self)@
            },
    {
        proof {
            use_type_invariant(&*self);
        }
        if holds(&self.used, &id) {
            return false;
        }
        let ghost open_before = self.open@;
        let ghost used_before = self.used@;
        let mut open = copy_items(&self.open);
        let mut used = copy_items(&self.used);
        open.push(id);
        used.push(id);
        proof {
            assert(open@ =~= open_before.push(id));
            assert(used@ =~= used_before.push(id));
            assert forall|i: int| 0 <= i < open_before.len() implies open_before[i] != id
                && used@.contains(#[trigger] open_before[i]) by {
                assert(used_before.contains(open_before[i]));
                let k = choose|k: int|
                    0 <= k < used_before.len() && used_before[k] == open_before[i];
                assert(used@[k] == open_before[i]);
            }
            assert(used@[used_before.len() as int] == id);
            assert forall|i: int| 0 <= i < open@.len() implies used@.contains(
                #[trigger] open@[i],
            ) by {
                if i < open_before.len() {
                    assert(open@[i] == open_before[i]);
                }
            }
            assert(open@.no_duplicates());
            open_before.lemma_push_to_set_commute(id);
            used_before.lemma_push_to_set_commute(id);
        }
        self.used = used;
        self.open = open;
        true
    }

    /// Closes the channel `id`. Closing a channel that is not open changes
    /// nothing.
    pub fn close(&mut self, id: &[u8; 32])
        ensures
            final(self)@ == old(self)@.closed(*id),
    {
        proof {
            use_type_invariant(&*self);
        }
        let ghost before = self.open@;
        let mut open = copy_items(&self.open);
        let mut i: usize = 0;
        while i < open.len()
            invariant
                i <= open.len(),
                open@ == before,
                self.open@ == before,
                before == old(self).open@,
                self.used@ == old(self).used@,
                before.no_duplicates(),
                forall|k: int| 0 <= k < before.len() ==> self.used@.contains(#[trigger] before[k]),
                forall|k: int| 0 <= k < i ==> before[k] != *id,
            decreases open.len() - i,
        {
            if array32_eq(&open[i], id) {
                open.remove(i);
                proof {
                    let after = open@;
                    assert(after =~= before.remove(i as int));
                    assert forall|x: [u8; 32]| #[trigger]
                        after.to_set().contains(x) <==> before.to_set().remove(*id).contains(
                            x,
                        ) by {
                        if after.contains(x) {
                            let k = choose|k: int| 0 <= k < after.len() && after[k] == x;
                            if k < i {
                                assert(before[k] == x);
                            } else {
                                assert(before[k + 1] == x);
                            }
                        }
                        if before.contains(x) && x != *id {
                            let k = choose|k: int| 0 <= k < before.len() && before[k] == x;
                            if k < i {
                                assert(after[k] == x);
                            } else {
                                assert(after[k - 1] == x);
                            }
                        }
                    }
                    assert(after.to_set() =~= before.to_set().remove(*id));
                    assert forall|a: int, b: int|
                        0 <= a < after.len() && 0 <= b < after.len() && a != b implies after[a]
                        != after[b] by {
                        let a0 = if a < i { a } else { a + 1 };
                        let b0 = if b < i { b } else { b + 1 };
                        assert(after[a] == before[a0]);
                        assert(after[b] == before[b0]);
                    }
                    assert forall|k: int| 0 <= k < after.len() implies self.used@.contains(
                        #[trigger] after[k],
                    ) by {
                        let k0 = if k < i { k } else { k + 1 };
                        assert(after[k] == before[k0]);
                    }
                }
                self.open = open;
                return;
            }
            i += 1;
        }
        assert(before.to_set() =~= before.to_set().remove(*id));
    }
}

} // verus!
