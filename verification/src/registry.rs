//! The persistent state: one identity allocator shared by every entity kind,
//! and one keyed store per kind.

use vstd::prelude::*;

use crate::model::{Booking, BookingStatusEnum, Client, ServiceProvider};
use crate::store::{has_key, keys_at_most, sorted_keys, Store};

verus! {

/// The whole durable state. `counter` is the last identifier issued; every
/// stored identifier was issued by it, so all keys are at most `counter`.
pub struct Registry {
    pub counter: u64,
    pub providers: Store<ServiceProvider>,
    pub bookings: Store<Booking>,
    pub clients: Store<Client>,
}

impl Registry {
    /// Well-formedness, established at creation and preserved by every
    /// operation:
    /// - each store's keys are strictly increasing, and every record is
    ///   stored under its own identifier;
    /// - every identifier in use is at most the allocator's counter, so a
    ///   freshly issued identifier is new to all three stores;
    /// - each provider's rating total is the sum of its review ratings;
    /// - every booking's provider identifier resolves to a stored provider
    ///   (clients are referenced but deliberately not checked).
    pub open spec fn wf(&self) -> bool {
        &&& self.providers.wf()
        &&& self.bookings.wf()
        &&& self.clients.wf()
        &&& keys_at_most(self.providers@, self.counter)
        &&& keys_at_most(self.bookings@, self.counter)
        &&& keys_at_most(self.clients@, self.counter)
        &&& forall|i: int|
            0 <= i < self.providers@.len() ==> {
                &&& (#[trigger] self.providers@[i]).1.id == self.providers@[i].0
                &&& self.providers@[i].1.wf()
            }
        &&& forall|i: int|
            0 <= i < self.bookings@.len() ==> {
                &&& (#[trigger] self.bookings@[i]).1.id == self.bookings@[i].0
                &&& has_key(self.providers@, self.bookings@[i].1.service_provider_id)
            }
        &&& forall|i: int|
            0 <= i < self.clients@.len() ==> (#[trigger] self.clients@[i]).1.id
                == self.clients@[i].0
    }

    /// No booking ever reaches `Completed`: no operation assigns that status,
    /// so every state reachable from the empty registry satisfies this.
    pub open spec fn no_completed(&self) -> bool {
        forall|i: int|
            0 <= i < self.bookings@.len() ==> !((#[trigger] self.bookings@[i]).1.status
                is Completed)
    }

    /// The empty registry: nothing stored, no identifier issued yet.
    pub fn new() -> (r: Registry)
        ensures
            r.wf(),
            r.no_completed(),
            r.counter == 0,
            r.providers@ == Seq::<(u64, ServiceProvider)>::empty(),
            r.bookings@ == Seq::<(u64, Booking)>::empty(),
            r.clients@ == Seq::<(u64, Client)>::empty(),
    {
        Registry {
            counter: 0,
            providers: Store::new(),
            bookings: Store::new(),
            clients: Store::new(),
        }
    }

    /// Issues the next identifier: one more than every identifier issued
    /// before, hence strictly greater than every identifier in use.
    pub fn next_id(&mut self) -> (id: u64)
        requires
            old(self).counter < u64::MAX,
        ensures
            id == old(self).counter + 1,
            final(self).counter == id,
            final(self).providers == old(self).providers,
            final(self).bookings == old(self).bookings,
            final(self).clients == old(self).clients,
    {
        self.counter = self.counter + 1;
        self.counter
    }
}

/// Global identifier monotonicity: every identifier already stored, of any
/// entity kind, is strictly less than the identifier the allocator would
/// issue next. Together with the creation contracts (which assign exactly
/// that next identifier) this gives: each assigned identifier is strictly
/// greater than every previously assigned one.
pub proof fn lemma_next_id_fresh(r: Registry)
    requires
        r.wf(),
        r.counter < u64::MAX,
    ensures
        forall|i: int| 0 <= i < r.providers@.len() ==> (#[trigger] r.providers@[i]).0 < r.counter + 1,
        forall|i: int| 0 <= i < r.bookings@.len() ==> (#[trigger] r.bookings@[i]).0 < r.counter + 1,
        forall|i: int| 0 <= i < r.clients@.len() ==> (#[trigger] r.clients@[i]).0 < r.counter + 1,
{
}

} // verus!
