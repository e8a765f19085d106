//! The connection manager: the single shared handle to the store, guarded
//! by a verified readers-writer lock.
//!
//! Every repository operation runs inside one acquisition held for its
//! whole critical section, so multi-statement sequences are never observed
//! half-done; the lock's invariant is the store's well-formedness, so every
//! acquisition hands out a well-formed store and every release demands one
//! back.

use vstd::prelude::*;
use vstd::rwlock::{RwLock, RwLockPredicate};
use crate::store::Store;

verus! {

/// The lock invariant: only well-formed stores may rest in the lock.
pub struct StoreInv {}

impl RwLockPredicate<Store> for StoreInv {
    open spec fn inv(self, v: Store) -> bool {
        v.wf()
    }
}

/// One physical handle to the embedded store, shared by all callers.
pub struct DbConnection {
    lock: RwLock<Store, StoreInv>,
}

impl DbConnection {
    /// The lock was set up with the well-formedness invariant.
    pub closed spec fn wf(self) -> bool {
        self.lock.pred() == (StoreInv {  })
    }

    /// Opens a connection over an already-loaded store, as over a durable
    /// database file.
    pub fn new(store: Store) -> (r: DbConnection)
        requires
            store.wf(),
        ensures
            r.wf(),
    {
        DbConnection { lock: RwLock::new(store, Ghost(StoreInv {  })) }
    }

    /// Opens a connection over a fresh, empty store, as over a volatile
    /// in-memory database; for testing.
    pub fn new_in_memory() -> (r: DbConnection)
        ensures
            r.wf(),
    {
        DbConnection::new(Store::new())
    }

    /// The shared lock over the store; callers acquire it for the whole
    /// duration of each critical section.
    pub fn get_connection<'a>(&'a self) -> (r: &'a RwLock<Store, StoreInv>)
        requires
            self.wf(),
        ensures
            r.pred() == (StoreInv {  }),
    {
        &self.lock
    }
}

} // verus!
