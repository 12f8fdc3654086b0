//! The holder of the one shared handle to the persistence backend.
//!
//! The handle is put in once, after the connection stands, and lent to every command that
//! needs the store. When the connection is reported as gone the registry keeps the handle
//! but lends it no more: every later request fails at once with `ConnectionLost`.

use crate::sign::Sign;
use crate::store::{
    answer, fault_of, table_after, MemoryStore, OutcomeView, StoreFault, StoreOutcome,
    StoreRequest,
};
use vstd::prelude::*;

verus! {

/// A handle of type `H` together with the news of whether its connection still stands.
pub struct Registry<H> {
    handle: H,
    lost: bool,
}

impl<H> Registry<H> {
    /// The handle that was put in.
    pub closed spec fn handle_view(&self) -> H {
        self.handle
    }

    /// Whether the connection was reported as gone.
    pub closed spec fn lost_view(&self) -> bool {
        self.lost
    }

    /// A registry around a handle whose connection stands.
    pub fn new(handle: H) -> (registry: Registry<H>)
        ensures
            registry.handle_view() == handle,
            !registry.lost_view(),
    {
        Registry { handle, lost: false }
    }

    /// Whether the connection was reported as gone.
    pub fn is_lost(&self) -> (lost: bool)
        ensures
            lost == self.lost_view(),
    {
        self.lost
    }

    /// Records that the connection is gone. There is no way back: a new connection takes a
    /// new registry.
    pub fn mark_lost(&mut self)
        ensures
            final(self).lost_view(),
            final(self).handle_view() == old(self).handle_view(),
    {
        self.lost = true;
    }

    /// Takes note of an error that the backend reported, and names the fault it stands for.
    /// `closed` says whether the backend reported its connection as closed: if so the
    /// connection is recorded as gone and the fault is `ConnectionLost`; if not nothing
    /// changes and the fault is `StorageError`.
    pub fn note_fault(&mut self, closed: bool) -> (fault: StoreFault)
        ensures
            final(self).lost_view() == (old(self).lost_view() || closed),
            final(self).handle_view() == old(self).handle_view(),
            fault == if closed {
                StoreFault::ConnectionLost
            } else {
                StoreFault::StorageError
            },
    {
        if closed {
            self.lost = true;
        }
        fault_of(closed)
    }

    /// Lends the handle, or fails with `ConnectionLost` once the connection is gone.
    pub fn handle(&self) -> (r: Result<&H, StoreFault>)
        ensures
            match r {
                Ok(handle) => !self.lost_view() && *handle == self.handle_view(),
                Err(fault) => self.lost_view() && fault == StoreFault::ConnectionLost,
            },
    {
        if self.lost {
            Err(StoreFault::ConnectionLost)
        } else {
            Ok(&self.handle)
        }
    }
}

impl Registry<MemoryStore> {
    /// The table of the store behind the registry.
    pub open spec fn table(&self) -> Map<u64, Sign> {
        self.handle_view()@
    }

    /// Lets one request through to the store in memory. While the connection stands the
    /// store answers and its table moves on; once it is gone the request fails with
    /// `ConnectionLost` and the table stays as it was.
    pub fn perform(&mut self, request: &StoreRequest) -> (outcome: StoreOutcome)
        ensures
            final(self).lost_view() == old(self).lost_view(),
            old(self).lost_view() ==> final(self).table() == old(self).table() && outcome@
                == OutcomeView::Failed(StoreFault::ConnectionLost),
            !old(self).lost_view() ==> final(self).table() == table_after(
                old(self).table(),
                *request,
            ) && outcome@ == answer(old(self).table(), *request),
    {
        if self.lost {
            StoreOutcome::Failed(StoreFault::ConnectionLost)
        } else {
            self.handle.perform(request)
        }
    }
}

} // verus!
