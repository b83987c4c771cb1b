//! The record store: the last listing that succeeded, replaced as a
//! whole by each refresh.

use crate::decode::records;
use crate::systemd::{ServiceError, ServiceInfo, ServiceRecord};
use vstd::prelude::*;

verus! {

/// A store as a mathematical value.
pub struct StoreState {
    /// The last listing that succeeded; nothing before the first.
    pub snapshot: Option<Seq<ServiceRecord>>,
    pub loading: bool,
    pub last_error: Option<Seq<char>>,
}

impl StoreState {
    /// The store after a refresh that succeeded with `found`.
    pub open spec fn loaded(self, found: Seq<ServiceRecord>) -> StoreState {
        StoreState { snapshot: Some(found), loading: false, last_error: None }
    }

    /// The store after an operation that failed with `text`: the snapshot
    /// stays as it was.
    pub open spec fn failed(self, text: Seq<char>) -> StoreState {
        StoreState { snapshot: self.snapshot, loading: false, last_error: Some(text) }
    }

    /// The store after a refresh that ended in `result`.
    pub open spec fn finished(self, result: Result<Vec<ServiceInfo>, ServiceError>) -> StoreState {
        match result {
            Ok(services) => self.loaded(records(services@)),
            Err(error) => self.failed(error@.message()),
        }
    }
}

/// The last listing that succeeded, with what a display needs to know
/// about the refresh in progress.
#[derive(Debug, Clone, PartialEq, Eq)]
pub struct ServiceStore {
    pub snapshot: Option<Vec<ServiceInfo>>,
    pub loading: bool,
    pub last_error: Option<String>,
}

impl View for ServiceStore {
    type V = StoreState;

    open spec fn view(&self) -> StoreState {
        StoreState {
            snapshot: match self.snapshot {
                Some(services) => Some(records(services@)),
                None => None,
            },
            loading: self.loading,
            last_error: match self.last_error {
                Some(text) => Some(text@),
                None => None,
            },
        }
    }
}

impl ServiceStore {
    /// A store that nothing has been loaded into.
    pub fn new() -> (r: ServiceStore)
        ensures
            r@ == (StoreState { snapshot: None, loading: false, last_error: None }),
    {
        ServiceStore { snapshot: None, loading: false, last_error: None }
    }

    /// Puts a new snapshot in the place of the current one.
    pub fn replace(&mut self, snapshot: Vec<ServiceInfo>)
        ensures
            final(self)@ == (StoreState { snapshot: Some(records(snapshot@)), ..old(self)@ }),
    {
        self.snapshot = Some(snapshot);
    }

    /// The current snapshot; nothing before the first refresh that
    /// succeeded.
    pub fn current(&self) -> (r: Option<&Vec<ServiceInfo>>)
        ensures
            match r {
                Some(services) => self@.snapshot == Some(records(services@)),
                None => self@.snapshot is None,
            },
    {
        self.snapshot.as_ref()
    }

    /// Marks a refresh as under way or not.
    pub fn set_loading(&mut self, loading: bool)
        ensures
            final(self)@ == (StoreState { loading, ..old(self)@ }),
    {
        self.loading = loading;
    }

    /// Records that an operation failed, and leaves the snapshot alone.
    pub fn fail(&mut self, error: &ServiceError)
        ensures
            final(self)@ == old(self)@.failed(error@.message()),
    {
        self.loading = false;
        self.last_error = Some(error.message());
    }

    /// Takes in the outcome of a refresh: a listing replaces the snapshot
    /// and clears the error; a failure is recorded and the snapshot stays.
    pub fn finish_refresh(&mut self, result: Result<Vec<ServiceInfo>, ServiceError>)
        ensures
            final(self)@ == old(self)@.finished(result),
            result is Err ==> final(self)@.snapshot == old(self)@.snapshot,
    {
        match result {
            Ok(services) => {
                self.loading = false;
                self.snapshot = Some(services);
                self.last_error = None;
            },
            Err(error) => {
                self.fail(&error);
            },
        }
    }
}

/// A refresh that fails leaves the snapshot as it was, whatever it held,
/// and puts the failure's text beside it.
pub proof fn lemma_failed_refresh_keeps_snapshot(
    store: StoreState,
    result: Result<Vec<ServiceInfo>, ServiceError>,
)
    requires
        result is Err,
    ensures
        store.finished(result).snapshot == store.snapshot,
        store.finished(result).last_error == Some(result->Err_0@.message()),
{
}

} // verus!
