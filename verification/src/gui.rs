//! The state behind the service window: what each event changes, which
//! task it asks for, and which event a finished task ends in.

use crate::decode::records;
use crate::filter::{filter_matches, needle, needle_of, passes, toggled, FilterState, FilterView, StatusFilter};
use crate::sequences::lemma_filter_step;
use crate::store::{ServiceStore, StoreState};
use crate::systemd::{
    is_listing_of, is_mutation_of, list_services, restart_service, start_service, stop_service,
    ProcessOutput, Request, ServiceError, ServiceInfo, ServiceRecord,
};
use vstd::prelude::*;

verus! {

/// An event that the window state reacts to.
#[derive(Debug, PartialEq, Eq)]
pub enum Message {
    RefreshServices,
    FilterChanged(String),
    ToggleStatusFilter(StatusFilter),
    StartService(String),
    StopService(String),
    RestartService(String),
    /// A listing has come back.
    ServicesLoaded(Result<Vec<ServiceInfo>, ServiceError>),
    /// A command that changes a unit has come back.
    MutationFinished(Result<(), ServiceError>),
}

/// A command that the window asks its caller to run.
#[derive(Debug, Clone, PartialEq, Eq)]
pub enum Task {
    /// List the services.
    LoadServices,
    /// Start the named unit.
    Start(String),
    /// Stop the named unit.
    Stop(String),
    /// Restart the named unit.
    Restart(String),
}

impl Task {
    /// The request that carries the task out.
    pub fn request(&self) -> (r: Request)
        ensures
            match self {
                Task::LoadServices => r is ListUnits,
                Task::Start(name) => r matches Request::Start(unit) && unit@ == name@,
                Task::Stop(name) => r matches Request::Stop(unit) && unit@ == name@,
                Task::Restart(name) => r matches Request::Restart(unit) && unit@ == name@,
            },
    {
        match self {
            Task::LoadServices => Request::ListUnits,
            Task::Start(name) => Request::Start(name.clone()),
            Task::Stop(name) => Request::Stop(name.clone()),
            Task::Restart(name) => Request::Restart(name.clone()),
        }
    }

    /// The event that a run of the task's request ends in: the listing,
    /// or how the change to the unit went.
    pub fn report(&self, run: Result<ProcessOutput, String>) -> (r: Message)
        ensures
            match self {
                Task::LoadServices => r matches Message::ServicesLoaded(result)
                    && is_listing_of(result, run),
                Task::Start(_) => r matches Message::MutationFinished(result) && is_mutation_of(
                    result,
                    run,
                    "Failed to start service: "@,
                ),
                Task::Stop(_) => r matches Message::MutationFinished(result) && is_mutation_of(
                    result,
                    run,
                    "Failed to stop service: "@,
                ),
                Task::Restart(_) => r matches Message::MutationFinished(result) && is_mutation_of(
                    result,
                    run,
                    "Failed to restart service: "@,
                ),
            },
    {
        match self {
            Task::LoadServices => Message::ServicesLoaded(list_services(run)),
            Task::Start(_) => Message::MutationFinished(start_service(run)),
            Task::Stop(_) => Message::MutationFinished(stop_service(run)),
            Task::Restart(_) => Message::MutationFinished(restart_service(run)),
        }
    }
}

/// The window state as a mathematical value.
pub struct GuiView {
    pub store: StoreState,
    pub filter: FilterView,
}

/// The window state: the record store and the filter over it.
#[derive(Debug, Clone, PartialEq, Eq)]
pub struct SystemdServiceGui {
    pub store: ServiceStore,
    pub filter: FilterState,
}

impl View for SystemdServiceGui {
    type V = GuiView;

    open spec fn view(&self) -> GuiView {
        GuiView { store: self.store@, filter: self.filter@ }
    }
}

/// The records of a snapshot that pass a filter, in the snapshot's order.
pub open spec fn visible(snapshot: Seq<ServiceRecord>, filter: FilterView) -> Seq<ServiceRecord> {
    snapshot.filter(|record: ServiceRecord| filter_matches(record, filter))
}

impl GuiView {
    /// The records on display: those of the current snapshot that pass
    /// the filter; none before the first listing.
    pub open spec fn shown(self) -> Seq<ServiceRecord> {
        match self.store.snapshot {
            Some(snapshot) => visible(snapshot, self.filter),
            None => Seq::empty(),
        }
    }
}

/// What the body of the window shows, as a mathematical value.
pub enum BodyView {
    Loading,
    NoServices,
    NoMatches,
    Rows(Seq<ServiceRecord>),
}

impl GuiView {
    /// What the body of the window shows: that a refresh is under way;
    /// else that there are no services, where none are loaded; else that
    /// none pass the filter; else the records that do.
    pub open spec fn body(self) -> BodyView {
        if self.store.loading {
            BodyView::Loading
        } else if self.store.snapshot is None || self.store.snapshot->0.len() == 0 {
            BodyView::NoServices
        } else if self.shown().len() == 0 {
            BodyView::NoMatches
        } else {
            BodyView::Rows(self.shown())
        }
    }
}

/// What the body of the window shows.
#[derive(Debug, Clone, PartialEq, Eq)]
pub enum Body<'a> {
    Loading,
    NoServices,
    NoMatches,
    Rows(Vec<&'a ServiceInfo>),
}

impl<'a> View for Body<'a> {
    type V = BodyView;

    open spec fn view(&self) -> BodyView {
        match self {
            Body::Loading => BodyView::Loading,
            Body::NoServices => BodyView::NoServices,
            Body::NoMatches => BodyView::NoMatches,
            Body::Rows(rows) => BodyView::Rows(borrowed_records(rows@)),
        }
    }
}

/// The records that a sequence of borrowed services stands for.
pub open spec fn borrowed_records(services: Seq<&ServiceInfo>) -> Seq<ServiceRecord> {
    services.map_values(|service: &ServiceInfo| service@)
}

impl SystemdServiceGui {
    /// The state at start: nothing loaded, nothing filtered, and a first
    /// listing asked for.
    pub fn new() -> (r: (SystemdServiceGui, Task))
        ensures
            r.0@.store == (StoreState { snapshot: None, loading: false, last_error: None }),
            r.0@.filter == (FilterView { name: Seq::empty(), status: None }),
            r.1 is LoadServices,
    {
        let state = SystemdServiceGui { store: ServiceStore::new(), filter: FilterState::new() };
        (state, Task::LoadServices)
    }

    /// The window's title.
    pub fn title(&self) -> (r: String)
        ensures
            r@ == "Systemd Service GUI"@,
    {
        "Systemd Service GUI".to_owned()
    }

    /// Reacts to an event and says which task, if any, is to be run. A
    /// refresh or a change to a unit asks for the matching task and
    /// changes nothing yet; a filter event changes the filter alone; a
    /// listing that came back replaces the snapshot, a failure of any
    /// kind is recorded beside the snapshot as it was; a change that went
    /// through asks for a fresh listing.
    pub fn update(&mut self, message: Message) -> (r: Option<Task>)
        ensures
            match message {
                Message::RefreshServices => final(self)@ == old(self)@
                    && r matches Some(Task::LoadServices),
                Message::FilterChanged(text) => final(self)@ == (GuiView {
                    filter: FilterView { name: text@, status: old(self)@.filter.status },
                    ..old(self)@
                }) && r is None,
                Message::ToggleStatusFilter(filter) => final(self)@ == (GuiView {
                    filter: FilterView {
                        name: old(self)@.filter.name,
                        status: toggled(old(self)@.filter.status, filter),
                    },
                    ..old(self)@
                }) && r is None,
                Message::StartService(name) => final(self)@ == old(self)@ && (r matches Some(
                    Task::Start(unit),
                ) && unit@ == name@),
                Message::StopService(name) => final(self)@ == old(self)@ && (r matches Some(
                    Task::Stop(unit),
                ) && unit@ == name@),
                Message::RestartService(name) => final(self)@ == old(self)@ && (r matches Some(
                    Task::Restart(unit),
                ) && unit@ == name@),
                Message::ServicesLoaded(result) => final(self)@ == (GuiView {
                    store: old(self)@.store.finished(result),
                    ..old(self)@
                }) && r is None,
                Message::MutationFinished(Ok(_)) => final(self)@ == old(self)@
                    && r matches Some(Task::LoadServices),
                Message::MutationFinished(Err(error)) => final(self)@ == (GuiView {
                    store: old(self)@.store.failed(error@.message()),
                    ..old(self)@
                }) && r is None,
            },
    {
        match message {
            Message::RefreshServices => Some(Task::LoadServices),
            Message::FilterChanged(text) => {
                self.filter.set_name(text);
                None
            },
            Message::ToggleStatusFilter(filter) => {
                self.filter.toggle_status(filter);
                None
            },
            Message::StartService(name) => Some(Task::Start(name)),
            Message::StopService(name) => Some(Task::Stop(name)),
            Message::RestartService(name) => Some(Task::Restart(name)),
            Message::ServicesLoaded(result) => {
                self.store.finish_refresh(result);
                None
            },
            Message::MutationFinished(Ok(_)) => Some(Task::LoadServices),
            Message::MutationFinished(Err(error)) => {
                self.store.fail(&error);
                None
            },
        }
    }

    /// The services on display: those of the current snapshot that pass
    /// the filter, in the snapshot's order.
    pub fn filtered_services(&self) -> (r: Vec<&ServiceInfo>)
        ensures
            borrowed_records(r@) == self@.shown(),
    {
        let mut out: Vec<&ServiceInfo> = Vec::new();
        let services = match &self.store.snapshot {
            Some(services) => services,
            None => {
                return out;
            },
        };
        let fragment = needle(self.filter.name.as_str());
        let ghost all = records(services@);
        let ghost pred = |record: ServiceRecord| filter_matches(record, self.filter@);
        let mut i: usize = 0;
        while i < services.len()
            invariant
                i <= services.len(),
                all == records(services@),
                fragment@ == needle_of(self.filter@.name),
                pred == |record: ServiceRecord| filter_matches(record, self.filter@),
                borrowed_records(out@) == all.take(i as int).filter(pred),
            decreases services.len() - i,
        {
            proof {
                lemma_filter_step(all, pred, i as int);
            }
            if passes(&services[i], fragment.as_str(), self.filter.status) {
                out.push(&services[i]);
            }
            i += 1;
        }
        assert(all.take(i as int) == all);
        out
    }

    /// Decides what the body of the window shows.
    pub fn body(&self) -> (r: Body<'_>)
        ensures
            r@ == self@.body(),
    {
        if self.store.loading {
            return Body::Loading;
        }
        let loaded = match &self.store.snapshot {
            Some(services) => services.len() > 0,
            None => false,
        };
        if !loaded {
            return Body::NoServices;
        }
        let rows = self.filtered_services();
        if rows.len() == 0 {
            Body::NoMatches
        } else {
            Body::Rows(rows)
        }
    }
}

/// Filtering keeps the snapshot's order and takes each record on its
/// own: the records shown of one run followed by another are those shown
/// of the first followed by those shown of the second. Every record
/// shown passes the filter, and every record that passes is shown.
pub proof fn lemma_visible_keeps_order(
    first: Seq<ServiceRecord>,
    second: Seq<ServiceRecord>,
    filter: FilterView,
)
    ensures
        visible(first + second, filter) == visible(first, filter) + visible(second, filter),
        forall|i: int|
            0 <= i < visible(first, filter).len() ==> filter_matches(
                #[trigger] visible(first, filter)[i],
                filter,
            ),
        forall|i: int|
            0 <= i < first.len() && filter_matches(first[i], filter) ==> visible(
                first,
                filter,
            ).contains(#[trigger] first[i]),
        visible(first, filter).len() <= first.len(),
{
    let pred = |record: ServiceRecord| filter_matches(record, filter);
    Seq::filter_distributes_over_add(first, second, pred);
    first.lemma_filter_len(pred);
    assert forall|i: int| 0 <= i < visible(first, filter).len() implies filter_matches(
        #[trigger] visible(first, filter)[i],
        filter,
    ) by {
        first.lemma_filter_pred(pred, i);
    }
    assert forall|i: int| 0 <= i < first.len() && filter_matches(first[i], filter) implies visible(
        first,
        filter,
    ).contains(#[trigger] first[i]) by {
        first.lemma_filter_contains(pred, i);
    }
}

} // verus!
