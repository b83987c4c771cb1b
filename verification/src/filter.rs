//! The filter over a snapshot: a name fragment and at most one status
//! category.

use crate::systemd::{ServiceInfo, ServiceRecord};
use crate::text::{ascii_lower, has_substring, text_contains, trim_text, trimmed};
use vstd::prelude::*;

verus! {

/// A status category that a listing can be narrowed to.
#[derive(Debug, Clone, Copy, PartialEq, Eq, Structural)]
pub enum StatusFilter {
    Running,
    Exited,
    Dead,
    Active,
    Inactive,
}

/// Whether two texts are the same but for the case of their ASCII letters.
pub open spec fn same_ignoring_case(a: Seq<char>, b: Seq<char>) -> bool {
    ascii_lower(a) == ascii_lower(b)
}

/// Whether a record falls into a status category: `Running`, `Exited` and
/// `Dead` go by its sub-state, `Active` and `Inactive` by its active
/// state, each compared without regard to case.
pub open spec fn status_matches(record: ServiceRecord, filter: StatusFilter) -> bool {
    match filter {
        StatusFilter::Running => same_ignoring_case(record.sub_state, "running"@),
        StatusFilter::Exited => same_ignoring_case(record.sub_state, "exited"@),
        StatusFilter::Dead => same_ignoring_case(record.sub_state, "dead"@),
        StatusFilter::Active => same_ignoring_case(record.active_state, "active"@),
        StatusFilter::Inactive => same_ignoring_case(record.active_state, "inactive"@),
    }
}

/// Tells whether a service falls into a status category.
pub fn matches_status_filter(service: &ServiceInfo, filter: StatusFilter) -> (r: bool)
    ensures
        r == status_matches(service@, filter),
{
    match filter {
        StatusFilter::Running => service.sub_state.as_str().eq_ignore_ascii_case("running"),
        StatusFilter::Exited => service.sub_state.as_str().eq_ignore_ascii_case("exited"),
        StatusFilter::Dead => service.sub_state.as_str().eq_ignore_ascii_case("dead"),
        StatusFilter::Active => service.active_state.as_str().eq_ignore_ascii_case("active"),
        StatusFilter::Inactive => service.active_state.as_str().eq_ignore_ascii_case("inactive"),
    }
}

/// The fragment that a name is searched for: the filter's text, trimmed
/// and in lower case.
pub open spec fn needle_of(text: Seq<char>) -> Seq<char> {
    ascii_lower(trimmed(text))
}

/// Whether a name holds a fragment, without regard to case; the empty
/// fragment is held by every name.
pub open spec fn name_holds(name: Seq<char>, needle: Seq<char>) -> bool {
    needle.len() == 0 || has_substring(ascii_lower(name), needle)
}

/// Whether a record passes an optional status category.
pub open spec fn status_passes(record: ServiceRecord, status: Option<StatusFilter>) -> bool {
    match status {
        Some(filter) => status_matches(record, filter),
        None => true,
    }
}

/// A filter as a mathematical value.
pub struct FilterView {
    pub name: Seq<char>,
    pub status: Option<StatusFilter>,
}

/// Whether a record passes a filter: its name holds the filter's
/// fragment and it falls into the selected category, if one is selected.
pub open spec fn filter_matches(record: ServiceRecord, filter: FilterView) -> bool {
    name_holds(record.name, needle_of(filter.name)) && status_passes(record, filter.status)
}

/// The selection after `filter` is chosen: choosing the selected category
/// again clears it, any other choice replaces it.
pub open spec fn toggled(selected: Option<StatusFilter>, filter: StatusFilter) -> Option<
    StatusFilter,
> {
    if selected == Some(filter) {
        None
    } else {
        Some(filter)
    }
}

/// The fragment that names are searched for under a filter text.
pub fn needle(text: &str) -> (r: String)
    ensures
        r@ == needle_of(text@),
{
    trim_text(text).to_ascii_lowercase()
}

/// Tells whether a service passes a prepared fragment and an optional
/// status category.
pub fn passes(service: &ServiceInfo, needle: &str, status: Option<StatusFilter>) -> (r: bool)
    ensures
        r == (name_holds(service@.name, needle@) && status_passes(service@, status)),
{
    let name_ok = needle.is_empty() || text_contains(
        service.name.as_str().to_ascii_lowercase().as_str(),
        needle,
    );
    let status_ok = match status {
        Some(filter) => matches_status_filter(service, filter),
        None => true,
    };
    name_ok && status_ok
}

/// What narrows a listing: a name fragment and at most one status
/// category.
#[derive(Debug, Clone, PartialEq, Eq)]
pub struct FilterState {
    pub name: String,
    pub status: Option<StatusFilter>,
}

impl View for FilterState {
    type V = FilterView;

    open spec fn view(&self) -> FilterView {
        FilterView { name: self.name@, status: self.status }
    }
}

impl FilterState {
    /// The filter that every record passes.
    pub fn new() -> (r: FilterState)
        ensures
            r@ == (FilterView { name: Seq::empty(), status: None }),
    {
        FilterState { name: String::new(), status: None }
    }

    /// Replaces the name fragment.
    pub fn set_name(&mut self, text: String)
        ensures
            final(self)@ == (FilterView { name: text@, status: old(self)@.status }),
    {
        self.name = text;
    }

    /// Chooses a status category; choosing the selected one clears it.
    pub fn toggle_status(&mut self, filter: StatusFilter)
        ensures
            final(self)@ == (FilterView {
                name: old(self)@.name,
                status: toggled(old(self)@.status, filter),
            }),
    {
        self.status = match self.status {
            Some(selected) if selected == filter => None,
            _ => Some(filter),
        };
    }

    /// Tells whether a category is the selected one.
    pub fn is_selected(&self, filter: StatusFilter) -> (r: bool)
        ensures
            r == (self@.status == Some(filter)),
    {
        match self.status {
            Some(selected) => selected == filter,
            None => false,
        }
    }

    /// Tells whether a service passes the filter.
    pub fn matches(&self, service: &ServiceInfo) -> (r: bool)
        ensures
            r == filter_matches(service@, self@),
    {
        let fragment = needle(self.name.as_str());
        passes(service, fragment.as_str(), self.status)
    }
}

/// The filter with no name fragment and no category lets every record
/// pass.
pub proof fn lemma_empty_filter_matches_all(record: ServiceRecord)
    ensures
        filter_matches(record, FilterView { name: Seq::empty(), status: None }),
{
}

} // verus!
