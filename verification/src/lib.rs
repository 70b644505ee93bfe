//! Core of a command-line calendar viewer: resolving a calendar query from
//! configuration and flags, computing relative date ranges on the civil
//! calendar, building the request query string, and laying out the fetched
//! events as a day-grouped agenda.

use vstd::prelude::*;

pub mod agenda;
pub mod config;
pub mod dates;
pub mod digits;
pub mod query;
pub mod response;

verus! {

/// One calendar event, as the provider returns it.
///
/// `start_date_time` and `end_date_time` are either both RFC 3339 timestamps
/// or both empty; the empty pair marks an all-day event.
#[derive(Clone, Debug)]
pub struct Event {
    pub summary: String,
    pub description: String,
    pub start_date: String,
    pub start_date_time: String,
    pub end_date: String,
    pub end_date_time: String,
    pub call: String,
}

} // verus!
