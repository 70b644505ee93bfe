//! Interpreting the provider's response by HTTP status, and producing the
//! final user-visible output.
//!
//! The transport hands in the status code and, for a successful response,
//! the decoded event list (or the decoder's complaint). Everything past
//! that point is a pure decision: which notice to show, or which table to
//! print. Nothing here retries or paginates.

use vstd::prelude::*;

use crate::Event;
use crate::agenda::AgendaError;
use crate::agenda::render_agenda;
use crate::agenda::spec_agenda_rows;
use crate::agenda::spec_agenda_width;
use crate::agenda::spec_times_ok;
use crate::agenda::table_text;
use crate::config::ViewMode;

verus! {

/// What one invocation writes: a rendered table on standard output, or a
/// user-visible notice.
#[derive(Debug)]
pub enum FetchOutput {
    Table(String),
    Notice(String),
}

pub fn no_events_message() -> (r: String)
    ensures
        r@ == "No Events were found."@,
{
    "No Events were found.".to_owned()
}

pub fn not_implemented_message() -> (r: String)
    ensures
        r@ == "This command is not yet implemented."@,
{
    "This command is not yet implemented.".to_owned()
}

pub fn not_found_message() -> (r: String)
    ensures
        r@ == "Looks like the Calendar URL does not exists."@,
{
    "Looks like the Calendar URL does not exists.".to_owned()
}

pub fn unauthorized_message() -> (r: String)
    ensures
        r@ == "Looks like the Calendar URL is not public."@,
{
    "Looks like the Calendar URL is not public.".to_owned()
}

pub fn unexpected_message() -> (r: String)
    ensures
        r@ == "Uh oh! Something unexpected happened."@,
{
    "Uh oh! Something unexpected happened.".to_owned()
}

pub fn schema_mismatch_message(detail: &str) -> (r: String)
    ensures
        r@ == "The response didn't match the shape we expected. "@ + detail@,
{
    let mut s = "The response didn't match the shape we expected. ".to_owned();
    s.append(detail);
    s
}

/// Decides the output from the HTTP status and the decoded body: only a 200
/// response with a well-formed event array reaches the renderer; a 404, a
/// 401, any other status, and a body that did not decode each yield their
/// notice, and an empty event list yields a notice instead of an empty
/// table.
pub fn process_response(
    view: ViewMode,
    status: u16,
    body: &Result<Vec<Event>, String>,
    term_width: Option<usize>,
) -> (r: Result<FetchOutput, AgendaError>)
    ensures
        status == 404 ==> (r matches Ok(o) && o matches FetchOutput::Notice(m) && m@
            == "Looks like the Calendar URL does not exists."@),
        status == 401 ==> (r matches Ok(o) && o matches FetchOutput::Notice(m) && m@
            == "Looks like the Calendar URL is not public."@),
        status != 200 && status != 404 && status != 401 ==> (r matches Ok(o) && o matches
            FetchOutput::Notice(m) && m@ == "Uh oh! Something unexpected happened."@),
        body matches Err(e) ==> (status == 200 ==> (r matches Ok(o) && o matches
            FetchOutput::Notice(m) && m@ == "The response didn't match the shape we expected. "@
            + e@)),
        body matches Ok(evs) ==> (status == 200 && view is Calendar ==> (r matches Ok(o)
            && o matches FetchOutput::Notice(m) && m@
            == "This command is not yet implemented."@)),
        body matches Ok(evs) ==> (status == 200 && view is Agenda && evs@.len() == 0 ==> (r matches
            Ok(o) && o matches FetchOutput::Notice(m) && m@ == "No Events were found."@)),
        body matches Ok(evs) ==> (status == 200 && view is Agenda && evs@.len() > 0 ==> ({
            &&& r is Ok <==> spec_times_ok(evs@)
            &&& r matches Ok(o) ==> (o matches FetchOutput::Table(s) && s@ == table_text(
                spec_agenda_rows(evs@, Seq::<char>::empty()),
                spec_agenda_width(term_width),
            ))
        })),
{
    if status == 200 {
        match body {
            Err(e) => Ok(FetchOutput::Notice(schema_mismatch_message(e.as_str()))),
            Ok(events) => match view {
                ViewMode::Calendar => Ok(FetchOutput::Notice(not_implemented_message())),
                ViewMode::Agenda => {
                    if events.len() == 0 {
                        Ok(FetchOutput::Notice(no_events_message()))
                    } else {
                        match render_agenda(events, term_width) {
                            Ok(s) => Ok(FetchOutput::Table(s)),
                            Err(e) => Err(e),
                        }
                    }
                },
            },
        }
    } else if status == 404 {
        Ok(FetchOutput::Notice(not_found_message()))
    } else if status == 401 {
        Ok(FetchOutput::Notice(unauthorized_message()))
    } else {
        Ok(FetchOutput::Notice(unexpected_message()))
    }
}

} // verus!
