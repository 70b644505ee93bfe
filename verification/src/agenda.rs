//! Laying out a flat event list as a day-grouped agenda.
//!
//! Events are taken in the order received. Whenever an event's start date
//! differs from the previous one's, a blank separator row is emitted and the
//! date is printed in the first column; within a run of same-date events the
//! first column stays empty. The time-span column shows `HH:MM - HH:MM` for
//! timed events and `All Day` for all-day ones.

use vstd::prelude::*;

use crate::Event;

verus! {

pub uninterp spec fn hhmm_of(s: Seq<char>) -> Option<Seq<char>>;

/// Relies on `chrono::DateTime::parse_from_rfc3339` and formatting with
/// `%H:%M`: the hour and minute of the timestamp in its own encoded offset,
/// or `None` when the string is not a valid RFC 3339 timestamp; a function
/// of the characters alone.
#[verifier::external_body]
fn rfc3339_hhmm(s: &str) -> (r: Option<String>)
    ensures
        r is Some <==> hhmm_of(s@) is Some,
        r matches Some(h) ==> (hhmm_of(s@) matches Some(hh) && hh == h@),
{
    chrono::DateTime::parse_from_rfc3339(s).ok().map(|d| d.format("%H:%M").to_string())
}

/// The time-span column: `HH:MM - HH:MM` when both timestamps are present,
/// the all-day marker when they are absent, and nothing when a present
/// timestamp does not parse.
pub open spec fn spec_time_cell(sdt: Seq<char>, edt: Seq<char>) -> Option<Seq<char>> {
    if sdt.len() > 0 && edt.len() > 0 {
        match (hhmm_of(sdt), hhmm_of(edt)) {
            (Some(a), Some(b)) => Some(a + " - "@ + b),
            _ => None,
        }
    } else {
        Some("All Day"@)
    }
}

pub fn time_cell(sdt: &str, edt: &str) -> (r: Option<String>)
    ensures
        r matches Some(v) ==> spec_time_cell(sdt@, edt@) == Some(v@),
        r is None ==> spec_time_cell(sdt@, edt@) is None,
{
    if !sdt.is_empty() && !edt.is_empty() {
        match (rfc3339_hhmm(sdt), rfc3339_hhmm(edt)) {
            (Some(a), Some(b)) => {
                let mut out = a;
                out.append(" - ");
                out.append(b.as_str());
                Some(out)
            },
            _ => None,
        }
    } else {
        Some("All Day".to_owned())
    }
}

/// One rendered row: the three cell texts, left to right.
#[derive(Debug)]
pub struct AgendaRow {
    pub date: String,
    pub time: String,
    pub title: String,
}

pub open spec fn row_view(r: AgendaRow) -> (Seq<char>, Seq<char>, Seq<char>) {
    (r.date@, r.time@, r.title@)
}

pub open spec fn rows_view(rs: Seq<AgendaRow>) -> Seq<(Seq<char>, Seq<char>, Seq<char>)> {
    rs.map(|i: int, r: AgendaRow| row_view(r))
}

pub open spec fn sep_row() -> (Seq<char>, Seq<char>, Seq<char>) {
    (Seq::<char>::empty(), Seq::<char>::empty(), Seq::<char>::empty())
}

/// The title cell: the summary, and the call link on a second line when one
/// is present.
pub open spec fn spec_title(e: Event) -> Seq<char> {
    if e.call@.len() > 0 {
        e.summary@ + "\n"@ + e.call@
    } else {
        e.summary@
    }
}

pub open spec fn spec_time_value(e: Event) -> Seq<char> {
    match spec_time_cell(e.start_date_time@, e.end_date_time@) {
        Some(v) => v,
        None => Seq::<char>::empty(),
    }
}

/// The data row for `e`, after an event dated `prev`: the date cell is
/// filled only when the date changes.
pub open spec fn spec_data_row(e: Event, prev: Seq<char>) -> (Seq<char>, Seq<char>, Seq<char>) {
    (
        if e.start_date@ == prev {
            Seq::<char>::empty()
        } else {
            e.start_date@
        },
        spec_time_value(e),
        spec_title(e),
    )
}

/// The agenda rows for `events`, the previous event's date being `prev`:
/// each change of date yields a separator row and a dated row.
pub open spec fn spec_agenda_rows(events: Seq<Event>, prev: Seq<char>) -> Seq<
    (Seq<char>, Seq<char>, Seq<char>),
>
    decreases events.len(),
{
    if events.len() == 0 {
        Seq::empty()
    } else {
        let e = events[0];
        let rest = spec_agenda_rows(events.drop_first(), e.start_date@);
        if e.start_date@ == prev {
            seq![spec_data_row(e, prev)] + rest
        } else {
            seq![sep_row(), spec_data_row(e, prev)] + rest
        }
    }
}

/// Every present timestamp pair in `events` parses.
pub open spec fn spec_times_ok(events: Seq<Event>) -> bool {
    forall|i: int|
        0 <= i < events.len() ==> #[trigger] spec_time_cell(
            events[i].start_date_time@,
            events[i].end_date_time@,
        ) is Some
}

#[derive(Clone, Copy, Debug, PartialEq, Eq, Structural)]
pub enum AgendaError {
    InvalidTimestamp,
}

impl AgendaError {
    pub fn message(&self) -> (r: String)
        ensures
            r@ == "Event timestamps could not be parsed as RFC 3339."@,
    {
        "Event timestamps could not be parsed as RFC 3339.".to_owned()
    }
}

fn title_of(e: &Event) -> (r: String)
    ensures
        r@ == spec_title(*e),
{
    if !e.call.as_str().is_empty() {
        let mut s = e.summary.clone();
        s.append("\n");
        s.append(e.call.as_str());
        s
    } else {
        e.summary.clone()
    }
}

fn push_rows(events: &Vec<Event>, i: usize, prev: &String, out: &mut Vec<AgendaRow>) -> (ok: bool)
    requires
        i <= events@.len(),
    ensures
        ok <==> spec_times_ok(events@.skip(i as int)),
        ok ==> rows_view(final(out)@) == rows_view(old(out)@) + spec_agenda_rows(
            events@.skip(i as int),
            prev@,
        ),
    decreases events@.len() - i,
{
    if i == events.len() {
        proof {
            assert(events@.skip(i as int) =~= Seq::<Event>::empty());
            assert(rows_view(final(out)@) =~= rows_view(old(out)@) + spec_agenda_rows(
                events@.skip(i as int),
                prev@,
            ));
        }
        true
    } else {
        proof {
            assert(events@.skip(i as int)[0] == events@[i as int]);
            assert(events@.skip(i as int).drop_first() =~= events@.skip(i as int + 1));
        }
        let e = &events[i];
        match time_cell(e.start_date_time.as_str(), e.end_date_time.as_str()) {
            None => {
                proof {
                    assert(!spec_times_ok(events@.skip(i as int))) by {
                        assert(spec_time_cell(
                            events@.skip(i as int)[0].start_date_time@,
                            events@.skip(i as int)[0].end_date_time@,
                        ) is None);
                    }
                }
                false
            },
            Some(t) => {
                let ghost out0 = out@;
                if !(e.start_date == *prev) {
                    out.push(
                        AgendaRow { date: String::new(), time: String::new(), title: String::new() },
                    );
                    out.push(
                        AgendaRow { date: e.start_date.clone(), time: t, title: title_of(e) },
                    );
                    proof {
                        assert(rows_view(out@) =~= rows_view(out0) + seq![
                            sep_row(),
                            spec_data_row(events@[i as int], prev@),
                        ]);
                    }
                } else {
                    out.push(AgendaRow { date: String::new(), time: t, title: title_of(e) });
                    proof {
                        assert(rows_view(out@) =~= rows_view(out0) + seq![
                            spec_data_row(events@[i as int], prev@),
                        ]);
                    }
                }
                let ghost out1 = out@;
                let ok = push_rows(events, i + 1, &e.start_date, out);
                proof {
                    if ok {
                        assert(rows_view(out@) == rows_view(out1) + spec_agenda_rows(
                            events@.skip(i as int + 1),
                            events@[i as int].start_date@,
                        ));
                        assert(rows_view(out@) =~= rows_view(out0) + spec_agenda_rows(
                            events@.skip(i as int),
                            prev@,
                        ));
                        assert(spec_times_ok(events@.skip(i as int))) by {
                            assert(forall|j: int|
                                0 < j < events@.skip(i as int).len() ==> events@.skip(i as int)[j]
                                    == events@.skip(i as int + 1)[j - 1]);
                        }
                    } else {
                        assert(!spec_times_ok(events@.skip(i as int))) by {
                            let k = choose|j: int|
                                0 <= j < events@.skip(i as int + 1).len() && !(#[trigger] spec_time_cell(
                                    events@.skip(i as int + 1)[j].start_date_time@,
                                    events@.skip(i as int + 1)[j].end_date_time@,
                                ) is Some);
                            assert(events@.skip(i as int)[k + 1] == events@.skip(i as int + 1)[k]);
                        }
                    }
                }
                ok
            },
        }
    }
}

/// The agenda rows for `events`, or an error when an event carries a
/// timestamp that does not parse.
pub fn agenda_rows(events: &Vec<Event>) -> (r: Result<Vec<AgendaRow>, AgendaError>)
    ensures
        r is Ok <==> spec_times_ok(events@),
        r matches Ok(rows) ==> rows_view(rows@) == spec_agenda_rows(
            events@,
            Seq::<char>::empty(),
        ),
{
    let mut out: Vec<AgendaRow> = Vec::new();
    let empty = String::new();
    let ok = push_rows(events, 0, &empty, &mut out);
    proof {
        assert(events@.skip(0) =~= events@);
    }
    if ok {
        proof {
            assert(rows_view(out@) =~= Seq::empty() + spec_agenda_rows(
                events@,
                Seq::<char>::empty(),
            ));
            assert(rows_view(out@) =~= spec_agenda_rows(events@, Seq::<char>::empty()));
        }
        Ok(out)
    } else {
        Err(AgendaError::InvalidTimestamp)
    }
}

pub uninterp spec fn table_text(
    rows: Seq<(Seq<char>, Seq<char>, Seq<char>)>,
    width: usize,
) -> Seq<char>;

/// Relies on `term_table`'s `Table`, `Row` and `TableCell`: the blank-style
/// three-column layout of the rows (date, right-aligned time span,
/// left-aligned title), each column capped at `width` characters; a function
/// of the cell texts and the width alone.
#[verifier::external_body]
fn render_table(rows: &Vec<AgendaRow>, width: usize) -> (r: String)
    ensures
        r@ == table_text(rows_view(rows@), width),
{
    let mut table = term_table::Table::new();
    table.style = term_table::TableStyle::blank();
    table.max_column_width = width;
    for row in rows.iter() {
        table.add_row(term_table::row::Row::new(vec![
            term_table::table_cell::TableCell::new(&row.date),
            term_table::table_cell::TableCell::new_with_alignment(&row.time, 1, term_table::table_cell::Alignment::Right),
            term_table::table_cell::TableCell::new_with_alignment(&row.title, 1, term_table::table_cell::Alignment::Left),
        ]));
    }
    table.render()
}

/// The column-width cap: the terminal width minus the 60 columns reserved
/// for the date and time columns, 80 when the terminal size is unknown, and
/// zero on a terminal narrower than the reserved margin (where the reference
/// behavior was undefined).
pub open spec fn spec_agenda_width(w: Option<usize>) -> usize {
    match w {
        Some(x) => if x >= 60 {
            (x - 60) as usize
        } else {
            0usize
        },
        None => 80usize,
    }
}

pub fn agenda_width(w: Option<usize>) -> (r: usize)
    ensures
        r == spec_agenda_width(w),
{
    match w {
        Some(x) => if x >= 60 {
            x - 60
        } else {
            0
        },
        None => 80,
    }
}

/// The rendered agenda table for `events`, the columns capped by the
/// terminal width.
pub fn render_agenda(events: &Vec<Event>, term_width: Option<usize>) -> (r: Result<
    String,
    AgendaError,
>)
    ensures
        r is Ok <==> spec_times_ok(events@),
        r matches Ok(s) ==> s@ == table_text(
            spec_agenda_rows(events@, Seq::<char>::empty()),
            spec_agenda_width(term_width),
        ),
{
    let rows = match agenda_rows(events) {
        Ok(rows) => rows,
        Err(e) => {
            return Err(e);
        },
    };
    let width = agenda_width(term_width);
    Ok(render_table(&rows, width))
}

} // verus!
