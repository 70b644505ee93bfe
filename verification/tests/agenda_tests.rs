use neocal::agenda::{agenda_rows, agenda_width, render_agenda, time_cell, AgendaError};
use neocal::Event;

fn all_day_event(start_date: &str, summary: &str) -> Event {
    Event {
        summary: summary.to_string(),
        description: String::new(),
        start_date: start_date.to_string(),
        start_date_time: String::new(),
        end_date: start_date.to_string(),
        end_date_time: String::new(),
        call: String::new(),
    }
}

#[test]
fn empty_timestamps_render_all_day() {
    assert_eq!(time_cell("", ""), Some("All Day".to_string()));
}

#[test]
fn timed_events_render_start_and_end() {
    let t = time_cell("2024-01-01T09:30:00+02:00", "2024-01-01T10:45:00+02:00");
    assert_eq!(t, Some("09:30 - 10:45".to_string()));
}

#[test]
fn times_render_in_their_own_offset() {
    let t = time_cell("2024-01-01T23:05:00Z", "2024-01-02T00:10:00Z");
    assert_eq!(t, Some("23:05 - 00:10".to_string()));
}

#[test]
fn malformed_timestamps_yield_nothing() {
    assert_eq!(time_cell("yesterday", "2024-01-01T10:00:00Z"), None);
    assert_eq!(time_cell("2024-01-01T10:00:00Z", "later"), None);
}

#[test]
fn dates_are_printed_once_per_group() {
    let events = vec![
        all_day_event("2024-01-01", "A"),
        all_day_event("2024-01-01", "B"),
        all_day_event("2024-01-02", "C"),
    ];
    let rows = agenda_rows(&events).unwrap();
    // One separator row before each new date: two in all.
    let separators = rows
        .iter()
        .filter(|r| r.date.is_empty() && r.time.is_empty() && r.title.is_empty())
        .count();
    assert_eq!(separators, 2);
    // The first date appears exactly once, on the row for A, not B.
    let dated: Vec<&str> = rows
        .iter()
        .filter(|r| r.date == "2024-01-01")
        .map(|r| r.title.as_str())
        .collect();
    assert_eq!(dated, vec!["A"]);
    // Shape: separator, A, B, separator, C.
    assert_eq!(rows.len(), 5);
    assert_eq!(rows[1].title, "A");
    assert_eq!(rows[2].title, "B");
    assert!(rows[2].date.is_empty());
    assert_eq!(rows[4].title, "C");
    assert_eq!(rows[4].date, "2024-01-02");
}

#[test]
fn call_link_goes_on_a_second_line() {
    let mut e = all_day_event("2024-01-01", "Standup");
    e.call = "https://example.com/room".to_string();
    let rows = agenda_rows(&vec![e]).unwrap();
    assert_eq!(rows[1].title, "Standup\nhttps://example.com/room");
}

#[test]
fn a_bad_timestamp_fails_the_whole_agenda() {
    let mut e = all_day_event("2024-01-01", "A");
    e.start_date_time = "not a time".to_string();
    e.end_date_time = "2024-01-01T10:00:00Z".to_string();
    let r = agenda_rows(&vec![e]);
    assert_eq!(r.unwrap_err(), AgendaError::InvalidTimestamp);
}

#[test]
fn column_width_reserves_the_date_and_time_margin() {
    assert_eq!(agenda_width(Some(100)), 40);
    assert_eq!(agenda_width(Some(60)), 0);
    assert_eq!(agenda_width(Some(30)), 0);
    assert_eq!(agenda_width(None), 80);
}

#[test]
fn rendered_table_holds_the_cells() {
    let events = vec![all_day_event("2024-01-01", "Winter planning")];
    let text = render_agenda(&events, Some(140)).unwrap();
    assert!(text.contains("Winter planning"));
    assert!(text.contains("All Day"));
    assert!(text.contains("2024-01-01"));
}
