use neocal::config::{
    resolve_query, resolve_range, validate_option_value, Config, ConfigItem, ConfigSection, Flags,
    ResolveError, ViewMode,
};
use neocal::dates::DateRange;

fn section(name: &str, items: &[(&str, &str)]) -> ConfigSection {
    ConfigSection {
        name: name.to_string(),
        items: items
            .iter()
            .map(|(k, v)| ConfigItem { key: k.to_string(), value: v.to_string() })
            .collect(),
    }
}

fn sample_config() -> Config {
    Config {
        sections: vec![
            section("neocal", &[("default", "work"), ("mode", "agenda"), ("timezone", "UTC")]),
            section("work", &[("endpoint", "https://example.com/work"), ("timezone", "Europe/Berlin")]),
            section("personal", &[("endpoint", "https://example.com/personal")]),
        ],
    }
}

fn no_flags() -> Flags {
    Flags {
        calendar: None,
        search: None,
        timezone: None,
        weeks: 0,
        week: false,
        today: false,
        tomorrow: false,
        mode: None,
    }
}

#[test]
fn validate_rejects_padded_values() {
    assert!(validate_option_value("work").is_ok());
    assert!(validate_option_value("").is_ok());
    assert!(validate_option_value("two words").is_ok());
    let err = validate_option_value(" work").unwrap_err();
    assert_eq!(err, "Values cannot have leading and trailing space");
    assert!(validate_option_value("work ").is_err());
    assert!(validate_option_value("\twork\n").is_err());
}

#[test]
fn default_calendar_is_used_without_a_flag() {
    let q = resolve_query(&sample_config(), &no_flags()).unwrap();
    assert_eq!(q.calendar, "work");
    assert_eq!(q.endpoint, "https://example.com/work");
    assert_eq!(q.mode, ViewMode::Agenda);
}

#[test]
fn calendar_flag_beats_the_default_and_ignores_case() {
    let mut f = no_flags();
    f.calendar = Some("Personal".to_string());
    let q = resolve_query(&sample_config(), &f).unwrap();
    assert_eq!(q.calendar, "Personal");
    assert_eq!(q.endpoint, "https://example.com/personal");
}

#[test]
fn missing_default_calendar_is_fatal() {
    let c = Config { sections: vec![section("neocal", &[("mode", "agenda")])] };
    let e = resolve_query(&c, &no_flags()).unwrap_err();
    assert_eq!(e, ResolveError::MissingDefaultCalendar);
    assert_eq!(e.message(), "No default calendar is configured.");
}

#[test]
fn unknown_calendar_is_fatal() {
    let mut f = no_flags();
    f.calendar = Some("absent".to_string());
    let e = resolve_query(&sample_config(), &f).unwrap_err();
    assert_eq!(e, ResolveError::CalendarNotFound);
    assert_eq!(e.message(), "Calendar not found in the configuration.");
}

#[test]
fn timezone_flag_beats_calendar_and_global_settings() {
    let mut f = no_flags();
    f.timezone = Some("Asia/Tokyo".to_string());
    let q = resolve_query(&sample_config(), &f).unwrap();
    assert_eq!(q.timezone, "Asia/Tokyo");
}

#[test]
fn calendar_timezone_beats_the_global_one() {
    let q = resolve_query(&sample_config(), &no_flags()).unwrap();
    assert_eq!(q.timezone, "Europe/Berlin");
}

#[test]
fn global_timezone_is_the_last_resort() {
    let mut f = no_flags();
    f.calendar = Some("personal".to_string());
    let q = resolve_query(&sample_config(), &f).unwrap();
    assert_eq!(q.timezone, "UTC");
}

#[test]
fn timezone_defaults_to_empty() {
    let c = Config {
        sections: vec![
            section("neocal", &[("default", "work"), ("mode", "agenda")]),
            section("work", &[("endpoint", "https://example.com/work")]),
        ],
    };
    let q = resolve_query(&c, &no_flags()).unwrap();
    assert_eq!(q.timezone, "");
}

#[test]
fn subcommand_beats_the_configured_mode() {
    let mut f = no_flags();
    f.mode = Some(ViewMode::Calendar);
    let q = resolve_query(&sample_config(), &f).unwrap();
    assert_eq!(q.mode, ViewMode::Calendar);
}

#[test]
fn unrecognized_mode_is_an_error_not_a_fallback() {
    let c = Config {
        sections: vec![
            section("neocal", &[("default", "work"), ("mode", "fancy")]),
            section("work", &[("endpoint", "https://example.com/work")]),
        ],
    };
    let e = resolve_query(&c, &no_flags()).unwrap_err();
    assert_eq!(e, ResolveError::UnrecognizedViewMode);
    assert_eq!(e.message(), "Unrecognized view type.");
}

#[test]
fn missing_mode_is_an_error() {
    let c = Config {
        sections: vec![
            section("neocal", &[("default", "work")]),
            section("work", &[("endpoint", "https://example.com/work")]),
        ],
    };
    let e = resolve_query(&c, &no_flags()).unwrap_err();
    assert_eq!(e, ResolveError::MissingViewMode);
}

#[test]
fn search_flag_is_carried_through() {
    let mut f = no_flags();
    f.search = Some("standup".to_string());
    let q = resolve_query(&sample_config(), &f).unwrap();
    assert_eq!(q.search, "standup");
}

#[test]
fn later_range_flags_overwrite_earlier_ones() {
    let mut f = no_flags();
    f.weeks = 3;
    assert_eq!(resolve_range(&f), Some(DateRange::NWeeksAhead(3)));
    f.week = true;
    assert_eq!(resolve_range(&f), Some(DateRange::CurrentWeek));
    f.today = true;
    assert_eq!(resolve_range(&f), Some(DateRange::Today));
    f.tomorrow = true;
    assert_eq!(resolve_range(&f), Some(DateRange::Tomorrow));
}

#[test]
fn no_range_flags_mean_no_range() {
    let f = no_flags();
    assert_eq!(resolve_range(&f), None);
    let q = resolve_query(&sample_config(), &f).unwrap();
    assert_eq!(q.range, None);
}
