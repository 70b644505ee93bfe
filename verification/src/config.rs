//! Resolving configuration defaults and command-line flags into one
//! effective query.
//!
//! The configuration is a two-level key/value store: sections (one per
//! calendar, plus the reserved `neocal` section) each hold string entries.
//! The loader stores section names and keys lowercased, and lookups lowercase
//! the requested calendar name, so selection is case-insensitive.

use vstd::prelude::*;

use crate::dates::DateRange;

verus! {

pub struct ConfigItem {
    pub key: String,
    pub value: String,
}

pub struct ConfigSection {
    pub name: String,
    pub items: Vec<ConfigItem>,
}

pub struct Config {
    pub sections: Vec<ConfigSection>,
}

/// The value of the first entry with key `key`, if any.
pub open spec fn spec_items_get(items: Seq<ConfigItem>, key: Seq<char>) -> Option<Seq<char>>
    decreases items.len(),
{
    if items.len() == 0 {
        None
    } else if items[0].key@ == key {
        Some(items[0].value@)
    } else {
        spec_items_get(items.drop_first(), key)
    }
}

/// The value under `key` in the first section named `section`, if any.
pub open spec fn spec_config_get(
    sections: Seq<ConfigSection>,
    section: Seq<char>,
    key: Seq<char>,
) -> Option<Seq<char>>
    decreases sections.len(),
{
    if sections.len() == 0 {
        None
    } else if sections[0].name@ == section {
        spec_items_get(sections[0].items@, key)
    } else {
        spec_config_get(sections.drop_first(), section, key)
    }
}

fn items_get(items: &Vec<ConfigItem>, key: &String) -> (r: Option<String>)
    ensures
        r matches Some(v) ==> spec_items_get(items@, key@) == Some(v@),
        r is None ==> spec_items_get(items@, key@) is None,
{
    let mut i: usize = 0;
    proof {
        assert(items@.skip(0) =~= items@);
    }
    while i < items.len()
        invariant
            i <= items.len(),
            spec_items_get(items@.skip(i as int), key@) == spec_items_get(items@, key@),
        decreases items.len() - i,
    {
        proof {
            assert(items@.skip(i as int)[0] == items@[i as int]);
        }
        if items[i].key == *key {
            return Some(items[i].value.clone());
        }
        proof {
            assert(items@.skip(i as int).drop_first() =~= items@.skip(i as int + 1));
        }
        i = i + 1;
    }
    proof {
        assert(items@.skip(i as int) =~= Seq::<ConfigItem>::empty());
    }
    None
}

/// Looks `section`/`key` up in the configuration, first match first.
pub fn config_get(c: &Config, section: &str, key: &str) -> (r: Option<String>)
    ensures
        r matches Some(v) ==> spec_config_get(c.sections@, section@, key@) == Some(v@),
        r is None ==> spec_config_get(c.sections@, section@, key@) is None,
{
    let section_s: String = section.to_owned();
    let key_s: String = key.to_owned();
    let mut i: usize = 0;
    proof {
        assert(c.sections@.skip(0) =~= c.sections@);
    }
    while i < c.sections.len()
        invariant
            i <= c.sections.len(),
            section_s@ == section@,
            key_s@ == key@,
            spec_config_get(c.sections@.skip(i as int), section@, key@) == spec_config_get(
                c.sections@,
                section@,
                key@,
            ),
        decreases c.sections.len() - i,
    {
        proof {
            assert(c.sections@.skip(i as int)[0] == c.sections@[i as int]);
        }
        if c.sections[i].name == section_s {
            return items_get(&c.sections[i].items, &key_s);
        }
        proof {
            assert(c.sections@.skip(i as int).drop_first() =~= c.sections@.skip(i as int + 1));
        }
        i = i + 1;
    }
    proof {
        assert(c.sections@.skip(i as int) =~= Seq::<ConfigSection>::empty());
    }
    None
}

/// How the events are displayed.
#[derive(Clone, Copy, Debug, PartialEq, Eq, Structural)]
pub enum ViewMode {
    Agenda,
    Calendar,
}

/// A fatal resolution failure: the query cannot be built from the given
/// configuration and flags.
#[derive(Clone, Copy, Debug, PartialEq, Eq, Structural)]
pub enum ResolveError {
    MissingDefaultCalendar,
    CalendarNotFound,
    MissingViewMode,
    UnrecognizedViewMode,
}

impl ResolveError {
    pub fn message(&self) -> (r: String)
        ensures
            *self is MissingDefaultCalendar ==> r@ == "No default calendar is configured."@,
            *self is CalendarNotFound ==> r@ == "Calendar not found in the configuration."@,
            *self is MissingViewMode ==> r@ == "No view mode is configured."@,
            *self is UnrecognizedViewMode ==> r@ == "Unrecognized view type."@,
    {
        match self {
            ResolveError::MissingDefaultCalendar => "No default calendar is configured.".to_owned(),
            ResolveError::CalendarNotFound => "Calendar not found in the configuration.".to_owned(),
            ResolveError::MissingViewMode => "No view mode is configured.".to_owned(),
            ResolveError::UnrecognizedViewMode => "Unrecognized view type.".to_owned(),
        }
    }
}

/// The command-line flags that shape the query. `mode` is the subcommand,
/// when one was invoked.
pub struct Flags {
    pub calendar: Option<String>,
    pub search: Option<String>,
    pub timezone: Option<String>,
    pub weeks: u32,
    pub week: bool,
    pub today: bool,
    pub tomorrow: bool,
    pub mode: Option<ViewMode>,
}

/// The fully resolved query: what one invocation asks the provider for.
#[derive(Debug)]
pub struct EffectiveQuery {
    pub calendar: String,
    pub endpoint: String,
    pub timezone: String,
    pub search: String,
    pub range: Option<DateRange>,
    pub mode: ViewMode,
}

/// Relies on `str::to_lowercase`: the result depends on the characters
/// alone.
#[verifier::external_body]
fn lowercase(s: &str) -> (r: String)
    ensures
        r@ == lower_of(s@),
{
    s.to_lowercase()
}

pub uninterp spec fn lower_of(s: Seq<char>) -> Seq<char>;

/// Relies on `str::trim`: removes leading and trailing whitespace, keeping
/// the rest; the result depends on the characters alone.
#[verifier::external_body]
fn str_trim(s: &str) -> (r: String)
    ensures
        r@ == trimmed_of(s@),
{
    s.trim().to_owned()
}

pub uninterp spec fn trimmed_of(s: Seq<char>) -> Seq<char>;

/// A flag value is well-formed when trimming whitespace leaves it unchanged.
pub fn validate_option_value(name: &str) -> (r: Result<(), String>)
    ensures
        r is Ok <==> trimmed_of(name@).len() == name@.len(),
        r matches Err(m) ==> m@ == "Values cannot have leading and trailing space"@,
{
    let trimmed = str_trim(name);
    if trimmed.as_str().unicode_len() != name.unicode_len() {
        Err("Values cannot have leading and trailing space".to_owned())
    } else {
        Ok(())
    }
}

/// The range the flags select. The flags are applied in the order `weeks`,
/// `week`, `today`, `tomorrow`, each overwriting what came before, so when
/// several are set the last one in that order wins.
pub open spec fn spec_resolve_range(f: Flags) -> Option<DateRange> {
    if f.tomorrow {
        Some(DateRange::Tomorrow)
    } else if f.today {
        Some(DateRange::Today)
    } else if f.week {
        Some(DateRange::CurrentWeek)
    } else if f.weeks != 0 {
        Some(DateRange::NWeeksAhead(f.weeks))
    } else {
        None
    }
}

pub fn resolve_range(f: &Flags) -> (r: Option<DateRange>)
    ensures
        r == spec_resolve_range(*f),
{
    if f.tomorrow {
        Some(DateRange::Tomorrow)
    } else if f.today {
        Some(DateRange::Today)
    } else if f.week {
        Some(DateRange::CurrentWeek)
    } else if f.weeks != 0 {
        Some(DateRange::NWeeksAhead(f.weeks))
    } else {
        None
    }
}

/// The calendar name before lowercasing: the flag when given, else the
/// configured default.
pub open spec fn spec_calendar_name(c: Config, f: Flags) -> Option<Seq<char>> {
    match f.calendar {
        Some(s) => Some(s@),
        None => spec_config_get(c.sections@, "neocal"@, "default"@),
    }
}

/// The timezone chain: flag, then the calendar's own setting, then the
/// global one, then empty (meaning unspecified).
pub open spec fn spec_timezone(c: Config, f: Flags, lname: Seq<char>) -> Seq<char> {
    let t0 = match f.timezone {
        Some(t) => t@,
        None => Seq::<char>::empty(),
    };
    if t0.len() > 0 {
        t0
    } else {
        let t1 = match spec_config_get(c.sections@, lname, "timezone"@) {
            Some(v) => v,
            None => Seq::<char>::empty(),
        };
        if t1.len() > 0 {
            t1
        } else {
            match spec_config_get(c.sections@, "neocal"@, "timezone"@) {
                Some(v) => v,
                None => Seq::<char>::empty(),
            }
        }
    }
}

pub open spec fn spec_search(f: Flags) -> Seq<char> {
    match f.search {
        Some(s) => s@,
        None => Seq::<char>::empty(),
    }
}

/// The view mode: the subcommand when one was invoked, else the configured
/// `mode`; a missing or unrecognized value is an error, never a silent
/// fallback.
pub open spec fn spec_view_mode(c: Config, f: Flags) -> Result<ViewMode, ResolveError> {
    match f.mode {
        Some(m) => Ok(m),
        None => match spec_config_get(c.sections@, "neocal"@, "mode"@) {
            None => Err(ResolveError::MissingViewMode),
            Some(s) => if s == "agenda"@ {
                Ok(ViewMode::Agenda)
            } else if s == "calendar"@ {
                Ok(ViewMode::Calendar)
            } else {
                Err(ResolveError::UnrecognizedViewMode)
            },
        },
    }
}

fn parse_view_mode(s: &String) -> (r: Result<ViewMode, ResolveError>)
    ensures
        s@ == "agenda"@ ==> r == Ok::<ViewMode, ResolveError>(ViewMode::Agenda),
        s@ == "calendar"@ ==> r == Ok::<ViewMode, ResolveError>(ViewMode::Calendar),
        s@ != "agenda"@ && s@ != "calendar"@ ==> r == Err::<ViewMode, ResolveError>(
            ResolveError::UnrecognizedViewMode,
        ),
{
    proof {
        reveal_strlit("agenda");
        reveal_strlit("calendar");
        assert("agenda"@.len() == 6);
        assert("calendar"@.len() == 8);
        assert("agenda"@ != "calendar"@);
    }
    if *s == "agenda".to_owned() {
        Ok(ViewMode::Agenda)
    } else if *s == "calendar".to_owned() {
        Ok(ViewMode::Calendar)
    } else {
        Err(ResolveError::UnrecognizedViewMode)
    }
}

/// Merges flags and configuration into the effective query, by precedence:
/// flag over per-calendar setting over global setting. The calendar name is
/// resolved first, then its endpoint, then the view mode; the first missing
/// piece decides the error.
pub fn resolve_query(c: &Config, f: &Flags) -> (r: Result<EffectiveQuery, ResolveError>)
    ensures
        spec_calendar_name(*c, *f) is None ==> r == Err::<EffectiveQuery, ResolveError>(
            ResolveError::MissingDefaultCalendar,
        ),
        spec_calendar_name(*c, *f) matches Some(name) ==> {
            let lname = lower_of(name);
            let ep = spec_config_get(c.sections@, lname, "endpoint"@);
            &&& ep is None ==> r == Err::<EffectiveQuery, ResolveError>(
                ResolveError::CalendarNotFound,
            )
            &&& ep matches Some(e) ==> match spec_view_mode(*c, *f) {
                Err(er) => r == Err::<EffectiveQuery, ResolveError>(er),
                Ok(md) => {
                    &&& r matches Ok(q)
                    &&& q.calendar@ == name
                    &&& q.endpoint@ == e
                    &&& q.timezone@ == spec_timezone(*c, *f, lname)
                    &&& q.search@ == spec_search(*f)
                    &&& q.range == spec_resolve_range(*f)
                    &&& q.mode == md
                },
            }
        },
{
    let name: String = match &f.calendar {
        Some(s) => s.clone(),
        None => match config_get(c, "neocal", "default") {
            Some(v) => v,
            None => {
                return Err(ResolveError::MissingDefaultCalendar);
            },
        },
    };
    let lname = lowercase(name.as_str());
    let endpoint: String = match config_get(c, lname.as_str(), "endpoint") {
        Some(v) => v,
        None => {
            return Err(ResolveError::CalendarNotFound);
        },
    };
    let mode: ViewMode = match f.mode {
        Some(m) => m,
        None => match config_get(c, "neocal", "mode") {
            None => {
                return Err(ResolveError::MissingViewMode);
            },
            Some(s) => match parse_view_mode(&s) {
                Ok(m) => m,
                Err(e) => {
                    return Err(e);
                },
            },
        },
    };
    let mut timezone: String = match &f.timezone {
        Some(t) => t.clone(),
        None => String::new(),
    };
    if timezone.as_str().is_empty() {
        timezone = match config_get(c, lname.as_str(), "timezone") {
            Some(v) => v,
            None => String::new(),
        };
    }
    if timezone.as_str().is_empty() {
        timezone = match config_get(c, "neocal", "timezone") {
            Some(v) => v,
            None => String::new(),
        };
    }
    let search: String = match &f.search {
        Some(s) => s.clone(),
        None => String::new(),
    };
    let range = resolve_range(f);
    Ok(EffectiveQuery { calendar: name, endpoint, timezone, search, range, mode })
}

} // verus!
