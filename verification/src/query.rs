//! Building the request query string and the final request URL.
//!
//! The query is assembled from the effective query's parts: `q` (the search
//! term) and `timeZone` are appended as form-encoded pairs, and a resolved
//! date range replaces the whole query string with one `timeMin`/`timeMax`
//! segment — the range deliberately clobbers the other parameters, a
//! documented quirk of the assembly order.

use vstd::prelude::*;

use crate::config::EffectiveQuery;
use crate::dates::CivilDate;
use crate::dates::DateRange;
use crate::dates::RangeBounds;
use crate::dates::civil_of_day;
use crate::dates::day_number;
use crate::dates::range_bounds;
use crate::dates::spec_range_days;
use crate::dates::spec_time_max_chars;
use crate::dates::spec_time_min_chars;
use crate::dates::valid_date;

verus! {

pub open spec fn opt_chars(o: Option<String>) -> Option<Seq<char>> {
    match o {
        Some(s) => Some(s@),
        None => None,
    }
}

pub open spec fn opt_pair_chars(o: Option<(String, String)>) -> Option<(Seq<char>, Seq<char>)> {
    match o {
        Some(p) => Some((p.0@, p.1@)),
        None => None,
    }
}

pub uninterp spec fn form_encoded(s: Seq<char>) -> Seq<char>;

/// Relies on `url::form_urlencoded::byte_serialize`: percent-encodes the
/// UTF-8 bytes of `s` for use in a query pair, a function of the characters
/// alone. Alphanumerics and `*-._` pass unchanged, space becomes `+`, and
/// every other byte becomes `%XX`, so the result never contains a raw `&`
/// or `=`, and an empty input stays empty.
#[verifier::external_body]
fn encode_component(s: &str) -> (r: String)
    ensures
        r@ == form_encoded(s@),
        s@.len() == 0 ==> r@.len() == 0,
        forall|i: int| 0 <= i < r@.len() ==> r@[i] != '&' && r@[i] != '=',
{
    url::form_urlencoded::byte_serialize(s.as_bytes()).collect()
}

/// A query pair appended to `e`, with a `&` separator when `e` is non-empty.
pub open spec fn spec_append_param(e: Option<Seq<char>>, p: Seq<char>) -> Seq<char> {
    match e {
        None => p,
        Some(x) => if x.len() == 0 {
            p
        } else {
            x + "&"@ + p
        },
    }
}

/// The final query string: `existing` with `q` and `timeZone` pairs appended
/// when non-empty, unless a date range was resolved, in which case the range
/// segment replaces everything.
pub open spec fn spec_build_query(
    existing: Option<Seq<char>>,
    search: Seq<char>,
    timezone: Seq<char>,
    range: Option<(Seq<char>, Seq<char>)>,
) -> Option<Seq<char>> {
    match range {
        Some(b) => Some("timeMin="@ + b.0 + "&timeMax="@ + b.1),
        None => {
            let q1 = if search.len() > 0 {
                Some(spec_append_param(existing, "q="@ + form_encoded(search)))
            } else {
                existing
            };
            if timezone.len() > 0 {
                Some(spec_append_param(q1, "timeZone="@ + form_encoded(timezone)))
            } else {
                q1
            }
        },
    }
}

/// A `q=` parameter starts at `i`: at the string's start or right after a
/// separator.
pub open spec fn is_q_start(q: Seq<char>, i: int) -> bool {
    &&& 0 <= i
    &&& i + 2 <= q.len()
    &&& i == 0 || q[i - 1] == '&'
    &&& q[i] == 'q'
    &&& q[i + 1] == '='
}

pub open spec fn has_q_param(q: Seq<char>) -> bool {
    exists|i: int| is_q_start(q, i)
}

/// Where the appended `q=` parameter starts, given the existing query.
pub open spec fn q_param_pos(e: Option<Seq<char>>) -> int {
    match e {
        None => 0,
        Some(x) => if x.len() == 0 {
            0
        } else {
            x.len() as int + 1
        },
    }
}

/// For every non-empty search term the built query holds the `q=` parameter
/// exactly once — at the position following the existing query, its value
/// exactly the form-encoded term — provided the endpoint's own query has no
/// `q=` parameter already. The encoded term and timezone contain no raw `&`
/// or `=`, so no later parameter can fake a second `q=` boundary.
proof fn lemma_q_param_once(e: Option<Seq<char>>, s: Seq<char>, t: Seq<char>)
    requires
        s.len() > 0,
        forall|i: int|
            0 <= i < form_encoded(s).len() ==> #[trigger] form_encoded(s)[i] != '&'
                && form_encoded(s)[i] != '=',
        t.len() > 0 ==> forall|i: int|
            0 <= i < form_encoded(t).len() ==> #[trigger] form_encoded(t)[i] != '&'
                && form_encoded(t)[i] != '=',
        e matches Some(x) ==> !has_q_param(x),
    ensures
        spec_build_query(e, s, t, None) matches Some(q) && (forall|i: int|
            is_q_start(q, i) <==> i == q_param_pos(e)) && q.subrange(
            q_param_pos(e) + 2,
            q_param_pos(e) + 2 + form_encoded(s).len() as int,
        ) == form_encoded(s),
{
    reveal_strlit("q=");
    reveal_strlit("&");
    reveal_strlit("timeZone=");
    assert("q="@.len() == 2 && "q="@[0] == 'q' && "q="@[1] == '=');
    assert("&"@.len() == 1 && "&"@[0] == '&');
    assert("timeZone="@.len() == 9);
    assert("timeZone="@[0] == 't' && "timeZone="@[1] == 'i' && "timeZone="@[2] == 'm'
        && "timeZone="@[3] == 'e' && "timeZone="@[4] == 'Z' && "timeZone="@[5] == 'o'
        && "timeZone="@[6] == 'n' && "timeZone="@[7] == 'e' && "timeZone="@[8] == '=');
    let enc = form_encoded(s);
    let pre = match e {
        Some(x) => if x.len() == 0 {
            Seq::<char>::empty()
        } else {
            x + "&"@
        },
        None => Seq::<char>::empty(),
    };
    let suf = if t.len() > 0 {
        "&"@ + "timeZone="@ + form_encoded(t)
    } else {
        Seq::<char>::empty()
    };
    let pos = q_param_pos(e);
    let q = spec_build_query(e, s, t, None).unwrap();
    assert(q =~= pre + "q="@ + enc + suf);
    assert(pos == pre.len());
    let m = pos + 2 + enc.len() as int;
    assert(q.subrange(pos + 2, m) =~= enc);
    assert(is_q_start(q, pos));
    assert forall|i: int| is_q_start(q, i) implies i == pos by {
        if i < pos {
            let x = e.unwrap();
            if i < x.len() - 1 {
                assert(q[i] == x[i] && q[i + 1] == x[i + 1]);
                assert(i > 0 ==> q[i - 1] == x[i - 1]);
                assert(is_q_start(x, i));
                assert(has_q_param(x));
                assert(false);
            } else if i == x.len() - 1 {
                assert(q[i + 1] == '&');
                assert(false);
            } else {
                assert(q[i] == '&');
                assert(false);
            }
        } else if i == pos + 1 {
            assert(q[i] == '=');
            assert(false);
        } else if pos + 2 <= i && i < m {
            if i == pos + 2 {
                assert(q[i - 1] == '=');
            } else {
                assert(q[i - 1] == enc[i - 1 - (pos + 2)]);
            }
            assert(false);
        } else if i > pos && i >= m {
            assert(suf.len() > 0);
            if i == m {
                assert(q[i] == '&');
            } else if i == m + 1 {
                assert(q[i] == 't');
            } else if i - 1 <= m + 9 {
                assert(q[i - 1] == "timeZone="@[i - 1 - (m + 1)]);
                assert(q[i - 1] != '&');
            } else {
                assert(q[i - 1] == form_encoded(t)[i - 1 - (m + 10)]);
                assert(q[i - 1] != '&');
            }
            assert(false);
        }
    }
}

fn append_param(existing: Option<String>, p: String) -> (r: String)
    ensures
        r@ == spec_append_param(opt_chars(existing), p@),
{
    match existing {
        None => p,
        Some(x) => {
            if x.as_str().is_empty() {
                p
            } else {
                let mut out = x;
                out.append("&");
                out.append(p.as_str());
                out
            }
        },
    }
}

/// Builds the query string for the request. Beyond matching
/// `spec_build_query`, the contract carries the uniqueness law: a non-empty
/// search term yields exactly one `q=` parameter, whose value is exactly the
/// encoded term.
pub fn build_query(
    existing: &Option<String>,
    search: &String,
    timezone: &String,
    range: &Option<(String, String)>,
) -> (r: Option<String>)
    ensures
        ({
            let spec_r = spec_build_query(
                opt_chars(*existing),
                search@,
                timezone@,
                opt_pair_chars(*range),
            );
            &&& r matches Some(v) ==> spec_r == Some(v@)
            &&& r is None ==> spec_r is None
        }),
        ({
            let e = opt_chars(*existing);
            search@.len() > 0 && range is None && (e matches Some(x) ==> !has_q_param(x)) ==> (
            spec_build_query(e, search@, timezone@, opt_pair_chars(*range)) matches Some(q) && (
            forall|i: int| is_q_start(q, i) <==> i == q_param_pos(e)) && q.subrange(
                q_param_pos(e) + 2,
                q_param_pos(e) + 2 + form_encoded(search@).len() as int,
            ) == form_encoded(search@))
        }),
{
    match range {
        Some(b) => {
            let mut out = "timeMin=".to_owned();
            out.append(b.0.as_str());
            out.append("&timeMax=");
            out.append(b.1.as_str());
            Some(out)
        },
        None => {
            let mut cur: Option<String> = match existing {
                Some(x) => Some(x.clone()),
                None => None,
            };
            if !search.as_str().is_empty() {
                let enc = encode_component(search.as_str());
                let mut p = "q=".to_owned();
                p.append(enc.as_str());
                cur = Some(append_param(cur, p));
            }
            if !timezone.as_str().is_empty() {
                let enc = encode_component(timezone.as_str());
                let mut p = "timeZone=".to_owned();
                p.append(enc.as_str());
                cur = Some(append_param(cur, p));
            }
            proof {
                if search@.len() > 0 && (opt_chars(*existing) matches Some(x) ==> !has_q_param(
                    x,
                )) {
                    lemma_q_param_once(opt_chars(*existing), search@, timezone@);
                }
            }
            cur
        },
    }
}

pub uninterp spec fn url_query_part(s: Seq<char>) -> Result<Option<Seq<char>>, Seq<char>>;

/// Relies on `url::Url::parse` and `Url::query`: the query part of the
/// endpoint URL as parsing normalizes it (`None` when the URL has none), or
/// the parse error's description; a function of the string alone.
#[verifier::external_body]
fn endpoint_query_part(s: &str) -> (r: Result<Option<String>, String>)
    ensures
        r is Ok <==> url_query_part(s@) is Ok,
        r matches Ok(Some(x)) ==> (url_query_part(s@) matches Ok(qq) && qq == Some(x@)),
        r matches Ok(q) && q is None ==> (url_query_part(s@) matches Ok(qq) && qq is None),
        r matches Err(m) ==> (url_query_part(s@) matches Err(em) && em == m@),
{
    match url::Url::parse(s) {
        Ok(u) => Ok(u.query().map(|q| q.to_string())),
        Err(e) => Err(e.to_string()),
    }
}

pub uninterp spec fn url_with_query(s: Seq<char>, q: Option<Seq<char>>) -> Result<
    Seq<char>,
    Seq<char>,
>;

/// Relies on `url::Url::parse`, `Url::set_query` and `Url::as_str`: the
/// endpoint URL re-serialized with its query part replaced by `q` (removed
/// when `None`), or the parse error's description; a function of the two
/// arguments alone. Parsing is the only step that can fail, so this
/// succeeds exactly when reading the query part does.
#[verifier::external_body]
fn endpoint_with_query(s: &str, q: &Option<String>) -> (r: Result<String, String>)
    ensures
        r is Ok <==> url_query_part(s@) is Ok,
        r matches Ok(u) ==> (url_with_query(s@, opt_chars(*q)) matches Ok(uu) && uu == u@),
        r matches Err(m) ==> (url_with_query(s@, opt_chars(*q)) matches Err(em) && em == m@),
{
    match url::Url::parse(s) {
        Ok(mut u) => {
            u.set_query(q.as_deref());
            Ok(u.as_str().to_string())
        },
        Err(e) => Err(e.to_string()),
    }
}

/// The `timeMin`/`timeMax` strings a range resolves to on day number `z`.
pub open spec fn spec_bounds_chars(z: int, r: DateRange) -> (Seq<char>, Seq<char>) {
    let (a, b) = spec_range_days(z, r);
    (spec_time_min_chars(civil_of_day(a as nat)), spec_time_max_chars(civil_of_day(b as nat)))
}

/// The full request URL for the effective query: the endpoint with its query
/// string rebuilt from the search term, the timezone, and the resolved date
/// range, in that order.
pub fn plan_request(q: &EffectiveQuery, today: &CivilDate) -> (r: Result<String, String>)
    requires
        valid_date(*today),
        today.year <= 300_000,
    ensures
        r is Ok <==> url_query_part(q.endpoint@) is Ok,
        url_query_part(q.endpoint@) matches Err(m) ==> r matches Err(v) && v@ == m,
        url_query_part(q.endpoint@) matches Ok(e0) ==> ({
            let rng = match q.range {
                Some(rg) => Some(spec_bounds_chars(day_number(*today), rg)),
                None => None,
            };
            match url_with_query(q.endpoint@, spec_build_query(e0, q.search@, q.timezone@, rng)) {
                Ok(u) => r matches Ok(v) && v@ == u,
                Err(m) => r matches Err(v) && v@ == m,
            }
        }),
{
    let existing: Option<String> = match endpoint_query_part(q.endpoint.as_str()) {
        Ok(e) => e,
        Err(m) => {
            return Err(m);
        },
    };
    let bounds: Option<(String, String)> = match q.range {
        Some(rg) => {
            let b: RangeBounds = range_bounds(today, rg);
            Some((b.time_min, b.time_max))
        },
        None => None,
    };
    let built = build_query(&existing, &q.search, &q.timezone, &bounds);
    match endpoint_with_query(q.endpoint.as_str(), &built) {
        Ok(u) => Ok(u),
        Err(m) => Err(m),
    }
}

} // verus!
