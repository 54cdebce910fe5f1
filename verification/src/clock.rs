//! The current-time read and the date-time rendering this library leaves to
//! the chrono and chrono-tz crates. Each call stands behind a trusted item;
//! what a call returns for given arguments is a named, uninterpreted function
//! of those arguments alone.

use vstd::prelude::*;

verus! {

/// Whether chrono-tz's zone table recognizes `s` as a timezone identifier.
/// Applied by `tz_parses`.
pub uninterp spec fn tz_valid(s: Seq<char>) -> bool;

/// Whether `s` names a locale chrono knows. Applied by `locale_parses`.
pub uninterp spec fn locale_valid(s: Seq<char>) -> bool;

/// The text chrono renders for the instant `ts` (seconds since the Unix
/// epoch), converted to the zone named `tz` (UTC where the name is not
/// recognized), under the strftime-style format `fmt`; empty where the
/// instant is out of chrono's range or the format is malformed.
pub uninterp spec fn formatted_in_zone(ts: int, tz: Seq<char>, fmt: Seq<char>) -> Seq<char>;

/// As `formatted_in_zone`, but rendered under the locale named `locale`
/// (`en_US` where the name is not recognized).
pub uninterp spec fn formatted_localized(
    ts: int,
    tz: Seq<char>,
    fmt: Seq<char>,
    locale: Seq<char>,
) -> Seq<char>;

/// Relies on chrono::Utc::now: the current wall-clock instant, of which
/// nothing can be promised.
#[verifier::external_body]
pub(crate) fn now_timestamp() -> i64 {
    chrono::Utc::now().timestamp()
}

/// Relies on chrono_tz's `Tz as FromStr`, a lookup in a fixed compiled-in
/// table: whether `s` is a recognized timezone identifier.
#[verifier::external_body]
pub(crate) fn tz_parses(s: &str) -> (r: bool)
    ensures
        r == tz_valid(s@),
{
    s.parse::<chrono_tz::Tz>().is_ok()
}

/// Relies on chrono's `Locale as FromStr`, a lookup in a fixed compiled-in
/// list: whether `s` is a recognized locale name.
#[verifier::external_body]
pub(crate) fn locale_parses(s: &str) -> (r: bool)
    ensures
        r == locale_valid(s@),
{
    s.parse::<chrono::Locale>().is_ok()
}

/// Relies on chrono's DateTime::from_timestamp, with_timezone and format,
/// and on DelayedFormat::write_to: a deterministic function of the instant,
/// the zone name and the format string alone.
#[verifier::external_body]
pub(crate) fn format_timestamp(ts: i64, tz_name: &str, fmt: &str) -> (r: String)
    ensures
        r@ == formatted_in_zone(ts as int, tz_name@, fmt@),
{
    let tz: chrono_tz::Tz = tz_name.parse().unwrap_or(chrono_tz::Tz::UTC);
    let base = match chrono::DateTime::from_timestamp(ts, 0) {
        Some(d) => d,
        None => return String::new(),
    };
    let mut out = String::new();
    match base.with_timezone(&tz).format(fmt).write_to(&mut out) {
        Ok(()) => out,
        Err(_) => String::new(),
    }
}

/// Relies on chrono's DateTime::from_timestamp, with_timezone and
/// format_localized, and on DelayedFormat::write_to: a deterministic function
/// of the instant, the zone name, the format string and the locale name alone.
#[verifier::external_body]
pub(crate) fn format_timestamp_localized(ts: i64, tz_name: &str, fmt: &str, locale: &str) -> (r:
    String)
    ensures
        r@ == formatted_localized(ts as int, tz_name@, fmt@, locale@),
{
    let tz: chrono_tz::Tz = tz_name.parse().unwrap_or(chrono_tz::Tz::UTC);
    let loc: chrono::Locale = locale.parse().unwrap_or(chrono::Locale::en_US);
    let base = match chrono::DateTime::from_timestamp(ts, 0) {
        Some(d) => d,
        None => return String::new(),
    };
    let mut out = String::new();
    match base.with_timezone(&tz).format_localized(fmt, loc).write_to(&mut out) {
        Ok(()) => out,
        Err(_) => String::new(),
    }
}

} // verus!
