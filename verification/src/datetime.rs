//! The date-time widget: renders `{format}`, `{date}` and `{time}`
//! placeholders against the wall-clock instant converted to a configured
//! timezone, under an optional locale, through one or more styled fragments.

use vstd::prelude::*;
use vstd::string::*;
use crate::clock::{
    format_timestamp, format_timestamp_localized, formatted_in_zone, formatted_localized,
    locale_parses, locale_valid, now_timestamp, tz_parses, tz_valid,
};
use crate::config::{spec_lookup_or, ConfigMap, ZellijState};
use crate::render::{spec_multiple_from_format_string, FormattedPart, SpecPart};
use crate::style::spec_styled;
use crate::text::{lemma_replace_absent, replace_all, spec_contains, spec_replace};
use crate::widget::Widget;

verus! {

/// Renders the current instant under a configured timezone and locale. An
/// unparseable timezone or locale fell back at construction (to UTC, to no
/// locale) and never surfaces as an error.
pub struct DateTimeWidget {
    pub format: String,
    pub time_format: String,
    pub date_format: String,
    pub color_format: Vec<FormattedPart>,
    pub time_zone: String,
    pub locale: Option<String>,
}

/// The widget's locale selector as a mathematical value.
pub open spec fn spec_locale_view(w: DateTimeWidget) -> Option<Seq<char>> {
    match w.locale {
        Some(l) => Some(l@),
        None => None,
    }
}

/// The text the instant `ts` renders to in zone `tz` under `fmt`:
/// locale-aware where a locale is set, locale-invariant otherwise.
pub open spec fn spec_time_text(
    ts: int,
    tz: Seq<char>,
    fmt: Seq<char>,
    loc: Option<Seq<char>>,
) -> Seq<char> {
    match loc {
        Some(l) => formatted_localized(ts, tz, fmt, l),
        None => formatted_in_zone(ts, tz, fmt),
    }
}

/// One fragment's rendering at instant `ts`: the three placeholders
/// substituted in turn (each a single left-to-right pass), then the
/// fragment's style applied.
pub open spec fn spec_datetime_segment(w: DateTimeWidget, p: SpecPart, ts: int) -> Seq<char> {
    let loc = spec_locale_view(w);
    let c1 = spec_replace(p.content, "{format}"@, spec_time_text(ts, w.time_zone@, w.format@, loc));
    let c2 = spec_replace(c1, "{date}"@, spec_time_text(ts, w.time_zone@, w.date_format@, loc));
    let c3 = spec_replace(c2, "{time}"@, spec_time_text(ts, w.time_zone@, w.time_format@, loc));
    spec_styled(p.style, c3)
}

/// The fragments' renderings concatenated in configuration order.
pub open spec fn spec_datetime_parts(w: DateTimeWidget, parts: Seq<SpecPart>, ts: int) -> Seq<char>
    decreases parts.len(),
{
    if parts.len() == 0 {
        Seq::<char>::empty()
    } else {
        spec_datetime_segment(w, parts[0], ts) + spec_datetime_parts(w, parts.skip(1), ts)
    }
}

/// The widget's full rendering at instant `ts`.
pub open spec fn spec_render_at(w: DateTimeWidget, ts: int) -> Seq<char> {
    spec_datetime_parts(w, w.color_format@.map_values(|p: FormattedPart| p@), ts)
}

impl DateTimeWidget {
    /// Builds the widget from configuration. Missing options keep their
    /// documented defaults; an unrecognized timezone falls back to UTC and an
    /// unrecognized locale to no locale, silently.
    pub fn new(config: &ConfigMap) -> (w: DateTimeWidget)
        ensures
            w.format@ == spec_lookup_or(config@, "datetime_format"@, "%H:%M"@),
            w.time_format@ == spec_lookup_or(config@, "datetime_time_format"@, "%H:%M"@),
            w.date_format@ == spec_lookup_or(config@, "datetime_date_format"@, "%Y-%m-%d"@),
            w.color_format@.map_values(|p: FormattedPart| p@) == spec_multiple_from_format_string(
                spec_lookup_or(config@, "datetime"@, ""@),
            ),
            w.time_zone@ == (if tz_valid(
                spec_lookup_or(config@, "datetime_timezone"@, "Etc/UTC"@),
            ) {
                spec_lookup_or(config@, "datetime_timezone"@, "Etc/UTC"@)
            } else {
                "Etc/UTC"@
            }),
            w.locale matches Some(l) ==> l@ == spec_lookup_or(config@, "datetime_locale"@, "en_US"@)
                && locale_valid(l@),
            w.locale is None ==> !locale_valid(
                spec_lookup_or(config@, "datetime_locale"@, "en_US"@),
            ),
    {
        let format = config.get_or("datetime_format", "%H:%M");
        let time_format = config.get_or("datetime_time_format", "%H:%M");
        let date_format = config.get_or("datetime_date_format", "%Y-%m-%d");
        let tz_string = config.get_or("datetime_timezone", "Etc/UTC");
        let time_zone = if tz_parses(tz_string.as_str()) {
            tz_string
        } else {
            String::from_str("Etc/UTC")
        };
        let locale_string = config.get_or("datetime_locale", "en_US");
        let locale = if locale_parses(locale_string.as_str()) {
            Some(locale_string)
        } else {
            None
        };
        let color_string = config.get_or("datetime", "");
        DateTimeWidget {
            format,
            time_format,
            date_format,
            color_format: FormattedPart::multiple_from_format_string(color_string.as_str(), config),
            time_zone,
            locale,
        }
    }

    fn time_text(&self, ts: i64, fmt: &str) -> (r: String)
        ensures
            r@ == spec_time_text(ts as int, self.time_zone@, fmt@, spec_locale_view(*self)),
    {
        match &self.locale {
            Some(l) => format_timestamp_localized(ts, self.time_zone.as_str(), fmt, l.as_str()),
            None => format_timestamp(ts, self.time_zone.as_str(), fmt),
        }
    }

    /// Renders the widget at the given instant (seconds since the Unix
    /// epoch); deterministic, so a fixed instant gives a fixed text.
    pub fn render_at(&self, ts: i64) -> (r: String)
        ensures
            r@ == spec_render_at(*self, ts as int),
    {
        let ghost parts = self.color_format@.map_values(|p: FormattedPart| p@);
        let mut out = String::new();
        let n = self.color_format.len();
        let mut i: usize = 0;
        proof {
            assert(parts.skip(0) =~= parts);
            assert(out@ + spec_datetime_parts(*self, parts, ts as int) =~= spec_datetime_parts(
                *self,
                parts,
                ts as int,
            ));
        }
        while i < n
            invariant
                n == self.color_format@.len(),
                parts == self.color_format@.map_values(|p: FormattedPart| p@),
                0 <= i <= n,
                spec_datetime_parts(*self, parts, ts as int) == out@ + spec_datetime_parts(
                    *self,
                    parts.skip(i as int),
                    ts as int,
                ),
            decreases n - i,
        {
            let f = &self.color_format[i];
            let format_text = self.time_text(ts, self.format.as_str());
            let c1 = replace_all(f.content.as_str(), "{format}", format_text.as_str());
            let date_text = self.time_text(ts, self.date_format.as_str());
            let c2 = replace_all(c1.as_str(), "{date}", date_text.as_str());
            let time_text = self.time_text(ts, self.time_format.as_str());
            let c3 = replace_all(c2.as_str(), "{time}", time_text.as_str());
            let segment = f.format_string(c3.as_str());
            proof {
                let rest = parts.skip(i as int);
                assert(rest[0] == parts[i as int]);
                assert(parts[i as int] == self.color_format@[i as int]@);
                assert(rest.skip(1) =~= parts.skip(i + 1));
                assert(segment@ == spec_datetime_segment(*self, parts[i as int], ts as int));
                assert(out@ + (segment@ + spec_datetime_parts(*self, parts.skip(i + 1), ts as int))
                    =~= (out@ + segment@) + spec_datetime_parts(*self, parts.skip(i + 1), ts as int));
            }
            out.append(segment.as_str());
            i = i + 1;
        }
        proof {
            assert(parts.skip(n as int) =~= Seq::<SpecPart>::empty());
            assert(out@ + spec_datetime_parts(*self, parts.skip(n as int), ts as int) =~= out@);
        }
        out
    }
}

impl Widget for DateTimeWidget {
    open spec fn spec_render(&self, state: &ZellijState, ts: int) -> Seq<char> {
        spec_render_at(*self, ts)
    }

    fn process(&self, _name: &str, state: &ZellijState) -> (r: String) {
        let ts = now_timestamp();
        let r = self.render_at(ts);
        proof {
            assert(r@ == self.spec_render(state, ts as int));
        }
        r
    }
}

/// A fragment whose content holds none of the three placeholders renders as
/// its literal content, styled, at every instant.
pub proof fn lemma_datetime_literal_fragment(w: DateTimeWidget, p: SpecPart, ts: int)
    requires
        !spec_contains(p.content, "{format}"@),
        !spec_contains(p.content, "{date}"@),
        !spec_contains(p.content, "{time}"@),
    ensures
        spec_datetime_segment(w, p, ts) == spec_styled(p.style, p.content),
{
    let loc = spec_locale_view(w);
    lemma_replace_absent(p.content, "{format}"@, spec_time_text(ts, w.time_zone@, w.format@, loc));
    lemma_replace_absent(p.content, "{date}"@, spec_time_text(ts, w.time_zone@, w.date_format@, loc));
    lemma_replace_absent(p.content, "{time}"@, spec_time_text(ts, w.time_zone@, w.time_format@, loc));
}

/// With no placeholder anywhere in its fragments, the widget's rendering does
/// not depend on the instant at all: the literal (styled) contents come back
/// unchanged whatever the clock read.
pub proof fn lemma_datetime_literal_render(w: DateTimeWidget, parts: Seq<SpecPart>, t1: int, t2: int)
    requires
        forall|i: int|
            0 <= i < parts.len() ==> !spec_contains(#[trigger] parts[i].content, "{format}"@)
                && !spec_contains(parts[i].content, "{date}"@) && !spec_contains(
                parts[i].content,
                "{time}"@,
            ),
    ensures
        spec_datetime_parts(w, parts, t1) == spec_datetime_parts(w, parts, t2),
    decreases parts.len(),
{
    if parts.len() > 0 {
        lemma_datetime_literal_fragment(w, parts[0], t1);
        lemma_datetime_literal_fragment(w, parts[0], t2);
        assert(forall|i: int|
            0 <= i < parts.skip(1).len() ==> parts.skip(1)[i] == parts[i + 1]);
        lemma_datetime_literal_render(w, parts.skip(1), t1, t2);
    }
}

/// Rendering is deterministic in the widget and the instant: two renders from
/// unchanged configuration at one instant read the same text.
pub proof fn lemma_datetime_render_deterministic(
    w: DateTimeWidget,
    ts: int,
    r1: Seq<char>,
    r2: Seq<char>,
)
    requires
        r1 == spec_render_at(w, ts),
        r2 == spec_render_at(w, ts),
    ensures
        r1 == r2,
{
}

} // verus!
