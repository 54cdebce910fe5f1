//! One stylable template fragment: a format string is parsed into a
//! directive-free content template plus a resolved style, and rendered by
//! styling caller-substituted content.
//!
//! A format string may open with a directive block `#[..]` holding
//! comma-separated directives (`fg=<color>`, `bg=<color>`, `bold`, `italic`).
//! Extraction never fails: an absent or unclosed block, an unrecognized
//! directive and an unknown color name are all dropped silently.

use vstd::prelude::*;
use vstd::string::*;
use crate::config::ConfigMap;
use crate::style::{lemma_plain_styles_nothing, spec_styled, Color, Style};
use crate::text::{find_char_from, spec_find_char_from, str_eq};

verus! {

/// The mathematical value of a parsed fragment: its resolved style and its
/// directive-free content template.
#[verifier::ext_equal]
pub struct SpecPart {
    pub style: Style,
    pub content: Seq<char>,
}

/// One stylable template fragment.
pub struct FormattedPart {
    pub content: String,
    pub style: Style,
}

impl View for FormattedPart {
    type V = SpecPart;

    open spec fn view(&self) -> SpecPart {
        SpecPart { style: self.style, content: self.content@ }
    }
}

/// The color a directive names, if any.
pub open spec fn spec_color(s: Seq<char>) -> Option<Color> {
    if s == "black"@ {
        Some(Color::Black)
    } else if s == "red"@ {
        Some(Color::Red)
    } else if s == "green"@ {
        Some(Color::Green)
    } else if s == "yellow"@ {
        Some(Color::Yellow)
    } else if s == "blue"@ {
        Some(Color::Blue)
    } else if s == "magenta"@ {
        Some(Color::Magenta)
    } else if s == "cyan"@ {
        Some(Color::Cyan)
    } else if s == "white"@ {
        Some(Color::White)
    } else {
        None
    }
}

/// One directive token applied to an accumulated style. Anything
/// unrecognized, including an unknown color name, leaves the style unchanged.
pub open spec fn spec_apply_token(st: Style, tok: Seq<char>) -> Style {
    if tok == "bold"@ {
        Style { bold: true, ..st }
    } else if tok == "italic"@ {
        Style { italic: true, ..st }
    } else if tok.len() > 3 && tok.subrange(0, 3) == "fg="@ {
        match spec_color(tok.skip(3)) {
            Some(c) => Style { fg: Some(c), ..st },
            None => st,
        }
    } else if tok.len() > 3 && tok.subrange(0, 3) == "bg="@ {
        match spec_color(tok.skip(3)) {
            Some(c) => Style { bg: Some(c), ..st },
            None => st,
        }
    } else {
        st
    }
}

/// The comma-separated directives of `d` folded onto `st`, left to right.
pub open spec fn spec_parse_directives(d: Seq<char>, st: Style) -> Style
    decreases d.len(),
    via spec_parse_directives_decreases
{
    if d.len() == 0 {
        st
    } else {
        let j = spec_find_char_from(d, 0, ',');
        let st2 = spec_apply_token(st, d.subrange(0, j));
        if j == d.len() {
            st2
        } else {
            spec_parse_directives(d.skip(j + 1), st2)
        }
    }
}

#[via_fn]
proof fn spec_parse_directives_decreases(d: Seq<char>, st: Style) {
    if d.len() != 0 {
        crate::text::lemma_find_char_from_bounds(d, 0, ',');
    }
}

/// `raw` opens with a style directive block.
pub open spec fn spec_has_directive(raw: Seq<char>) -> bool {
    raw.len() >= 2 && raw[0] == '#' && raw[1] == '['
}

/// How a format string parses: an opening, closed directive block resolves
/// the style and is stripped from the content; everything else is literal
/// content under the default style.
pub open spec fn spec_from_format_string(raw: Seq<char>) -> SpecPart {
    if spec_has_directive(raw) {
        let close = spec_find_char_from(raw, 2, ']');
        if close < raw.len() {
            SpecPart {
                style: spec_parse_directives(raw.subrange(2, close), Style::spec_plain()),
                content: raw.skip(close + 1),
            }
        } else {
            SpecPart { style: Style::spec_plain(), content: raw }
        }
    } else {
        SpecPart { style: Style::spec_plain(), content: raw }
    }
}

fn color_of(s: &str) -> (r: Option<Color>)
    ensures
        r == spec_color(s@),
{
    if str_eq(s, "black") {
        Some(Color::Black)
    } else if str_eq(s, "red") {
        Some(Color::Red)
    } else if str_eq(s, "green") {
        Some(Color::Green)
    } else if str_eq(s, "yellow") {
        Some(Color::Yellow)
    } else if str_eq(s, "blue") {
        Some(Color::Blue)
    } else if str_eq(s, "magenta") {
        Some(Color::Magenta)
    } else if str_eq(s, "cyan") {
        Some(Color::Cyan)
    } else if str_eq(s, "white") {
        Some(Color::White)
    } else {
        None
    }
}

fn apply_token(st: Style, tok: &str) -> (r: Style)
    ensures
        r == spec_apply_token(st, tok@),
{
    if str_eq(tok, "bold") {
        return Style { bold: true, ..st };
    }
    if str_eq(tok, "italic") {
        return Style { italic: true, ..st };
    }
    let n = tok.unicode_len();
    if n > 3 {
        let head = tok.substring_char(0, 3);
        let value = tok.substring_char(3, n);
        proof {
            assert(value@ =~= tok@.skip(3));
        }
        if str_eq(head, "fg=") {
            return match color_of(value) {
                Some(c) => Style { fg: Some(c), ..st },
                None => st,
            };
        }
        if str_eq(head, "bg=") {
            return match color_of(value) {
                Some(c) => Style { bg: Some(c), ..st },
                None => st,
            };
        }
    }
    st
}

fn parse_directives(d: &str) -> (r: Style)
    ensures
        r == spec_parse_directives(d@, Style::spec_plain()),
{
    let mut st = Style::plain();
    let mut rest: &str = d;
    let mut n = rest.unicode_len();
    while n > 0
        invariant
            n == rest@.len(),
            spec_parse_directives(d@, Style::spec_plain()) == spec_parse_directives(rest@, st),
        decreases n,
    {
        let j = find_char_from(rest, 0, ',');
        let tok = rest.substring_char(0, j);
        let st2 = apply_token(st, tok);
        if j == n {
            proof {
                assert(spec_parse_directives(rest@, st) == st2);
            }
            return st2;
        }
        let next = rest.substring_char(j + 1, n);
        proof {
            assert(next@ =~= rest@.skip(j + 1));
        }
        st = st2;
        rest = next;
        n = rest.unicode_len();
    }
    st
}

impl FormattedPart {
    /// Parses one format string into a fragment; extraction of the style
    /// directives never fails.
    pub fn from_format_string(raw: &str) -> (r: FormattedPart)
        ensures
            r@ == spec_from_format_string(raw@),
    {
        let n = raw.unicode_len();
        if n >= 2 && raw.get_char(0) == '#' && raw.get_char(1) == '[' {
            let close = find_char_from(raw, 2, ']');
            if close < n {
                let directives = raw.substring_char(2, close);
                let content = raw.substring_char(close + 1, n);
                let style = parse_directives(directives);
                proof {
                    assert(content@ =~= raw@.skip(close + 1));
                }
                return FormattedPart { content: String::from_str(content), style };
            }
        }
        FormattedPart { content: String::from_str(raw), style: Style::plain() }
    }

    /// Applies this fragment's style to the already-substituted `content`.
    /// Side-effect-free and deterministic; the default style returns the
    /// content unchanged.
    pub fn format_string(&self, content: &str) -> (r: String)
        ensures
            r@ == spec_styled(self.style, content@),
    {
        self.style.apply(content)
    }
}

/// The first index `>= from` at which a directive block `#[` opens in `s`;
/// `s.len()` when there is none.
pub open spec fn spec_find_marker_from(s: Seq<char>, from: int) -> int
    decreases s.len() - from,
{
    if from < 0 || from + 2 > s.len() {
        s.len() as int
    } else if s[from] == '#' && s[from + 1] == '[' {
        from
    } else {
        spec_find_marker_from(s, from + 1)
    }
}

pub proof fn lemma_find_marker_from_bounds(s: Seq<char>, from: int)
    requires
        0 <= from,
    ensures
        from <= spec_find_marker_from(s, from) || spec_find_marker_from(s, from) == s.len(),
        spec_find_marker_from(s, from) <= s.len() || from > s.len(),
        from <= s.len() ==> from <= spec_find_marker_from(s, from) <= s.len(),
    decreases s.len() - from,
{
    if !(from + 2 > s.len()) && !(s[from] == '#' && s[from + 1] == '[') {
        lemma_find_marker_from_bounds(s, from + 1);
    }
}

/// `s` cut into fragments, a new fragment opening at every `#[`; leading text
/// before the first `#[` forms an unstyled fragment of its own. Each fragment
/// is parsed as one format string.
pub open spec fn spec_split_parts(s: Seq<char>) -> Seq<SpecPart>
    decreases s.len(),
    via spec_split_parts_decreases
{
    if s.len() == 0 {
        Seq::<SpecPart>::empty()
    } else {
        let j = spec_find_marker_from(s, 1);
        seq![spec_from_format_string(s.subrange(0, j))] + spec_split_parts(s.skip(j))
    }
}

#[via_fn]
proof fn spec_split_parts_decreases(s: Seq<char>) {
    if s.len() != 0 {
        lemma_find_marker_from_bounds(s, 1);
    }
}

/// How one logical setting configures several stylable sub-parts: an ordered,
/// non-empty sequence of fragments, one per directive block.
pub open spec fn spec_multiple_from_format_string(raw: Seq<char>) -> Seq<SpecPart> {
    if raw.len() == 0 {
        seq![spec_from_format_string(raw)]
    } else {
        spec_split_parts(raw)
    }
}

fn find_marker_from(s: &str, from: usize) -> (r: usize)
    requires
        from <= s@.len(),
    ensures
        r == spec_find_marker_from(s@, from as int),
        from <= r <= s@.len(),
{
    let n = s.unicode_len();
    let mut i: usize = from;
    while i < n && i + 1 < n
        invariant
            n == s@.len(),
            from <= i <= n,
            spec_find_marker_from(s@, from as int) == spec_find_marker_from(s@, i as int),
        decreases n - i,
    {
        if s.get_char(i) == '#' && s.get_char(i + 1) == '[' {
            return i;
        }
        i = i + 1;
    }
    n
}

impl FormattedPart {
    /// Parses one logical setting into its stylable sub-parts, one per
    /// directive block; the sequence is never empty. The auxiliary
    /// configuration carries no per-part overrides among the recognized
    /// options, so it contributes nothing here.
    pub fn multiple_from_format_string(raw: &str, _config: &ConfigMap) -> (r: Vec<FormattedPart>)
        ensures
            r@.map_values(|p: FormattedPart| p@) == spec_multiple_from_format_string(raw@),
            r@.len() >= 1,
    {
        let n = raw.unicode_len();
        let mut parts: Vec<FormattedPart> = Vec::new();
        if n == 0 {
            parts.push(FormattedPart::from_format_string(raw));
            proof {
                assert(parts@.map_values(|p: FormattedPart| p@) =~= spec_multiple_from_format_string(
                    raw@,
                ));
            }
            return parts;
        }
        let mut rest: &str = raw;
        let mut m = n;
        proof {
            assert(parts@.map_values(|p: FormattedPart| p@) + spec_split_parts(raw@)
                =~= spec_split_parts(raw@));
        }
        while m > 0
            invariant
                m == rest@.len(),

                spec_split_parts(raw@) == parts@.map_values(|p: FormattedPart| p@)
                    + spec_split_parts(rest@),
                raw@.len() > 0,
                parts@.len() + rest@.len() >= 1,
            decreases m,
        {
            let j = find_marker_from(rest, 1);
            let piece = rest.substring_char(0, j);
            let part = FormattedPart::from_format_string(piece);
            parts.push(part);
            let next = rest.substring_char(j, m);
            proof {
                assert(piece@ =~= rest@.subrange(0, j as int));
                assert(next@ =~= rest@.skip(j as int));
                assert(parts@.map_values(|p: FormattedPart| p@) =~= parts@.drop_last().map_values(
                    |p: FormattedPart| p@,
                ).push(part@));
                assert(parts@.drop_last().map_values(|p: FormattedPart| p@).push(part@)
                    + spec_split_parts(next@) =~= parts@.drop_last().map_values(
                    |p: FormattedPart| p@,
                ) + (seq![part@] + spec_split_parts(rest@.skip(j as int))));
            }
            rest = next;
            m = rest.unicode_len();
        }
        proof {
            assert(spec_split_parts(rest@) =~= Seq::<SpecPart>::empty());
            assert(parts@.map_values(|p: FormattedPart| p@) + Seq::<SpecPart>::empty()
                =~= parts@.map_values(|p: FormattedPart| p@));
            assert(parts@.len() >= 1);
        }
        parts
    }
}

proof fn lemma_find_marker_from_none(s: Seq<char>, from: int)
    requires
        0 <= from <= s.len(),
        forall|i: int| from <= i < s.len() - 1 ==> !(#[trigger] s[i] == '#' && s[i + 1] == '['),
    ensures
        spec_find_marker_from(s, from) == s.len(),
    decreases s.len() - from,
{
    if from + 2 <= s.len() {
        assert(!(s[from] == '#' && s[from + 1] == '['));
        lemma_find_marker_from_none(s, from + 1);
    }
}

/// A format string holding no directive block past its start configures
/// exactly one sub-part, parsed as the whole string: the concatenated
/// rendering of the sub-parts then reproduces the single-part behavior.
pub proof fn lemma_single_part_round_trip(raw: Seq<char>)
    requires
        forall|i: int| 1 <= i < raw.len() - 1 ==> !(#[trigger] raw[i] == '#' && raw[i + 1] == '['),
    ensures
        spec_multiple_from_format_string(raw) == seq![spec_from_format_string(raw)],
{
    if raw.len() != 0 {
        lemma_find_marker_from_none(raw, 1);
        assert(spec_find_marker_from(raw, 1) == raw.len());
        assert(raw.subrange(0, raw.len() as int) =~= raw);
        assert(raw.skip(raw.len() as int) =~= Seq::<char>::empty());
        assert(spec_split_parts(Seq::<char>::empty()) =~= Seq::<SpecPart>::empty());
        assert(spec_split_parts(raw) == seq![spec_from_format_string(raw)]
            + Seq::<SpecPart>::empty());
        assert(seq![spec_from_format_string(raw)] + Seq::<SpecPart>::empty() =~= seq![
            spec_from_format_string(raw),
        ]);
    }
}

/// A format string with no style directive keeps the default style and its
/// content untouched, and styling any substituted content under it returns
/// that content unchanged: no stray markers for the "no style" case.
pub proof fn lemma_no_directive_round_trip(raw: Seq<char>, content: Seq<char>)
    requires
        !spec_has_directive(raw),
    ensures
        spec_from_format_string(raw).style == Style::spec_plain(),
        spec_from_format_string(raw).content == raw,
        spec_styled(spec_from_format_string(raw).style, content) == content,
{
    lemma_plain_styles_nothing(content);
}

} // verus!
