//! Visual attributes of a rendered segment (foreground and background color,
//! emphasis) and the styling primitive that wraps a finished text in the
//! escape sequences the host's renderer understands.

use vstd::prelude::*;
use vstd::string::*;

verus! {

/// A color a directive may select by name.
#[derive(Clone, Copy)]
pub enum Color {
    Black,
    Red,
    Green,
    Yellow,
    Blue,
    Magenta,
    Cyan,
    White,
}

/// Resolved visual attributes of one segment. The default (no color, no
/// emphasis) styles a text as itself.
#[derive(Clone, Copy)]
pub struct Style {
    pub fg: Option<Color>,
    pub bg: Option<Color>,
    pub bold: bool,
    pub italic: bool,
}

impl Style {
    /// The "no style" default.
    pub open spec fn spec_plain() -> Style {
        Style { fg: None, bg: None, bold: false, italic: false }
    }

    pub open spec fn is_plain(self) -> bool {
        self == Style::spec_plain()
    }

    pub fn plain() -> (r: Style)
        ensures
            r == Style::spec_plain(),
    {
        Style { fg: None, bg: None, bold: false, italic: false }
    }
}

/// The escape sequence that turns the foreground color `c` on.
pub open spec fn spec_fg_seq(c: Color) -> Seq<char> {
    match c {
        Color::Black => "\u{1b}[30m"@,
        Color::Red => "\u{1b}[31m"@,
        Color::Green => "\u{1b}[32m"@,
        Color::Yellow => "\u{1b}[33m"@,
        Color::Blue => "\u{1b}[34m"@,
        Color::Magenta => "\u{1b}[35m"@,
        Color::Cyan => "\u{1b}[36m"@,
        Color::White => "\u{1b}[37m"@,
    }
}

/// The escape sequence that turns the background color `c` on.
pub open spec fn spec_bg_seq(c: Color) -> Seq<char> {
    match c {
        Color::Black => "\u{1b}[40m"@,
        Color::Red => "\u{1b}[41m"@,
        Color::Green => "\u{1b}[42m"@,
        Color::Yellow => "\u{1b}[43m"@,
        Color::Blue => "\u{1b}[44m"@,
        Color::Magenta => "\u{1b}[45m"@,
        Color::Cyan => "\u{1b}[46m"@,
        Color::White => "\u{1b}[47m"@,
    }
}

/// What stands before the styled text: one escape sequence per attribute the
/// style sets, in a fixed order; nothing for the default style.
pub open spec fn spec_prefix(st: Style) -> Seq<char> {
    (if st.bold {
        "\u{1b}[1m"@
    } else {
        Seq::<char>::empty()
    }) + (if st.italic {
        "\u{1b}[3m"@
    } else {
        Seq::<char>::empty()
    }) + (match st.fg {
        Some(c) => spec_fg_seq(c),
        None => Seq::<char>::empty(),
    }) + (match st.bg {
        Some(c) => spec_bg_seq(c),
        None => Seq::<char>::empty(),
    })
}

/// What stands after the styled text: a reset, unless the style is the
/// default.
pub open spec fn spec_suffix(st: Style) -> Seq<char> {
    if st.is_plain() {
        Seq::<char>::empty()
    } else {
        "\u{1b}[0m"@
    }
}

/// `content`, wrapped in the markers of `st`. The default style returns the
/// content unchanged.
pub open spec fn spec_styled(st: Style, content: Seq<char>) -> Seq<char> {
    spec_prefix(st) + content + spec_suffix(st)
}

/// The default style adds no markers at all.
pub proof fn lemma_plain_styles_nothing(content: Seq<char>)
    ensures
        spec_styled(Style::spec_plain(), content) == content,
{
    assert(spec_styled(Style::spec_plain(), content) =~= content);
}

fn fg_lit(c: Color) -> (r: &'static str)
    ensures
        r@ == spec_fg_seq(c),
{
    match c {
        Color::Black => "\u{1b}[30m",
        Color::Red => "\u{1b}[31m",
        Color::Green => "\u{1b}[32m",
        Color::Yellow => "\u{1b}[33m",
        Color::Blue => "\u{1b}[34m",
        Color::Magenta => "\u{1b}[35m",
        Color::Cyan => "\u{1b}[36m",
        Color::White => "\u{1b}[37m",
    }
}

fn bg_lit(c: Color) -> (r: &'static str)
    ensures
        r@ == spec_bg_seq(c),
{
    match c {
        Color::Black => "\u{1b}[40m",
        Color::Red => "\u{1b}[41m",
        Color::Green => "\u{1b}[42m",
        Color::Yellow => "\u{1b}[43m",
        Color::Blue => "\u{1b}[44m",
        Color::Magenta => "\u{1b}[45m",
        Color::Cyan => "\u{1b}[46m",
        Color::White => "\u{1b}[47m",
    }
}

impl Style {
    fn is_plain_exec(&self) -> (r: bool)
        ensures
            r == self.is_plain(),
    {
        self.fg.is_none() && self.bg.is_none() && !self.bold && !self.italic
    }

    /// Applies this style to `content`: markers on, the text, markers off.
    pub fn apply(&self, content: &str) -> (r: String)
        ensures
            r@ == spec_styled(*self, content@),
    {
        let mut out = String::new();
        if self.bold {
            out.append("\u{1b}[1m");
        }
        if self.italic {
            out.append("\u{1b}[3m");
        }
        match self.fg {
            Some(c) => out.append(fg_lit(c)),
            None => (),
        }
        match self.bg {
            Some(c) => out.append(bg_lit(c)),
            None => (),
        }
        out.append(content);
        if !self.is_plain_exec() {
            out.append("\u{1b}[0m");
        }
        proof {
            assert(out@ =~= spec_styled(*self, content@));
        }
        out
    }
}

} // verus!
