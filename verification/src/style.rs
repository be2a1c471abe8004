//! Colours, styles and styled text.

use vstd::prelude::*;

use crate::text::{chars_of, parse_number, parsed_number, same};

verus! {

/// A colour of the terminal.
#[derive(Clone, Copy, Debug, Eq, PartialEq, Structural)]
pub enum Color {
    Reset,
    Black,
    Red,
    Green,
    Yellow,
    Blue,
    Magenta,
    Cyan,
    Gray,
    DarkGray,
    LightRed,
    LightGreen,
    LightYellow,
    LightBlue,
    LightMagenta,
    LightCyan,
    White,
    Rgb(u8, u8, u8),
    Indexed(u8),
}

/// How text is shown. A colour that is not given is left as it is.
#[derive(Clone, Copy, Debug, Eq, PartialEq, Structural)]
pub struct TextStyle {
    pub fg: Option<Color>,
    pub bg: Option<Color>,
    pub bold: bool,
    pub dim: bool,
    pub reversed: bool,
    pub never_dim: bool,
}

/// Text as it comes.
pub open spec fn plain_style() -> TextStyle {
    TextStyle {
        fg: None,
        bg: None,
        bold: false,
        dim: false,
        reversed: false,
        never_dim: false,
    }
}

/// Text in a colour.
pub open spec fn coloured(color: Color) -> TextStyle {
    TextStyle { fg: Some(color), ..plain_style() }
}

/// The same in bold.
pub open spec fn emboldened(style: TextStyle) -> TextStyle {
    TextStyle { bold: true, ..style }
}

impl TextStyle {
    /// Text as it comes.
    pub fn plain() -> (r: Self)
        ensures
            r == plain_style(),
    {
        TextStyle {
            fg: None,
            bg: None,
            bold: false,
            dim: false,
            reversed: false,
            never_dim: false,
        }
    }

    /// Text in a colour.
    pub fn fg(color: Color) -> (r: Self)
        ensures
            r == coloured(color),
    {
        let mut r: TextStyle = TextStyle::plain();
        r.fg = Some(color);
        r
    }

    /// The same in bold.
    pub fn bold(self) -> (r: Self)
        ensures
            r == emboldened(self),
    {
        let mut r: TextStyle = self;
        r.bold = true;
        r
    }
}

/// A piece of text and how it is shown.
#[derive(Debug, Eq, PartialEq)]
pub struct StyledSpan {
    pub text: String,
    pub style: TextStyle,
}

/// A piece of text and how it is shown.
#[verifier::ext_equal]
pub struct SpanView {
    pub text: Seq<char>,
    pub style: TextStyle,
}

impl View for StyledSpan {
    type V = SpanView;

    open spec fn view(&self) -> SpanView {
        SpanView { text: self.text@, style: self.style }
    }
}

/// Pieces of text.
pub open spec fn span_views(spans: Seq<StyledSpan>) -> Seq<SpanView> {
    spans.map_values(|span: StyledSpan| span@)
}

/// Lines of pieces of text.
pub open spec fn line_views(lines: Seq<Vec<StyledSpan>>) -> Seq<Seq<SpanView>> {
    lines.map_values(|line: Vec<StyledSpan>| span_views(line@))
}

/// A piece of text.
pub open spec fn span_of(text: Seq<char>, style: TextStyle) -> SpanView {
    SpanView { text, style }
}

/// A piece of text that is shown as it comes.
pub open spec fn raw_of(text: Seq<char>) -> SpanView {
    SpanView { text, style: plain_style() }
}

/// A piece of text.
pub fn styled(text: &str, style: TextStyle) -> (r: StyledSpan)
    ensures
        r@ == span_of(text@, style),
{
    StyledSpan { text: text.to_owned(), style }
}

/// A piece of text that is shown as it comes.
pub fn raw(text: &str) -> (r: StyledSpan)
    ensures
        r@ == raw_of(text@),
{
    StyledSpan { text: text.to_owned(), style: TextStyle::plain() }
}

// ---- reading colours ----

/// The name that a colour goes by once it is read, where it can be read, as
/// `ratatui::style::Color` gives it.
pub uninterp spec fn color_name(value: Seq<char>) -> Option<Seq<char>>;

/// `<ratatui::style::Color as FromStr>::from_str` reads the name of a colour, an index or a
/// hexadecimal triple, in many spellings, and fails on other text. The colour is handed on by
/// the name that `Display` writes for it, which says which colour it is. The result depends on
/// the text alone and is named, not spelled out.
#[verifier::external_body]
fn read_color_name(value: &str) -> (r: Option<String>)
    ensures
        (match r {
            Some(name) => Some(name@),
            None => None,
        }) == color_name(value@),
{
    value.parse::<ratatui::style::Color>().ok().map(|color| color.to_string())
}

/// The value of a hexadecimal digit.
pub open spec fn hex_value(c: char) -> Option<u8> {
    if '0' <= c <= '9' {
        Some((c as u8 - '0' as u8) as u8)
    } else if 'a' <= c <= 'f' {
        Some((c as u8 - 'a' as u8 + 10) as u8)
    } else if 'A' <= c <= 'F' {
        Some((c as u8 - 'A' as u8 + 10) as u8)
    } else {
        None
    }
}

fn hex_of(c: char) -> (r: Option<u8>)
    ensures
        r == hex_value(c),
        r matches Some(n) ==> n < 16,
{
    if '0' <= c && c <= '9' {
        Some(c as u8 - '0' as u8)
    } else if 'a' <= c && c <= 'f' {
        Some(c as u8 - 'a' as u8 + 10)
    } else if 'A' <= c && c <= 'F' {
        Some(c as u8 - 'A' as u8 + 10)
    } else {
        None
    }
}

/// A byte of two hexadecimal digits.
pub open spec fn hex_pair(high: char, low: char) -> Option<u8> {
    match (hex_value(high), hex_value(low)) {
        (Some(a), Some(b)) => Some((a * 16 + b) as u8),
        _ => None,
    }
}

fn pair_of(high: char, low: char) -> (r: Option<u8>)
    ensures
        r == hex_pair(high, low),
{
    match (hex_of(high), hex_of(low)) {
        (Some(a), Some(b)) => Some(a * 16 + b),
        _ => None,
    }
}

/// The colour of a triple: a number sign and six hexadecimal digits.
pub open spec fn triple_color(name: Seq<char>) -> Option<Color> {
    if name.len() == 7 && name[0] == '#' {
        match (
            hex_pair(name[1], name[2]),
            hex_pair(name[3], name[4]),
            hex_pair(name[5], name[6]),
        ) {
            (Some(r), Some(g), Some(b)) => Some(Color::Rgb(r, g, b)),
            _ => None,
        }
    } else {
        None
    }
}

/// The colour of a name: one of the terminal's, a triple, or an index.
pub open spec fn named_color(name: Seq<char>) -> Option<Color> {
    if name == "Reset"@ {
        Some(Color::Reset)
    } else if name == "Black"@ {
        Some(Color::Black)
    } else if name == "Red"@ {
        Some(Color::Red)
    } else if name == "Green"@ {
        Some(Color::Green)
    } else if name == "Yellow"@ {
        Some(Color::Yellow)
    } else if name == "Blue"@ {
        Some(Color::Blue)
    } else if name == "Magenta"@ {
        Some(Color::Magenta)
    } else if name == "Cyan"@ {
        Some(Color::Cyan)
    } else if name == "Gray"@ {
        Some(Color::Gray)
    } else if name == "DarkGray"@ {
        Some(Color::DarkGray)
    } else if name == "LightRed"@ {
        Some(Color::LightRed)
    } else if name == "LightGreen"@ {
        Some(Color::LightGreen)
    } else if name == "LightYellow"@ {
        Some(Color::LightYellow)
    } else if name == "LightBlue"@ {
        Some(Color::LightBlue)
    } else if name == "LightMagenta"@ {
        Some(Color::LightMagenta)
    } else if name == "LightCyan"@ {
        Some(Color::LightCyan)
    } else if name == "White"@ {
        Some(Color::White)
    } else {
        match triple_color(name) {
            Some(color) => Some(color),
            None => index_color(name),
        }
    }
}

/// The colour of an index.
pub open spec fn index_color(text: Seq<char>) -> Option<Color> {
    match parsed_number(text, u8::MAX as nat) {
        Some(index) => Some(Color::Indexed(index as u8)),
        None => None,
    }
}

fn triple_of(name: &str) -> (r: Option<Color>)
    ensures
        r == triple_color(name@),
{
    let chars: Vec<char> = chars_of(name);
    if chars.len() != 7 || chars[0] != '#' {
        return None;
    }
    match (
        pair_of(chars[1], chars[2]),
        pair_of(chars[3], chars[4]),
        pair_of(chars[5], chars[6]),
    ) {
        (Some(r), Some(g), Some(b)) => Some(Color::Rgb(r, g, b)),
        _ => None,
    }
}

/// The colour of an index.
pub fn indexed(text: &str) -> (r: Option<Color>)
    ensures
        r == index_color(text@),
{
    match parse_number(text, u8::MAX as u64) {
        Some(index) => Some(Color::Indexed(index as u8)),
        None => None,
    }
}

/// The colour of a name: one of the terminal's, a triple, or an index.
pub fn color_of_name(name: &str) -> (r: Option<Color>)
    ensures
        r == named_color(name@),
{
    if same(name, "Reset") {
        Some(Color::Reset)
    } else if same(name, "Black") {
        Some(Color::Black)
    } else if same(name, "Red") {
        Some(Color::Red)
    } else if same(name, "Green") {
        Some(Color::Green)
    } else if same(name, "Yellow") {
        Some(Color::Yellow)
    } else if same(name, "Blue") {
        Some(Color::Blue)
    } else if same(name, "Magenta") {
        Some(Color::Magenta)
    } else if same(name, "Cyan") {
        Some(Color::Cyan)
    } else if same(name, "Gray") {
        Some(Color::Gray)
    } else if same(name, "DarkGray") {
        Some(Color::DarkGray)
    } else if same(name, "LightRed") {
        Some(Color::LightRed)
    } else if same(name, "LightGreen") {
        Some(Color::LightGreen)
    } else if same(name, "LightYellow") {
        Some(Color::LightYellow)
    } else if same(name, "LightBlue") {
        Some(Color::LightBlue)
    } else if same(name, "LightMagenta") {
        Some(Color::LightMagenta)
    } else if same(name, "LightCyan") {
        Some(Color::LightCyan)
    } else if same(name, "White") {
        Some(Color::White)
    } else {
        match triple_of(name) {
            Some(color) => Some(color),
            None => indexed(name),
        }
    }
}

/// The colour that a text spells.
pub open spec fn spelled_color(value: Seq<char>) -> Option<Color> {
    match color_name(value) {
        Some(name) => named_color(name),
        None => None,
    }
}

/// The colour that a text spells.
pub fn parse_color(value: &str) -> (r: Option<Color>)
    ensures
        r == spelled_color(value@),
{
    match read_color_name(value) {
        Some(name) => color_of_name(name.as_str()),
        None => None,
    }
}

} // verus!
