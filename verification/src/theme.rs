//! The colours of the multiplexer. The terminal's colours stay wherever the multiplexer sets
//! none of its own.

use vstd::prelude::*;

use crate::style::{index_color, indexed, parse_color, spelled_color, Color};
use crate::text::{
    chars_of, find, first_index, lemma_first_index, lines, lines_of, same, split, split_text,
    starts_text, string_of, strip_prefix, texts, trim, trimmed,
};

verus! {

/// What the multiplexer is asked for its styles.
pub const STYLE_FORMAT: &'static str = "#{popup-style}\n#{status-style}\n#{window-status-current-style}\n#{window-status-activity-style}\n#{window-status-bell-style}\n#{popup-border-style}";

/// The colours that the multiplexer sets.
#[derive(Clone, Copy, Debug, Eq, PartialEq)]
pub struct Theme {
    pub foreground: Option<Color>,
    pub background: Option<Color>,
    pub accent: Option<Color>,
    pub attention: Option<Color>,
    pub error: Option<Color>,
    pub selection: Option<(Color, Color)>,
}

/// The colours where the multiplexer sets none.
pub open spec fn no_colors() -> Theme {
    Theme {
        foreground: None,
        background: None,
        accent: None,
        attention: None,
        error: None,
        selection: None,
    }
}

impl Default for Theme {
    fn default() -> (r: Self)
        ensures
            r == no_colors(),
    {
        Theme {
            foreground: None,
            background: None,
            accent: None,
            attention: None,
            error: None,
            selection: None,
        }
    }
}

/// The value that a part of a style gives a component: `COMPONENT=VALUE`.
pub open spec fn component_value(part: Seq<char>, component: Seq<char>) -> Option<Seq<char>> {
    let text = trimmed(part);
    let at = first_index(text, '=');
    if at < text.len() && text.take(at as int) == component {
        Some(text.skip(at as int + 1))
    } else {
        None
    }
}

/// The value that the last of the parts to speak of a component gives it.
pub open spec fn last_value(parts: Seq<Seq<char>>, component: Seq<char>) -> Option<Seq<char>>
    decreases parts.len(),
{
    if parts.len() == 0 {
        None
    } else if component_value(parts.last(), component) is Some {
        component_value(parts.last(), component)
    } else {
        last_value(parts.drop_last(), component)
    }
}

/// The colour that a value stands for.
pub open spec fn value_color(value: Seq<char>) -> Option<Color> {
    if value == "default"@ {
        None
    } else if starts_text(value, "colour"@) {
        index_color(value.skip("colour"@.len() as int))
    } else if starts_text(value, "color"@) {
        index_color(value.skip("color"@.len() as int))
    } else {
        spelled_color(value)
    }
}

/// The colour of a component in a style.
pub open spec fn style_color(style: Seq<char>, component: Seq<char>) -> Option<Color> {
    match last_value(split_text(style, ','), component) {
        Some(value) => value_color(value),
        None => None,
    }
}

fn value_of(part: &str, component: &str) -> (r: Option<String>)
    ensures
        r is Some <==> component_value(part@, component@) is Some,
        r matches Some(value) ==> component_value(part@, component@) == Some(value@),
{
    let text: String = trim(part);
    let chars: Vec<char> = chars_of(text.as_str());
    let at: usize = find(&chars, 0, '=');
    proof {
        assert(chars@.skip(0) =~= text@);
        lemma_first_index(text@, '=');
    }
    if at >= chars.len() {
        return None;
    }
    let key: String = string_of(&chars, 0, at);
    assert(key@ =~= text@.take(at as int));
    if !same(key.as_str(), component) {
        return None;
    }
    let value: String = string_of(&chars, at + 1, chars.len());
    assert(value@ =~= text@.skip(at + 1));
    Some(value)
}

/// The colour of a component in a style.
pub fn color(style: &str, component: &str) -> (r: Option<Color>)
    ensures
        r == style_color(style@, component@),
{
    let parts: Vec<String> = split(style, ',');
    let ghost views = texts(parts@);
    let mut i: usize = parts.len();
    assert(views.take(i as int) =~= views);
    while i > 0
        invariant
            i <= parts@.len(),
            views == texts(parts@),
            views == split_text(style@, ','),
            last_value(views.take(i as int), component@) == last_value(views, component@),
        decreases i,
    {
        proof {
            assert(views.take(i as int).last() == parts@[i - 1]@);
            assert(views.take(i as int).drop_last() =~= views.take(i - 1));
        }
        i -= 1;
        if let Some(value) = value_of(parts[i].as_str(), component) {
            return color_of_value(value.as_str());
        }
    }
    assert(views.take(0).len() == 0);
    None
}

/// The colour that a value stands for.
pub fn color_of_value(value: &str) -> (r: Option<Color>)
    ensures
        r == value_color(value@),
{
    if same(value, "default") {
        return None;
    }
    if let Some(index) = strip_prefix(value, "colour") {
        return indexed(index.as_str());
    }
    if let Some(index) = strip_prefix(value, "color") {
        return indexed(index.as_str());
    }
    parse_color(value)
}

/// A line, or nothing where there are not so many.
pub open spec fn line_at(lines: Seq<Seq<char>>, i: int) -> Seq<char> {
    if i < lines.len() {
        lines[i]
    } else {
        Seq::empty()
    }
}

/// The first of two colours that is set.
pub open spec fn first_set(a: Option<Color>, b: Option<Color>) -> Option<Color> {
    match a {
        Some(color) => Some(color),
        None => b,
    }
}

/// The colours that the multiplexer's styles set.
pub open spec fn theme_of(lines: Seq<Seq<char>>) -> Theme {
    let popup = line_at(lines, 0);
    let status = line_at(lines, 1);
    let selected = line_at(lines, 2);
    Theme {
        foreground: first_set(style_color(popup, "fg"@), style_color(status, "fg"@)),
        background: first_set(style_color(popup, "bg"@), style_color(status, "bg"@)),
        accent: first_set(style_color(line_at(lines, 5), "fg"@), style_color(selected, "bg"@)),
        attention: style_color(line_at(lines, 3), "fg"@),
        error: style_color(line_at(lines, 4), "fg"@),
        selection: match (style_color(selected, "fg"@), style_color(selected, "bg"@)) {
            (Some(fg), Some(bg)) => Some((fg, bg)),
            _ => None,
        },
    }
}

fn line_or_empty(all: &Vec<String>, i: usize) -> (r: String)
    ensures
        r@ == line_at(texts(all@), i as int),
{
    if i < all.len() {
        assert(texts(all@)[i as int] == all@[i as int]@);
        all[i].clone()
    } else {
        String::new()
    }
}

fn set_first(a: Option<Color>, b: Option<Color>) -> (r: Option<Color>)
    ensures
        r == first_set(a, b),
{
    match a {
        Some(color) => Some(color),
        None => b,
    }
}

/// What is shown of a cell of the screen.
#[derive(Clone, Copy, Debug, Eq, PartialEq, Structural)]
pub struct CellStyle {
    pub fg: Color,
    pub bg: Color,
    pub reversed: bool,
    pub bold: bool,
}

impl Theme {
    /// The colours that the multiplexer's styles set, one style to a line.
    pub fn from_styles(styles: &str) -> (r: Self)
        ensures
            r == theme_of(lines_of(styles@)),
    {
        let all: Vec<String> = lines(styles);
        let popup: String = line_or_empty(&all, 0);
        let status: String = line_or_empty(&all, 1);
        let selected: String = line_or_empty(&all, 2);
        let activity: String = line_or_empty(&all, 3);
        let bell: String = line_or_empty(&all, 4);
        let border: String = line_or_empty(&all, 5);
        let selection: Option<(Color, Color)> = match (
            color(selected.as_str(), "fg"),
            color(selected.as_str(), "bg"),
        ) {
            (Some(fg), Some(bg)) => Some((fg, bg)),
            _ => None,
        };
        Theme {
            foreground: set_first(color(popup.as_str(), "fg"), color(status.as_str(), "fg")),
            background: set_first(color(popup.as_str(), "bg"), color(status.as_str(), "bg")),
            accent: set_first(color(border.as_str(), "fg"), color(selected.as_str(), "bg")),
            attention: color(activity.as_str(), "fg"),
            error: color(bell.as_str(), "fg"),
            selection,
        }
    }

    /// The colours where the multiplexer was asked, and answered or not.
    pub fn detect(styles: Option<&str>) -> (r: Self)
        ensures
            r == match styles {
                Some(styles) => theme_of(lines_of(styles@)),
                None => no_colors(),
            },
    {
        match styles {
            Some(styles) => Theme::from_styles(styles),
            None => Theme::default(),
        }
    }

    /// A cell in the multiplexer's colours: the selection in its own, and else each colour of
    /// the terminal in the one that is set for it.
    pub open spec fn recolored(self, cell: CellStyle) -> CellStyle {
        if cell.reversed && self.selection is Some {
            CellStyle {
                fg: (self.selection->0).0,
                bg: (self.selection->0).1,
                reversed: false,
                ..cell
            }
        } else {
            let replacement = match cell.fg {
                Color::Reset | Color::Gray => self.foreground,
                Color::Cyan => self.accent,
                Color::Yellow => self.attention,
                Color::Red => self.error,
                _ => None,
            };
            CellStyle {
                fg: match replacement {
                    Some(color) => color,
                    None => cell.fg,
                },
                bg: match self.background {
                    Some(color) => if cell.bg is Reset {
                        color
                    } else {
                        cell.bg
                    },
                    None => cell.bg,
                },
                ..cell
            }
        }
    }

    /// A cell in the multiplexer's colours.
    pub fn recolor(&self, cell: CellStyle) -> (r: CellStyle)
        ensures
            r == self.recolored(cell),
    {
        let mut r: CellStyle = cell;
        if cell.reversed {
            if let Some((fg, bg)) = self.selection {
                r.reversed = false;
                r.fg = fg;
                r.bg = bg;
                return r;
            }
        }
        let replacement: Option<Color> = match cell.fg {
            Color::Reset | Color::Gray => self.foreground,
            Color::Cyan => self.accent,
            Color::Yellow => self.attention,
            Color::Red => self.error,
            _ => None,
        };
        if let Some(color) = replacement {
            r.fg = color;
        }
        if cell.bg == Color::Reset {
            if let Some(color) = self.background {
                r.bg = color;
            }
        }
        r
    }

    /// Puts cells in the multiplexer's colours.
    pub fn apply(&self, cells: &mut Vec<CellStyle>)
        ensures
            final(cells)@ == old(cells)@.map_values(|cell: CellStyle| self.recolored(cell)),
    {
        let ghost before = cells@;
        let ghost after = before.map_values(|cell: CellStyle| self.recolored(cell));
        let mut i: usize = 0;
        while i < cells.len()
            invariant
                i <= before.len(),
                cells@.len() == before.len(),
                after == before.map_values(|cell: CellStyle| self.recolored(cell)),
                forall|j: int| i <= j < before.len() ==> cells@[j] == before[j],
                forall|j: int| 0 <= j < i ==> #[trigger] cells@[j] == after[j],
            decreases before.len() - i,
        {
            assert(after[i as int] == self.recolored(before[i as int]));
            let cell: CellStyle = self.recolor(cells[i]);
            cells.set(i, cell);
            i += 1;
        }
        assert(cells@ =~= after);
    }
}

/// Without colours of the multiplexer every cell stays as it is.
pub proof fn no_colors_change_nothing(cell: CellStyle)
    ensures
        no_colors().recolored(cell) == cell,
{
}

/// A selection that was recoloured is no longer shown in reverse, and keeps its weight.
pub proof fn a_recoloured_selection_is_readable(theme: Theme, cell: CellStyle)
    requires
        theme.selection is Some,
        cell.reversed,
    ensures
        !theme.recolored(cell).reversed,
        theme.recolored(cell).bold == cell.bold,
        theme.recolored(cell).fg == (theme.selection->0).0,
        theme.recolored(cell).bg == (theme.selection->0).1,
{
}

} // verus!
