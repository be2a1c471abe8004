//! The colours that the styles of tmux give.

use vstd::prelude::*;

use crate::laws::naming::decimals_are_read_back;
use crate::style::{color_of_name, Color};
use crate::text::{decimal, first_index, lines_of, split_text, starts_text, trimmed};
use crate::theme::{color, color_of_value, style_color, Theme};

verus! {

/// The default is no colour, and a number behind `colour` or `color` is the colour of that
/// number, where there is one.
pub proof fn a_number_is_a_colour(value: &str, r: Option<Color>, n: nat)
    requires
        call_ensures(color_of_value, (value,), r),
    ensures
        value@ == "default"@ ==> r is None,
        value@ == "colour"@ + decimal(n) && n <= 255 ==> r == Some(Color::Indexed(n as u8)),
        value@ == "color"@ + decimal(n) && n <= 255 ==> r == Some(Color::Indexed(n as u8)),
        value@ == "colour"@ + decimal(n) && n > 255 ==> r is None,
        value@ == "color"@ + decimal(n) && n > 255 ==> r is None,
{
    reveal_strlit("default");
    reveal_strlit("colour");
    reveal_strlit("color");
    decimals_are_read_back(n, 255);
    lemma_begins_with_digit(n);
    if value@ == "colour"@ + decimal(n) {
        assert(value@.subrange(0, 6) =~= "colour"@);
        assert(value@.skip(6) =~= decimal(n));
        assert(value@[0] == 'c' && "default"@[0] == 'd');
    }
    if value@ == "color"@ + decimal(n) {
        assert(value@.subrange(0, 5) =~= "color"@);
        assert(value@.skip(5) =~= decimal(n));
        assert(value@[0] == 'c' && "default"@[0] == 'd');
        assert(value@[5] == decimal(n)[0]);
        assert(value@[4] == 'r' && "colour"@[4] == 'u');
        if starts_text(value@, "colour"@) {
            assert(value@.subrange(0, 6)[4] == "colour"@[4]);
        }
    }
}

proof fn lemma_begins_with_digit(n: nat)
    ensures
        decimal(n).len() > 0,
    decreases n,
{
    if n >= 10 {
        lemma_begins_with_digit(n / 10);
    }
}

/// A part of a style gives a component a value.
pub open spec fn part_gives(part: Seq<char>, component: Seq<char>, value: Seq<char>) -> bool {
    trimmed(part) == component + seq!['='] + value
}

/// The last part of a style that gives a component counts; where none does, the style gives no
/// colour for it.
pub proof fn the_last_part_of_a_style_counts(
    style: &str,
    component: &str,
    value: &str,
    found: Option<Color>,
    r: Option<Color>,
    k: int,
)
    requires
        call_ensures(color, (style, component), r),
        call_ensures(color_of_value, (value,), found),
        !component@.contains('='),
    ensures
        ({
            let parts = split_text(style@, ',');
            &&& 0 <= k < parts.len() && part_gives(parts[k], component@, value@) && (forall|
                j: int,
                other: Seq<char>,
            |
                k < j < parts.len() ==> !#[trigger] part_gives(parts[j], component@, other)) ==> r
                == found
            &&& (forall|j: int, other: Seq<char>|
                0 <= j < parts.len() ==> !#[trigger] part_gives(parts[j], component@, other)) ==> r
                is None
        }),
{
    lemma_last_value(split_text(style@, ','), component@, value@, k);
}

proof fn lemma_part(part: Seq<char>, component: Seq<char>, value: Seq<char>)
    requires
        !component.contains('='),
    ensures
        part_gives(part, component, value) <==> crate::theme::component_value(part, component)
            == Some(value),
{
    let text = trimmed(part);
    let at = first_index(text, '=') as int;
    crate::text::lemma_first_index(text, '=');
    if part_gives(part, component, value) {
        crate::text::lemma_split_first(component, '=', value);
        assert(text.take(at) =~= component);
        assert(text.skip(at + 1) =~= value);
    }
    if crate::theme::component_value(part, component) == Some(value) {
        assert(text[at] == '=');
        assert(text =~= component + seq!['='] + value);
    }
}

proof fn lemma_last_value(
    parts: Seq<Seq<char>>,
    component: Seq<char>,
    value: Seq<char>,
    k: int,
)
    requires
        !component.contains('='),
    ensures
        0 <= k < parts.len() && part_gives(parts[k], component, value) && (forall|
            j: int,
            other: Seq<char>,
        |
            k < j < parts.len() ==> !#[trigger] part_gives(parts[j], component, other))
            ==> crate::theme::last_value(parts, component) == Some(value),
        (forall|j: int, other: Seq<char>|
            0 <= j < parts.len() ==> !#[trigger] part_gives(parts[j], component, other))
            ==> crate::theme::last_value(parts, component) is None,
    decreases parts.len(),
{
    if parts.len() > 0 {
        let front = parts.drop_last();
        let last = parts.len() - 1;
        lemma_last_value(front, component, value, k);
        lemma_part(parts[last], component, value);
        if let Some(given) = crate::theme::component_value(parts[last], component) {
            lemma_part(parts[last], component, given);
            assert(part_gives(parts[last], component, given));
        }
        if 0 <= k < last && part_gives(parts[k], component, value) && (forall|
            j: int,
            other: Seq<char>,
        |
            k < j < parts.len() ==> !#[trigger] part_gives(parts[j], component, other)) {
            assert(front[k] == parts[k]);
            assert forall|j: int, other: Seq<char>| k < j < front.len() implies !#[trigger] part_gives(
                front[j],
                component,
                other,
            ) by {
                assert(!part_gives(parts[j], component, other));
            }
        }
        if forall|j: int, other: Seq<char>|
            0 <= j < parts.len() ==> !#[trigger] part_gives(parts[j], component, other) {
            assert forall|j: int, other: Seq<char>| 0 <= j < front.len() implies !#[trigger] part_gives(
                front[j],
                component,
                other,
            ) by {
                assert(!part_gives(parts[j], component, other));
            }
        }
    }
}

/// A popup's own colours count before those of the status line; the border of a popup gives the
/// accent before the current window does; windows with activity and with a bell give the
/// colours of attention and of errors; and the current window gives those of a selection, where
/// it has both.
pub proof fn each_line_gives_its_colours(styles: &str, r: Theme)
    requires
        call_ensures(Theme::from_styles, (styles,), r),
        lines_of(styles@).len() == 6,
    ensures
        ({
            let lines = lines_of(styles@);
            let popup = lines[0];
            let status = lines[1];
            let current = lines[2];
            let activity = lines[3];
            let bell = lines[4];
            let border = lines[5];
            &&& style_color(popup, "fg"@) is Some ==> r.foreground == style_color(popup, "fg"@)
            &&& style_color(popup, "fg"@) is None ==> r.foreground == style_color(status, "fg"@)
            &&& style_color(popup, "bg"@) is Some ==> r.background == style_color(popup, "bg"@)
            &&& style_color(popup, "bg"@) is None ==> r.background == style_color(status, "bg"@)
            &&& style_color(border, "fg"@) is Some ==> r.accent == style_color(border, "fg"@)
            &&& style_color(border, "fg"@) is None ==> r.accent == style_color(current, "bg"@)
            &&& r.attention == style_color(activity, "fg"@)
            &&& r.error == style_color(bell, "fg"@)
            &&& r.selection is Some <==> style_color(current, "fg"@) is Some && style_color(
                current,
                "bg"@,
            ) is Some
            &&& r.selection matches Some(both) ==> style_color(current, "fg"@) == Some(both.0)
                && style_color(current, "bg"@) == Some(both.1)
        }),
{
}

/// Without styles there are no colours to take over.
pub proof fn without_styles_nothing_is_taken(r: Theme)
    requires
        call_ensures(Theme::detect, (None::<&str>,), r),
    ensures
        r.foreground is None && r.background is None && r.accent is None && r.attention is None
            && r.error is None && r.selection is None,
{
}

/// The names of the colours of a terminal mean those colours.
pub proof fn colours_are_known_by_their_names(name: &str, r: Option<Color>)
    requires
        call_ensures(color_of_name, (name,), r),
    ensures
        name@ == "Reset"@ ==> r == Some(Color::Reset),
        name@ == "Red"@ ==> r == Some(Color::Red),
        name@ == "Green"@ ==> r == Some(Color::Green),
        name@ == "Yellow"@ ==> r == Some(Color::Yellow),
        name@ == "Blue"@ ==> r == Some(Color::Blue),
        name@ == "Cyan"@ ==> r == Some(Color::Cyan),
        name@ == "Gray"@ ==> r == Some(Color::Gray),
{
    reveal_strlit("Reset");
    reveal_strlit("Black");
    reveal_strlit("Red");
    reveal_strlit("Green");
    reveal_strlit("Yellow");
    reveal_strlit("Blue");
    reveal_strlit("Magenta");
    reveal_strlit("Cyan");
    reveal_strlit("Gray");
    assert("Reset"@[0] == 'R' && "Black"@[0] == 'B' && "Red"@[0] == 'R' && "Green"@[0] == 'G'
        && "Yellow"@[0] == 'Y' && "Blue"@[0] == 'B' && "Magenta"@[0] == 'M' && "Cyan"@[0] == 'C'
        && "Gray"@[0] == 'G');
    assert("Reset"@.len() == 5 && "Black"@.len() == 5 && "Red"@.len() == 3 && "Green"@.len() == 5
        && "Blue"@.len() == 4 && "Gray"@.len() == 4);
}

/// A digit of a colour.
pub open spec fn is_hex(c: char, d: int) -> bool {
    ||| '0' <= c <= '9' && d == c as int - '0' as int
    ||| 'a' <= c <= 'f' && d == c as int - 'a' as int + 10
    ||| 'A' <= c <= 'F' && d == c as int - 'A' as int + 10
}

/// Six digits behind a hash are the parts of a colour: red, green and blue.
pub proof fn six_digits_are_a_colour(name: &str, r: Option<Color>, d: Seq<int>)
    requires
        call_ensures(color_of_name, (name,), r),
        name@.len() == 7,
        name@[0] == '#',
        d.len() == 6,
        is_hex(name@[1], d[0]),
        is_hex(name@[2], d[1]),
        is_hex(name@[3], d[2]),
        is_hex(name@[4], d[3]),
        is_hex(name@[5], d[4]),
        is_hex(name@[6], d[5]),
    ensures
        r == Some(
            Color::Rgb(
                (16 * d[0] + d[1]) as u8,
                (16 * d[2] + d[3]) as u8,
                (16 * d[4] + d[5]) as u8,
            ),
        ),
{
    lemma_not_named(name@);
}

proof fn lemma_not_named(name: Seq<char>)
    requires
        name.len() == 7,
        name[0] == '#',
    ensures
        crate::style::named_color(name) == (match crate::style::triple_color(name) {
            Some(color) => Some(color),
            None => crate::style::index_color(name),
        }),
{
    reveal_strlit("Reset");
    reveal_strlit("Black");
    reveal_strlit("Red");
    reveal_strlit("Green");
    reveal_strlit("Yellow");
    reveal_strlit("Blue");
    reveal_strlit("Magenta");
    reveal_strlit("Cyan");
    reveal_strlit("Gray");
    reveal_strlit("DarkGray");
    reveal_strlit("LightRed");
    reveal_strlit("LightGreen");
    reveal_strlit("LightYellow");
    reveal_strlit("LightBlue");
    reveal_strlit("LightMagenta");
    reveal_strlit("LightCyan");
    reveal_strlit("White");
    assert("Magenta"@[0] == 'M');
}

} // verus!
