//! The looks of the picker.

use vstd::prelude::*;

use crate::style::{Color, TextStyle};
use crate::text::{ascii_lower, same, to_ascii_lower, trim, trimmed};

verus! {

/// The look that the user chose.
#[derive(Clone, Copy, Debug, Eq, PartialEq, Structural)]
pub enum Theme {
    Terminal,
    Everforest,
    Tmux,
}

/// No look goes by the name that was given.
#[derive(Clone, Copy, Debug, Eq, PartialEq, Structural)]
pub struct UnknownTheme;

impl UnknownTheme {
    /// What the user is told.
    pub fn message(&self) -> (r: &'static str)
        ensures
            r@ == "ROLLCALL_THEME must be terminal, everforest, or tmux"@,
    {
        "ROLLCALL_THEME must be terminal, everforest, or tmux"
    }
}

/// The colours of a look.
#[derive(Clone, Copy, Debug, Eq, PartialEq, Structural)]
pub struct Palette {
    pub background: Color,
    pub text: Color,
    pub muted: Color,
    pub selection: Color,
    pub green: Color,
    pub aqua: Color,
    pub blue: Color,
    pub yellow: Color,
    pub red: Color,
}

/// The terminal's own colours.
pub open spec fn terminal_palette() -> Palette {
    Palette {
        background: Color::Reset,
        text: Color::Reset,
        muted: Color::Reset,
        selection: Color::Reset,
        green: Color::Green,
        aqua: Color::Cyan,
        blue: Color::Blue,
        yellow: Color::Yellow,
        red: Color::Red,
    }
}

/// Everforest Dark, medium contrast: <https://github.com/sainnhe/everforest>.
pub open spec fn everforest_palette() -> Palette {
    Palette {
        background: Color::Rgb(0x2d, 0x35, 0x3b),
        text: Color::Rgb(0xd3, 0xc6, 0xaa),
        muted: Color::Rgb(0x9d, 0xa9, 0xa0),
        selection: Color::Rgb(0x42, 0x50, 0x47),
        green: Color::Rgb(0xa7, 0xc0, 0x80),
        aqua: Color::Rgb(0x83, 0xc0, 0x92),
        blue: Color::Rgb(0x7f, 0xbb, 0xb3),
        yellow: Color::Rgb(0xdb, 0xbc, 0x7f),
        red: Color::Rgb(0xe6, 0x7e, 0x80),
    }
}

/// The look of a name, in small or capital letters; without a name it is the terminal's.
pub open spec fn theme_named(value: Option<Seq<char>>) -> Option<Theme> {
    match value {
        None => Some(Theme::Terminal),
        Some(value) => {
            let name = ascii_lower(trimmed(value));
            if name.len() == 0 || name == "terminal"@ {
                Some(Theme::Terminal)
            } else if name == "everforest"@ {
                Some(Theme::Everforest)
            } else if name == "tmux"@ {
                Some(Theme::Tmux)
            } else {
                None
            }
        },
    }
}

impl Theme {
    /// The look of a name, in small or capital letters.
    pub fn parse(value: Option<&str>) -> (r: Result<Self, UnknownTheme>)
        ensures
            r is Ok <==> theme_named(
                match value {
                    Some(value) => Some(value@),
                    None => None,
                },
            ) is Some,
            r matches Ok(theme) ==> theme_named(
                match value {
                    Some(value) => Some(value@),
                    None => None,
                },
            ) == Some(theme),
    {
        let name: String = match value {
            Some(value) => to_ascii_lower(trim(value).as_str()),
            None => {
                return Ok(Theme::Terminal);
            },
        };
        if name.as_str().is_empty() || same(name.as_str(), "terminal") {
            Ok(Theme::Terminal)
        } else if same(name.as_str(), "everforest") {
            Ok(Theme::Everforest)
        } else if same(name.as_str(), "tmux") {
            Ok(Theme::Tmux)
        } else {
            Err(UnknownTheme)
        }
    }

    /// The name of the look.
    pub open spec fn word(self) -> Seq<char> {
        match self {
            Theme::Terminal => "terminal"@,
            Theme::Everforest => "everforest"@,
            Theme::Tmux => "tmux"@,
        }
    }

    /// The name of the look.
    pub fn name(self) -> (r: &'static str)
        ensures
            r@ == self.word(),
    {
        match self {
            Theme::Terminal => "terminal",
            Theme::Everforest => "everforest",
            Theme::Tmux => "tmux",
        }
    }

    /// The colours of the look; the multiplexer's are put in place of the terminal's later.
    pub open spec fn colors(self) -> Palette {
        match self {
            Theme::Everforest => everforest_palette(),
            _ => terminal_palette(),
        }
    }

    /// The colours of the look.
    pub fn palette(self) -> (r: Palette)
        ensures
            r == self.colors(),
    {
        match self {
            Theme::Everforest => Palette {
                background: Color::Rgb(0x2d, 0x35, 0x3b),
                text: Color::Rgb(0xd3, 0xc6, 0xaa),
                muted: Color::Rgb(0x9d, 0xa9, 0xa0),
                selection: Color::Rgb(0x42, 0x50, 0x47),
                green: Color::Rgb(0xa7, 0xc0, 0x80),
                aqua: Color::Rgb(0x83, 0xc0, 0x92),
                blue: Color::Rgb(0x7f, 0xbb, 0xb3),
                yellow: Color::Rgb(0xdb, 0xbc, 0x7f),
                red: Color::Rgb(0xe6, 0x7e, 0x80),
            },
            _ => Palette {
                background: Color::Reset,
                text: Color::Reset,
                muted: Color::Reset,
                selection: Color::Reset,
                green: Color::Green,
                aqua: Color::Cyan,
                blue: Color::Blue,
                yellow: Color::Yellow,
                red: Color::Red,
            },
        }
    }

    /// How the whole screen is shown.
    pub open spec fn base(self) -> TextStyle {
        TextStyle {
            fg: Some(self.colors().text),
            bg: Some(self.colors().background),
            bold: false,
            dim: false,
            reversed: false,
            never_dim: false,
        }
    }

    /// How the whole screen is shown.
    pub fn base_style(self) -> (r: TextStyle)
        ensures
            r == self.base(),
    {
        let palette: Palette = self.palette();
        TextStyle {
            fg: Some(palette.text),
            bg: Some(palette.background),
            bold: false,
            dim: false,
            reversed: false,
            never_dim: false,
        }
    }

    /// How the row under the cursor is shown: in reverse where the look has no colour for it.
    pub open spec fn selected(self) -> TextStyle {
        TextStyle {
            fg: Some(self.colors().text),
            bg: Some(self.colors().selection),
            bold: true,
            dim: false,
            reversed: !(self is Everforest),
            never_dim: true,
        }
    }

    /// How the row under the cursor is shown.
    pub fn selection_style(self) -> (r: TextStyle)
        ensures
            r == self.selected(),
    {
        let palette: Palette = self.palette();
        let reversed: bool = match self {
            Theme::Everforest => false,
            _ => true,
        };
        TextStyle {
            fg: Some(palette.text),
            bg: Some(palette.selection),
            bold: true,
            dim: false,
            reversed,
            never_dim: true,
        }
    }

    /// How what matters less is shown: dim where the look has no colour for it.
    pub open spec fn muted(self) -> TextStyle {
        TextStyle {
            fg: Some(self.colors().muted),
            bg: None,
            bold: false,
            dim: !(self is Everforest),
            reversed: false,
            never_dim: false,
        }
    }

    /// How what matters less is shown.
    pub fn muted_style(self) -> (r: TextStyle)
        ensures
            r == self.muted(),
    {
        let dim: bool = match self {
            Theme::Everforest => false,
            _ => true,
        };
        TextStyle {
            fg: Some(self.palette().muted),
            bg: None,
            bold: false,
            dim,
            reversed: false,
            never_dim: false,
        }
    }
}

/// A look is found again by the name under which it is handed on.
pub proof fn theme_names_round_trip(theme: Theme)
    ensures
        theme_named(Some(theme.word())) == Some(theme),
{
    reveal_strlit("terminal");
    reveal_strlit("everforest");
    reveal_strlit("tmux");
    let name = theme.word();
    crate::text::lemma_leading_spaces_is(name, 0);
    assert(trimmed(name) =~= name) by {
        assert(name.skip(0) =~= name);
    }
    assert(ascii_lower(name) =~= name);
}

/// A colour that the user's terminal chooses.
pub open spec fn is_terminal_color(color: Color) -> bool {
    !(color is Rgb) && !(color is Indexed)
}

/// Without a look of its own the picker paints no background, and every colour it uses is one
/// that the user's terminal chooses.
pub proof fn the_terminal_look_keeps_the_users_colors(theme: Theme)
    requires
        !(theme is Everforest),
    ensures
        theme.base().bg == Some(Color::Reset),
        theme.base().fg == Some(Color::Reset),
        is_terminal_color(theme.colors().text),
        is_terminal_color(theme.colors().muted),
        is_terminal_color(theme.colors().selection),
        is_terminal_color(theme.colors().green),
        is_terminal_color(theme.colors().aqua),
        is_terminal_color(theme.colors().blue),
        is_terminal_color(theme.colors().yellow),
        is_terminal_color(theme.colors().red),
{
}

} // verus!
