use rollcall::style::{color_of_name, indexed, parse_color, Color, TextStyle};
use rollcall::theme::{color, color_of_value, CellStyle, Theme, STYLE_FORMAT};

fn cell() -> CellStyle {
    CellStyle {
        fg: Color::Reset,
        bg: Color::Reset,
        reversed: false,
        bold: false,
    }
}

#[test]
fn accepts_rgb_named_and_indexed_tmux_colors() {
    assert_eq!(
        color("fg=#c4a7e7,bold", "fg"),
        Some(Color::Rgb(196, 167, 231))
    );
    assert_eq!(color("bg=colour234", "bg"), Some(Color::Indexed(234)));
    assert_eq!(color("fg=red", "fg"), Some(Color::Red));
    assert_eq!(color("fg=default", "fg"), None);
    assert_eq!(color("fg=nonsense", "fg"), None);
}

#[test]
fn no_tmux_style_keeps_terminal_palette_and_reverse_selection() {
    let mut buffer = vec![cell(), cell()];
    buffer[0].fg = Color::Cyan;
    buffer[1].reversed = true;
    let before = buffer.clone();
    Theme::default().apply(&mut buffer);
    assert_eq!(buffer, before);
}

#[test]
fn applies_tmux_background_accent_and_readable_selection() {
    let theme = Theme::from_styles(
        "fg=#d3c6aa,bg=#232a2e\nbg=green\nfg=#232a2e,bg=#c4a7e7,bold\nfg=yellow\nfg=red\nfg=#c4a7e7",
    );
    let mut buffer = vec![cell(), cell()];
    buffer[0].fg = Color::Cyan;
    buffer[1].reversed = true;
    buffer[1].bold = true;
    theme.apply(&mut buffer);
    assert_eq!(buffer[0].fg, Color::Rgb(196, 167, 231));
    assert_eq!(buffer[0].bg, Color::Rgb(35, 42, 46));
    assert_eq!(buffer[1].fg, Color::Rgb(35, 42, 46));
    assert_eq!(buffer[1].bg, Color::Rgb(196, 167, 231));
    assert!(buffer[1].bold);
    assert!(!buffer[1].reversed);
}

#[test]
fn the_styles_of_tmux_are_read_line_by_line() {
    assert_eq!(STYLE_FORMAT.lines().count(), 6);
    assert_eq!(Theme::detect(None), Theme::default());
    assert_eq!(
        Theme::detect(Some("fg=red,bg=black")),
        Theme::from_styles("fg=red,bg=black")
    );
    assert_eq!(Theme::from_styles("fg=red").foreground, Some(Color::Red));
    assert_eq!(
        Theme::default().recolor(cell()),
        cell()
    );
}

#[test]
fn colors_are_read_by_name_number_and_parts() {
    assert_eq!(parse_color("light blue"), Some(Color::LightBlue));
    assert_eq!(parse_color("#010203"), Some(Color::Rgb(1, 2, 3)));
    assert_eq!(parse_color("7"), Some(Color::Indexed(7)));
    assert_eq!(parse_color("256"), None);
    assert_eq!(indexed("255"), Some(Color::Indexed(255)));
    assert_eq!(indexed("256"), None);
    assert_eq!(color_of_value("default"), None);
    assert_eq!(color_of_value("colour7"), Some(Color::Indexed(7)));
    assert_eq!(color_of_name("Red"), Some(Color::Red));
    assert_eq!(color_of_name("plaid"), None);
}

#[test]
fn styles_are_built_up() {
    let style = TextStyle::fg(Color::Red).bold();
    assert_eq!(style.fg, Some(Color::Red));
    assert!(style.bold);
    assert!(!TextStyle::plain().bold);
}
