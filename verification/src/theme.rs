//! Colors and themes.

use crate::text::{
    char_views, chars_of, fields_of, has_prefix, lowered, parse_u8, parsed_u8, same_chars, split_fields,
    starts_with, sub_chars, to_lower, trim_chars, trimmed,
};
use vstd::prelude::*;

verus! {

/// A color of the terminal.
#[derive(Clone, Copy, Debug, PartialEq, Eq, Structural)]
pub enum Color {
    /// Red, green and blue.
    Rgb(u8, u8, u8),
    /// An entry of the palette of 256 colors.
    Indexed(u8),
    Black,
    White,
    Gray,
    Red,
    Green,
    Yellow,
    Blue,
    Magenta,
    Cyan,
}

/// The colors that the screen is drawn with.
#[derive(Clone, Copy, Debug, PartialEq, Eq, Structural)]
pub struct Theme {
    pub primary: Color,
    pub accent: Color,
    pub warn: Color,
    pub error: Color,
    pub success: Color,
    pub fg: Color,
    pub bg: Color,
    pub comment: Color,
}

/// The theme `cyber-nord`, which is also the theme of an unknown name.
pub open spec fn default_theme() -> Theme {
    Theme {
        primary: Color::Rgb(100, 181, 255),
        accent: Color::Rgb(255, 64, 160),
        warn: Color::Rgb(231, 217, 140),
        error: Color::Rgb(255, 85, 85),
        success: Color::Rgb(100, 181, 255),
        fg: Color::Rgb(221, 227, 234),
        bg: Color::Rgb(23, 26, 34),
        comment: Color::Rgb(90, 100, 115),
    }
}

/// The theme `dracula`.
pub open spec fn dracula_theme() -> Theme {
    Theme {
        primary: Color::Rgb(98, 114, 164),
        accent: Color::Rgb(255, 121, 198),
        warn: Color::Rgb(241, 250, 140),
        error: Color::Rgb(255, 85, 85),
        success: Color::Rgb(98, 114, 164),
        fg: Color::Rgb(248, 248, 242),
        bg: Color::Rgb(40, 42, 54),
        comment: Color::Rgb(98, 114, 164),
    }
}

/// The theme `gruvbox-dark`.
pub open spec fn gruvbox_dark_theme() -> Theme {
    Theme {
        primary: Color::Rgb(250, 189, 47),
        accent: Color::Rgb(204, 36, 29),
        warn: Color::Rgb(250, 189, 47),
        error: Color::Rgb(204, 36, 29),
        success: Color::Rgb(250, 189, 47),
        fg: Color::Rgb(235, 219, 178),
        bg: Color::Rgb(29, 32, 33),
        comment: Color::Rgb(146, 131, 116),
    }
}

/// The theme `one-dark`.
pub open spec fn one_dark_theme() -> Theme {
    Theme {
        primary: Color::Rgb(97, 175, 239),
        accent: Color::Rgb(198, 120, 221),
        warn: Color::Rgb(229, 192, 123),
        error: Color::Rgb(224, 108, 117),
        success: Color::Rgb(97, 175, 239),
        fg: Color::Rgb(171, 178, 191),
        bg: Color::Rgb(40, 44, 52),
        comment: Color::Rgb(92, 99, 112),
    }
}

/// The built-in theme of the name `name`.
pub open spec fn named_theme(name: Seq<char>) -> Theme {
    if name == "dracula"@ {
        dracula_theme()
    } else if name == "gruvbox-dark"@ {
        gruvbox_dark_theme()
    } else if name == "one-dark"@ {
        one_dark_theme()
    } else {
        default_theme()
    }
}

/// The color `#RRGGBB` for the six characters `hex`: each pair is a number
/// in base 16.
pub open spec fn hex6_color(hex: Seq<char>) -> Option<Color> {
    match (
        parsed_u8(hex.subrange(0, 2), 16),
        parsed_u8(hex.subrange(2, 4), 16),
        parsed_u8(hex.subrange(4, 6), 16),
    ) {
        (Some(r), Some(g), Some(b)) => Some(Color::Rgb(r, g, b)),
        _ => None,
    }
}

/// The color `#RGB` for the three characters `hex`: each is a digit of base
/// 16 that stands for the pair of itself twice.
pub open spec fn hex3_color(hex: Seq<char>) -> Option<Color> {
    match (
        parsed_u8(hex.subrange(0, 1), 16),
        parsed_u8(hex.subrange(1, 2), 16),
        parsed_u8(hex.subrange(2, 3), 16),
    ) {
        (Some(r), Some(g), Some(b)) => Some(
            Color::Rgb((r * 17) as u8, (g * 17) as u8, (b * 17) as u8),
        ),
        _ => None,
    }
}

/// What stands between `rgb(` and `)` in `s`, cut at each comma, if `s` has
/// that form.
pub open spec fn rgb_fields(s: Seq<char>) -> Option<Seq<Seq<char>>> {
    let open = "rgb("@;
    if has_prefix(s, open) && s.len() > open.len() && s.last() == ')' {
        Some(fields_of(s.subrange(open.len() as int, s.len() - 1), ','))
    } else {
        None
    }
}

/// The color for three fields: each, without the white space around it, is a
/// number in base 10.
pub open spec fn rgb_color(fields: Seq<Seq<char>>) -> Option<Color> {
    match (
        parsed_u8(trimmed(fields[0]), 10),
        parsed_u8(trimmed(fields[1]), 10),
        parsed_u8(trimmed(fields[2]), 10),
    ) {
        (Some(r), Some(g), Some(b)) => Some(Color::Rgb(r, g, b)),
        _ => None,
    }
}

/// The color `ansi:N` or `index:N` of the palette, where `N` is a number in
/// base 10.
pub open spec fn indexed_color(s: Seq<char>) -> Option<Color> {
    let number = if has_prefix(s, "ansi:"@) {
        parsed_u8(s.skip("ansi:"@.len() as int), 10)
    } else if has_prefix(s, "index:"@) {
        parsed_u8(s.skip("index:"@.len() as int), 10)
    } else {
        None
    };
    match number {
        Some(n) => Some(Color::Indexed(n)),
        None => None,
    }
}

/// The color of the name `name`, which is in small letters.
pub open spec fn named_color(name: Seq<char>) -> Option<Color> {
    if name == "black"@ {
        Some(Color::Black)
    } else if name == "white"@ {
        Some(Color::White)
    } else if name == "gray"@ || name == "grey"@ {
        Some(Color::Gray)
    } else if name == "red"@ {
        Some(Color::Red)
    } else if name == "green"@ {
        Some(Color::Green)
    } else if name == "yellow"@ {
        Some(Color::Yellow)
    } else if name == "blue"@ {
        Some(Color::Blue)
    } else if name == "magenta"@ || name == "purple"@ {
        Some(Color::Magenta)
    } else if name == "cyan"@ {
        Some(Color::Cyan)
    } else {
        None
    }
}

/// The color that `input` spells, white space around it aside. The forms
/// are tried in this order, and the first that fits decides: `#RRGGBB` and
/// `#RGB`; `rgb(r,g,b)`; `ansi:N` and `index:N`, which give way to the names
/// where `N` is no number; and the names, in any mix of small and capital
/// letters.
pub open spec fn parsed_color(input: Seq<char>) -> Option<Color> {
    let s = trimmed(input);
    let hex = s.skip(1);
    if s.len() > 0 && s[0] == '#' && hex.len() == 6 {
        hex6_color(hex)
    } else if s.len() > 0 && s[0] == '#' && hex.len() == 3 {
        hex3_color(hex)
    } else if rgb_fields(s) is Some && rgb_fields(s)->Some_0.len() == 3 {
        rgb_color(rgb_fields(s)->Some_0)
    } else if indexed_color(s) is Some {
        indexed_color(s)
    } else {
        named_color(lowered(s))
    }
}

/// The texts that were found for the eight colors of a theme.
#[derive(Clone, Debug, PartialEq, Eq)]
pub struct ThemeTexts {
    pub primary: Option<String>,
    pub accent: Option<String>,
    pub warn: Option<String>,
    pub error: Option<String>,
    pub success: Option<String>,
    pub fg: Option<String>,
    pub bg: Option<String>,
    pub comment: Option<String>,
}

/// The texts for the colors of a theme as plain values.
pub struct ThemeTextsView {
    pub primary: Option<Seq<char>>,
    pub accent: Option<Seq<char>>,
    pub warn: Option<Seq<char>>,
    pub error: Option<Seq<char>>,
    pub success: Option<Seq<char>>,
    pub fg: Option<Seq<char>>,
    pub bg: Option<Seq<char>>,
    pub comment: Option<Seq<char>>,
}

/// The text of an optional string.
pub open spec fn option_view(s: Option<String>) -> Option<Seq<char>> {
    match s {
        Some(text) => Some(text@),
        None => None,
    }
}

impl View for ThemeTexts {
    type V = ThemeTextsView;

    open spec fn view(&self) -> ThemeTextsView {
        ThemeTextsView {
            primary: option_view(self.primary),
            accent: option_view(self.accent),
            warn: option_view(self.warn),
            error: option_view(self.error),
            success: option_view(self.success),
            fg: option_view(self.fg),
            bg: option_view(self.bg),
            comment: option_view(self.comment),
        }
    }
}

/// The color that `text` spells; `base` where there is no text or it spells
/// no color.
pub open spec fn color_or(text: Option<Seq<char>>, base: Color) -> Color {
    match text {
        Some(t) => match parsed_color(t) {
            Some(c) => c,
            None => base,
        },
        None => base,
    }
}

/// The theme `base` with each color replaced that `texts` spells.
pub open spec fn themed(texts: ThemeTextsView, base: Theme) -> Theme {
    Theme {
        primary: color_or(texts.primary, base.primary),
        accent: color_or(texts.accent, base.accent),
        warn: color_or(texts.warn, base.warn),
        error: color_or(texts.error, base.error),
        success: color_or(texts.success, base.success),
        fg: color_or(texts.fg, base.fg),
        bg: color_or(texts.bg, base.bg),
        comment: color_or(texts.comment, base.comment),
    }
}

fn pick(text: &Option<String>, base: Color) -> (c: Color)
    ensures
        c == color_or(option_view(*text), base),
{
    match text {
        Some(t) => match Theme::parse_color(t.as_str()) {
            Some(c) => c,
            None => base,
        },
        None => base,
    }
}

/// A single digit of base 16 is below 16.
proof fn lemma_hex_digit_is_small(s: Seq<char>)
    requires
        s.len() == 1,
        parsed_u8(s, 16) is Some,
    ensures
        parsed_u8(s, 16)->Some_0 <= 15,
{
    assert(crate::text::digits_value(s.drop_last(), 16) == Some(0nat));
}

fn hex6(hex: &[char]) -> (c: Option<Color>)
    requires
        hex.len() == 6,
    ensures
        c == hex6_color(hex@),
{
    let r = parse_u8(sub_chars(hex, 0, 2).as_slice(), 16);
    let g = parse_u8(sub_chars(hex, 2, 4).as_slice(), 16);
    let b = parse_u8(sub_chars(hex, 4, 6).as_slice(), 16);
    match (r, g, b) {
        (Some(r), Some(g), Some(b)) => Some(Color::Rgb(r, g, b)),
        _ => None,
    }
}

fn hex3(hex: &[char]) -> (c: Option<Color>)
    requires
        hex.len() == 3,
    ensures
        c == hex3_color(hex@),
{
    let r = parse_u8(sub_chars(hex, 0, 1).as_slice(), 16);
    let g = parse_u8(sub_chars(hex, 1, 2).as_slice(), 16);
    let b = parse_u8(sub_chars(hex, 2, 3).as_slice(), 16);
    match (r, g, b) {
        (Some(r), Some(g), Some(b)) => {
            proof {
                lemma_hex_digit_is_small(hex@.subrange(0, 1));
                lemma_hex_digit_is_small(hex@.subrange(1, 2));
                lemma_hex_digit_is_small(hex@.subrange(2, 3));
            }
            Some(Color::Rgb(r * 17, g * 17, b * 17))
        },
        _ => None,
    }
}

fn rgb(s: &[char]) -> (r: Option<Vec<Vec<char>>>)
    ensures
        match r {
            Some(fields) => rgb_fields(s@) == Some(char_views(fields@)),
            None => rgb_fields(s@) is None,
        },
{
    let open = chars_of("rgb(");
    if starts_with(s, open.as_slice()) && s.len() > open.len() && s[s.len() - 1] == ')' {
        let body = sub_chars(s, open.len(), s.len() - 1);
        Some(split_fields(body.as_slice(), ','))
    } else {
        None
    }
}

fn rgb_of(fields: &Vec<Vec<char>>) -> (c: Option<Color>)
    requires
        fields.len() == 3,
    ensures
        c == rgb_color(char_views(fields@)),
{
    let r = parse_u8(trim_chars(fields[0].as_slice()).as_slice(), 10);
    let g = parse_u8(trim_chars(fields[1].as_slice()).as_slice(), 10);
    let b = parse_u8(trim_chars(fields[2].as_slice()).as_slice(), 10);
    match (r, g, b) {
        (Some(r), Some(g), Some(b)) => Some(Color::Rgb(r, g, b)),
        _ => None,
    }
}

fn indexed(s: &[char]) -> (c: Option<Color>)
    ensures
        c == indexed_color(s@),
{
    let ansi = chars_of("ansi:");
    let index = chars_of("index:");
    let number = if starts_with(s, ansi.as_slice()) {
        parse_u8(sub_chars(s, ansi.len(), s.len()).as_slice(), 10)
    } else if starts_with(s, index.as_slice()) {
        parse_u8(sub_chars(s, index.len(), s.len()).as_slice(), 10)
    } else {
        None
    };
    match number {
        Some(n) => Some(Color::Indexed(n)),
        None => None,
    }
}

fn named(name: &[char]) -> (c: Option<Color>)
    ensures
        c == named_color(name@),
{
    if same_chars(name, chars_of("black").as_slice()) {
        Some(Color::Black)
    } else if same_chars(name, chars_of("white").as_slice()) {
        Some(Color::White)
    } else if same_chars(name, chars_of("gray").as_slice()) || same_chars(
        name,
        chars_of("grey").as_slice(),
    ) {
        Some(Color::Gray)
    } else if same_chars(name, chars_of("red").as_slice()) {
        Some(Color::Red)
    } else if same_chars(name, chars_of("green").as_slice()) {
        Some(Color::Green)
    } else if same_chars(name, chars_of("yellow").as_slice()) {
        Some(Color::Yellow)
    } else if same_chars(name, chars_of("blue").as_slice()) {
        Some(Color::Blue)
    } else if same_chars(name, chars_of("magenta").as_slice()) || same_chars(
        name,
        chars_of("purple").as_slice(),
    ) {
        Some(Color::Magenta)
    } else if same_chars(name, chars_of("cyan").as_slice()) {
        Some(Color::Cyan)
    } else {
        None
    }
}

impl Default for Theme {
    fn default() -> (theme: Self)
        ensures
            theme == default_theme(),
    {
        Theme {
            primary: Color::Rgb(100, 181, 255),
            accent: Color::Rgb(255, 64, 160),
            warn: Color::Rgb(231, 217, 140),
            error: Color::Rgb(255, 85, 85),
            success: Color::Rgb(100, 181, 255),
            fg: Color::Rgb(221, 227, 234),
            bg: Color::Rgb(23, 26, 34),
            comment: Color::Rgb(90, 100, 115),
        }
    }
}

impl Theme {
    /// The color that `input` spells, if it spells one.
    pub fn parse_color(input: &str) -> (c: Option<Color>)
        ensures
            c == parsed_color(input@),
    {
        let chars = chars_of(input);
        let s = trim_chars(chars.as_slice());
        if s.len() > 0 && s[0] == '#' {
            if s.len() == 7 {
                return hex6(sub_chars(s.as_slice(), 1, s.len()).as_slice());
            } else if s.len() == 4 {
                return hex3(sub_chars(s.as_slice(), 1, s.len()).as_slice());
            }
        }
        match rgb(s.as_slice()) {
            Some(fields) => {
                if fields.len() == 3 {
                    return rgb_of(&fields);
                }
            },
            None => {},
        }
        match indexed(s.as_slice()) {
            Some(c) => {
                return Some(c);
            },
            None => {},
        }
        named(to_lower(s.as_slice()).as_slice())
    }

    /// The theme `base` with each color replaced that `texts` spells.
    pub fn from_texts(texts: &ThemeTexts, base: Theme) -> (theme: Theme)
        ensures
            theme == themed(texts@, base),
    {
        Theme {
            primary: pick(&texts.primary, base.primary),
            accent: pick(&texts.accent, base.accent),
            warn: pick(&texts.warn, base.warn),
            error: pick(&texts.error, base.error),
            success: pick(&texts.success, base.success),
            fg: pick(&texts.fg, base.fg),
            bg: pick(&texts.bg, base.bg),
            comment: pick(&texts.comment, base.comment),
        }
    }

    /// The built-in theme of the name `name`; the default theme for any
    /// other name.
    pub fn from_name(name: &str) -> (theme: Theme)
        ensures
            theme == named_theme(name@),
    {
        let chars = chars_of(name);
        if same_chars(chars.as_slice(), chars_of("dracula").as_slice()) {
            Theme {
                primary: Color::Rgb(98, 114, 164),
                accent: Color::Rgb(255, 121, 198),
                warn: Color::Rgb(241, 250, 140),
                error: Color::Rgb(255, 85, 85),
                success: Color::Rgb(98, 114, 164),
                fg: Color::Rgb(248, 248, 242),
                bg: Color::Rgb(40, 42, 54),
                comment: Color::Rgb(98, 114, 164),
            }
        } else if same_chars(chars.as_slice(), chars_of("gruvbox-dark").as_slice()) {
            Theme {
                primary: Color::Rgb(250, 189, 47),
                accent: Color::Rgb(204, 36, 29),
                warn: Color::Rgb(250, 189, 47),
                error: Color::Rgb(204, 36, 29),
                success: Color::Rgb(250, 189, 47),
                fg: Color::Rgb(235, 219, 178),
                bg: Color::Rgb(29, 32, 33),
                comment: Color::Rgb(146, 131, 116),
            }
        } else if same_chars(chars.as_slice(), chars_of("one-dark").as_slice()) {
            Theme {
                primary: Color::Rgb(97, 175, 239),
                accent: Color::Rgb(198, 120, 221),
                warn: Color::Rgb(229, 192, 123),
                error: Color::Rgb(224, 108, 117),
                success: Color::Rgb(97, 175, 239),
                fg: Color::Rgb(171, 178, 191),
                bg: Color::Rgb(40, 44, 52),
                comment: Color::Rgb(92, 99, 112),
            }
        } else {
            Theme::default()
        }
    }
}

} // verus!
