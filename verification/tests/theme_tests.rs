use halo::theme::{Color, Theme, ThemeTexts};
use toml::{Table, Value};

fn no_texts() -> ThemeTexts {
    ThemeTexts {
        primary: None,
        accent: None,
        warn: None,
        error: None,
        success: None,
        fg: None,
        bg: None,
        comment: None,
    }
}

#[test]
fn hex_colors() {
    assert_eq!(Theme::parse_color("#64B5FF"), Some(Color::Rgb(100, 181, 255)));
    assert_eq!(Theme::parse_color("#000000"), Some(Color::Rgb(0, 0, 0)));
    assert_eq!(Theme::parse_color("#ffffff"), Some(Color::Rgb(255, 255, 255)));
    assert_eq!(Theme::parse_color("#fff"), Some(Color::Rgb(255, 255, 255)));
    assert_eq!(Theme::parse_color("#abc"), Some(Color::Rgb(170, 187, 204)));
    assert_eq!(Theme::parse_color("#A0f"), Some(Color::Rgb(170, 0, 255)));
    assert_eq!(Theme::parse_color("  #171A22\n"), Some(Color::Rgb(23, 26, 34)));
}

#[test]
fn hex_colors_that_are_none() {
    assert_eq!(Theme::parse_color("#12"), None);
    assert_eq!(Theme::parse_color("#12345"), None);
    assert_eq!(Theme::parse_color("#1234567"), None);
    assert_eq!(Theme::parse_color("#ggg"), None);
    assert_eq!(Theme::parse_color("#gg0000"), None);
    assert_eq!(Theme::parse_color("#"), None);
    assert_eq!(Theme::parse_color("#\u{e9}12"), None);
    assert_eq!(Theme::parse_color("#12 456"), None);
}

#[test]
fn a_plus_sign_counts_as_part_of_a_hex_number() {
    assert_eq!(Theme::parse_color("#+a+b+c"), Some(Color::Rgb(10, 11, 12)));
    assert_eq!(Theme::parse_color("#+++"), None);
}

#[test]
fn rgb_colors() {
    assert_eq!(Theme::parse_color("rgb(1,2,3)"), Some(Color::Rgb(1, 2, 3)));
    assert_eq!(Theme::parse_color("rgb( 10 , 20 ,255 )"), Some(Color::Rgb(10, 20, 255)));
    assert_eq!(Theme::parse_color("rgb(+1,02,3)"), Some(Color::Rgb(1, 2, 3)));
    assert_eq!(Theme::parse_color("rgb(256,0,0)"), None);
    assert_eq!(Theme::parse_color("rgb(1,2)"), None);
    assert_eq!(Theme::parse_color("rgb(1,2,3,4)"), None);
    assert_eq!(Theme::parse_color("rgb(1,,3)"), None);
    assert_eq!(Theme::parse_color("rgb(a,b,c)"), None);
    assert_eq!(Theme::parse_color("rgb()"), None);
    assert_eq!(Theme::parse_color("rgb(1,2,3"), None);
    assert_eq!(Theme::parse_color("RGB(1,2,3)"), None);
    assert_eq!(Theme::parse_color("rgb(-1,2,3)"), None);
}

#[test]
fn indexed_colors() {
    assert_eq!(Theme::parse_color("ansi:5"), Some(Color::Indexed(5)));
    assert_eq!(Theme::parse_color("index:255"), Some(Color::Indexed(255)));
    assert_eq!(Theme::parse_color("ansi:0"), Some(Color::Indexed(0)));
    assert_eq!(Theme::parse_color("ansi:256"), None);
    assert_eq!(Theme::parse_color("ansi:"), None);
    assert_eq!(Theme::parse_color("ansi: 5"), None);
    assert_eq!(Theme::parse_color("ansi:x"), None);
    assert_eq!(Theme::parse_color("index:-1"), None);
}

#[test]
fn named_colors() {
    assert_eq!(Theme::parse_color("black"), Some(Color::Black));
    assert_eq!(Theme::parse_color("white"), Some(Color::White));
    assert_eq!(Theme::parse_color("gray"), Some(Color::Gray));
    assert_eq!(Theme::parse_color("grey"), Some(Color::Gray));
    assert_eq!(Theme::parse_color("red"), Some(Color::Red));
    assert_eq!(Theme::parse_color("green"), Some(Color::Green));
    assert_eq!(Theme::parse_color("yellow"), Some(Color::Yellow));
    assert_eq!(Theme::parse_color("blue"), Some(Color::Blue));
    assert_eq!(Theme::parse_color("magenta"), Some(Color::Magenta));
    assert_eq!(Theme::parse_color("purple"), Some(Color::Magenta));
    assert_eq!(Theme::parse_color("cyan"), Some(Color::Cyan));
    assert_eq!(Theme::parse_color("RED"), Some(Color::Red));
    assert_eq!(Theme::parse_color("  Cyan\t"), Some(Color::Cyan));
    assert_eq!(Theme::parse_color("orange"), None);
    assert_eq!(Theme::parse_color(""), None);
    assert_eq!(Theme::parse_color("re d"), None);
}

#[test]
fn default_theme_is_cyber_nord() {
    let theme = Theme::default();
    assert_eq!(theme.primary, Color::Rgb(100, 181, 255));
    assert_eq!(theme.accent, Color::Rgb(255, 64, 160));
    assert_eq!(theme.warn, Color::Rgb(231, 217, 140));
    assert_eq!(theme.error, Color::Rgb(255, 85, 85));
    assert_eq!(theme.success, Color::Rgb(100, 181, 255));
    assert_eq!(theme.fg, Color::Rgb(221, 227, 234));
    assert_eq!(theme.bg, Color::Rgb(23, 26, 34));
    assert_eq!(theme.comment, Color::Rgb(90, 100, 115));
    assert_eq!(Theme::from_name("cyber-nord"), theme);
    assert_eq!(Theme::from_name("unknown"), theme);
    assert_eq!(Theme::from_name(""), theme);
}

#[test]
fn built_in_themes() {
    let dracula = Theme::from_name("dracula");
    assert_eq!(dracula.primary, Color::Rgb(98, 114, 164));
    assert_eq!(dracula.accent, Color::Rgb(255, 121, 198));
    assert_eq!(dracula.warn, Color::Rgb(241, 250, 140));
    assert_eq!(dracula.error, Color::Rgb(255, 85, 85));
    assert_eq!(dracula.success, Color::Rgb(98, 114, 164));
    assert_eq!(dracula.fg, Color::Rgb(248, 248, 242));
    assert_eq!(dracula.bg, Color::Rgb(40, 42, 54));
    assert_eq!(dracula.comment, Color::Rgb(98, 114, 164));
    let gruvbox = Theme::from_name("gruvbox-dark");
    assert_eq!(gruvbox.primary, Color::Rgb(250, 189, 47));
    assert_eq!(gruvbox.accent, Color::Rgb(204, 36, 29));
    assert_eq!(gruvbox.fg, Color::Rgb(235, 219, 178));
    assert_eq!(gruvbox.bg, Color::Rgb(29, 32, 33));
    assert_eq!(gruvbox.comment, Color::Rgb(146, 131, 116));
    let one_dark = Theme::from_name("one-dark");
    assert_eq!(one_dark.primary, Color::Rgb(97, 175, 239));
    assert_eq!(one_dark.accent, Color::Rgb(198, 120, 221));
    assert_eq!(one_dark.warn, Color::Rgb(229, 192, 123));
    assert_eq!(one_dark.error, Color::Rgb(224, 108, 117));
    assert_eq!(one_dark.fg, Color::Rgb(171, 178, 191));
    assert_eq!(one_dark.bg, Color::Rgb(40, 44, 52));
    assert_eq!(one_dark.comment, Color::Rgb(92, 99, 112));
    assert_eq!(Theme::from_name("Dracula"), Theme::default());
}

#[test]
fn texts_replace_the_colors_they_spell() {
    let base = Theme::from_name("dracula");
    assert_eq!(Theme::from_texts(&no_texts(), base), base);
    let texts = ThemeTexts {
        primary: Some("#010203".to_string()),
        bg: Some("black".to_string()),
        warn: Some("not a color".to_string()),
        ..no_texts()
    };
    let theme = Theme::from_texts(&texts, base);
    assert_eq!(theme.primary, Color::Rgb(1, 2, 3));
    assert_eq!(theme.bg, Color::Black);
    assert_eq!(theme.warn, base.warn);
    assert_eq!(theme.accent, base.accent);
    assert_eq!(theme.error, base.error);
    assert_eq!(theme.success, base.success);
    assert_eq!(theme.fg, base.fg);
    assert_eq!(theme.comment, base.comment);
}

#[test]
fn a_table_replaces_the_colors_it_spells() {
    let mut table = Table::new();
    table.insert("primary".to_string(), Value::String("#102030".to_string()));
    table.insert("accent".to_string(), Value::String("ansi:9".to_string()));
    table.insert("warn".to_string(), Value::Integer(5));
    table.insert("error".to_string(), Value::String("bogus".to_string()));
    table.insert("success".to_string(), Value::String("green".to_string()));
    table.insert("fg".to_string(), Value::String("rgb(1,2,3)".to_string()));
    table.insert("comment".to_string(), Value::String("#abc".to_string()));
    table.insert("other".to_string(), Value::String("red".to_string()));
    let base = Theme::default();
    let theme = Theme::from_table(&table, base);
    assert_eq!(theme.primary, Color::Rgb(16, 32, 48));
    assert_eq!(theme.accent, Color::Indexed(9));
    assert_eq!(theme.warn, base.warn);
    assert_eq!(theme.error, base.error);
    assert_eq!(theme.success, Color::Green);
    assert_eq!(theme.fg, Color::Rgb(1, 2, 3));
    assert_eq!(theme.bg, base.bg);
    assert_eq!(theme.comment, Color::Rgb(170, 187, 204));
    assert_eq!(Theme::from_table(&Table::new(), base), base);
}
