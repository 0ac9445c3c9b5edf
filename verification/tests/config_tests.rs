use halo::config::{
    find_alias, parse_config, parse_theme_texts, read_config, read_theme_texts, ConfigSettings,
    ThemeSetting, UiSettings, DEFAULT_CONFIG,
};
use halo::state::State;
use halo::theme::{Color, Theme, ThemeTexts};
use toml::{Table, Value};

fn new_state() -> State {
    State::new("/work".to_string(), "ada".to_string())
}

fn no_texts() -> ThemeTexts {
    ThemeTexts {
        primary: None,
        accent: None,
        warn: None,
        error: None,
        success: None,
        fg: None,
        bg: None,
        comment: None,
    }
}

fn settings(theme: ThemeSetting) -> ConfigSettings {
    ConfigSettings { aliases: None, theme, ui: None }
}

fn sorted(mut pairs: Vec<(String, String)>) -> Vec<(String, String)> {
    pairs.sort();
    pairs
}

#[test]
fn the_default_configuration_sets_colors_and_symbols() {
    let config = parse_config(DEFAULT_CONFIG).unwrap();
    assert_eq!(config.aliases, None);
    let expected = ThemeTexts {
        primary: Some("#64B5FF".to_string()),
        accent: Some("#FF40A0".to_string()),
        warn: Some("#E7D98C".to_string()),
        error: Some("#FF5555".to_string()),
        success: None,
        fg: Some("#DDE3EA".to_string()),
        bg: Some("#171A22".to_string()),
        comment: Some("#5A6473".to_string()),
    };
    assert_eq!(config.theme, ThemeSetting::Colors(expected));
    assert_eq!(
        config.ui,
        Some(UiSettings {
            scrollbar_thumb: Some("\u{2588}".to_string()),
            prompt: Some("\u{276f}".to_string()),
        })
    );
    assert!(DEFAULT_CONFIG.starts_with("# Halo config \u{2013} created on first run\n"));
    assert!(DEFAULT_CONFIG.ends_with("# gs = \"git status\"\n"));
}

#[test]
fn the_default_configuration_keeps_the_default_theme() {
    let mut state = new_state();
    state.load_config(parse_config(DEFAULT_CONFIG).unwrap(), None);
    assert_eq!(state.theme, Theme::default());
    assert_eq!(state.theme_name, "custom");
    assert_eq!(state.ui.prompt, "\u{276f}");
    assert_eq!(state.ui.scrollbar_thumb, "\u{2588}");
    assert!(state.aliases.is_empty());
}

#[test]
fn aliases_are_the_strings_of_their_table() {
    let text = "[aliases]\nll = \"ls -alF\"\ngs = \"git status\"\ncount = 5\nflag = true\n";
    let config = parse_config(text).unwrap();
    assert_eq!(
        config.aliases.map(sorted),
        Some(vec![
            ("gs".to_string(), "git status".to_string()),
            ("ll".to_string(), "ls -alF".to_string()),
        ])
    );
    assert_eq!(config.theme, ThemeSetting::Unset);
    assert_eq!(config.ui, None);
}

#[test]
fn an_empty_table_of_aliases_is_still_one() {
    assert_eq!(parse_config("[aliases]\n").unwrap().aliases, Some(vec![]));
    assert_eq!(parse_config("aliases = \"x\"\n").unwrap().aliases, None);
    assert_eq!(parse_config("").unwrap(), settings(ThemeSetting::Unset));
}

#[test]
fn a_theme_may_be_a_name_or_a_table() {
    assert_eq!(
        parse_config("theme = \"dracula\"\n").unwrap().theme,
        ThemeSetting::Named("dracula".to_string())
    );
    let colors = parse_config("[theme]\nprimary = \"red\"\nextra = \"x\"\nbg = 3\n").unwrap();
    assert_eq!(
        colors.theme,
        ThemeSetting::Colors(ThemeTexts { primary: Some("red".to_string()), ..no_texts() })
    );
    assert_eq!(parse_config("theme = 5\n").unwrap().theme, ThemeSetting::Unset);
}

#[test]
fn symbols_come_from_the_table_ui() {
    let config = parse_config("[ui]\nprompt = \"$\"\nscrollbar_thumb = 1\n").unwrap();
    assert_eq!(
        config.ui,
        Some(UiSettings { scrollbar_thumb: None, prompt: Some("$".to_string()) })
    );
    assert_eq!(parse_config("ui = \"x\"\n").unwrap().ui, None);
}

#[test]
fn what_is_no_toml_is_no_configuration() {
    assert_eq!(parse_config("theme = "), None);
    assert_eq!(parse_config("[aliases\nll = 1"), None);
    assert_eq!(parse_config("a = 1\na = 2\n"), None);
    assert_eq!(parse_theme_texts("primary = "), None);
}

#[test]
fn a_table_can_be_read_directly() {
    let mut ui = Table::new();
    ui.insert("prompt".to_string(), Value::String(">".to_string()));
    let mut aliases = Table::new();
    aliases.insert("l".to_string(), Value::String("ls".to_string()));
    aliases.insert("n".to_string(), Value::Integer(1));
    let mut doc = Table::new();
    doc.insert("ui".to_string(), Value::Table(ui));
    doc.insert("aliases".to_string(), Value::Table(aliases));
    doc.insert("theme".to_string(), Value::String("one-dark".to_string()));
    let config = read_config(&doc);
    assert_eq!(config.aliases, Some(vec![("l".to_string(), "ls".to_string())]));
    assert_eq!(config.theme, ThemeSetting::Named("one-dark".to_string()));
    assert_eq!(config.ui, Some(UiSettings { scrollbar_thumb: None, prompt: Some(">".to_string()) }));
}

#[test]
fn theme_texts_are_the_strings_under_the_color_names() {
    let text = "primary = \"#fff\"\naccent = \"red\"\nwarn = 1\nname = \"x\"\ncomment = \"c\"\n";
    let texts = parse_theme_texts(text).unwrap();
    assert_eq!(
        texts,
        ThemeTexts {
            primary: Some("#fff".to_string()),
            accent: Some("red".to_string()),
            comment: Some("c".to_string()),
            ..no_texts()
        }
    );
    assert_eq!(parse_theme_texts("").unwrap(), no_texts());
    let mut table = Table::new();
    table.insert("bg".to_string(), Value::String("black".to_string()));
    assert_eq!(
        read_theme_texts(&table),
        ThemeTexts { bg: Some("black".to_string()), ..no_texts() }
    );
}

#[test]
fn aliases_are_found_by_name() {
    let aliases = vec![
        ("ll".to_string(), "ls -alF".to_string()),
        ("gs".to_string(), "git status".to_string()),
        ("ll".to_string(), "shadowed".to_string()),
    ];
    assert_eq!(find_alias(&aliases, "ll"), Some("ls -alF".to_string()));
    assert_eq!(find_alias(&aliases, "gs"), Some("git status".to_string()));
    assert_eq!(find_alias(&aliases, "l"), None);
    assert_eq!(find_alias(&aliases, ""), None);
    assert_eq!(find_alias(&vec![], "ll"), None);
}

#[test]
fn a_configuration_replaces_the_aliases() {
    let mut state = new_state();
    state.aliases = vec![("old".to_string(), "x".to_string())];
    state.load_config(settings(ThemeSetting::Unset), None);
    assert_eq!(state.aliases, vec![("old".to_string(), "x".to_string())]);
    let config = ConfigSettings {
        aliases: Some(vec![("ll".to_string(), "ls".to_string())]),
        theme: ThemeSetting::Unset,
        ui: None,
    };
    state.load_config(config, None);
    assert_eq!(state.aliases, vec![("ll".to_string(), "ls".to_string())]);
    assert_eq!(state.theme, Theme::default());
    assert_eq!(state.theme_name, "cyber-nord");
}

#[test]
fn a_named_theme_comes_from_its_file_or_is_built_in() {
    let mut state = new_state();
    state.load_config(settings(ThemeSetting::Named("dracula".to_string())), None);
    assert_eq!(state.theme, Theme::from_name("dracula"));
    assert_eq!(state.theme_name, "dracula");
    let file = ThemeTexts { primary: Some("red".to_string()), ..no_texts() };
    state.load_config(settings(ThemeSetting::Named("dracula".to_string())), Some(&file));
    assert_eq!(state.theme.primary, Color::Red);
    assert_eq!(state.theme.bg, Theme::default().bg);
    assert_eq!(state.theme_name, "dracula");
    state.load_config(settings(ThemeSetting::Named("nothing".to_string())), None);
    assert_eq!(state.theme, Theme::default());
    assert_eq!(state.theme_name, "nothing");
}

#[test]
fn colors_change_the_theme_in_use() {
    let mut state = new_state();
    state.theme = Theme::from_name("dracula");
    state.theme_name = "dracula".to_string();
    let colors = ThemeTexts { accent: Some("#000".to_string()), ..no_texts() };
    state.load_config(settings(ThemeSetting::Colors(colors)), Some(&no_texts()));
    assert_eq!(state.theme.accent, Color::Rgb(0, 0, 0));
    assert_eq!(state.theme.primary, Theme::from_name("dracula").primary);
    assert_eq!(state.theme_name, "custom");
}

#[test]
fn symbols_replace_the_symbols_they_name() {
    let mut state = new_state();
    let config = ConfigSettings {
        aliases: None,
        theme: ThemeSetting::Unset,
        ui: Some(UiSettings { scrollbar_thumb: Some("#".to_string()), prompt: None }),
    };
    state.load_config(config, None);
    assert_eq!(state.ui.scrollbar_thumb, "#");
    assert_eq!(state.ui.prompt, "\u{276f}");
    let config = ConfigSettings {
        aliases: None,
        theme: ThemeSetting::Unset,
        ui: Some(UiSettings { scrollbar_thumb: None, prompt: Some("$".to_string()) }),
    };
    state.load_config(config, None);
    assert_eq!(state.ui.scrollbar_thumb, "#");
    assert_eq!(state.ui.prompt, "$");
}

#[test]
fn only_a_named_theme_has_a_file_to_read() {
    assert_eq!(
        settings(ThemeSetting::Named("dracula".to_string())).named_theme(),
        Some("dracula".to_string())
    );
    assert_eq!(settings(ThemeSetting::Unset).named_theme(), None);
    assert_eq!(settings(ThemeSetting::Colors(no_texts())).named_theme(), None);
}
