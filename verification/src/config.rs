//! Reading settings from TOML: the configuration file and theme files.
//!
//! The `toml` crate parses the text and holds the tables. What this module
//! takes out of a table are plain texts; the rules on what they mean are in
//! [`crate::theme`] and [`crate::state`].

use crate::state::{pair_views, State, StateView, UiView};
use crate::text::{chars_of, same_chars, string_views};
use crate::theme::{
    default_theme, named_theme, option_view, themed, Theme, ThemeTexts, ThemeTextsView,
};
use toml::{Table, Value};
use vstd::prelude::*;

verus! {

/// A table of TOML: a map from keys to values.
#[verifier::external_type_specification]
#[verifier::external_body]
#[verifier::reject_recursive_types(K)]
#[verifier::reject_recursive_types(V)]
pub struct ExTable<K, V>(toml::map::Map<K, V>);

/// A value of TOML.
#[verifier::external_type_specification]
#[verifier::external_body]
pub struct ExValue(Value);

/// What a table holds, as far as the shell reads it: its strings, and the
/// strings of the tables that stand in it.
pub struct TableView {
    /// The text under each key whose value is a string.
    pub strings: Map<Seq<char>, Seq<char>>,
    /// The strings of the table under each key whose value is a table.
    pub tables: Map<Seq<char>, Map<Seq<char>, Seq<char>>>,
}

/// What `table` holds.
pub uninterp spec fn table_view(table: Table) -> TableView;

/// What the table holds that the TOML document `text` describes, if it is
/// one.
pub uninterp spec fn parsed_toml(text: Seq<char>) -> Option<TableView>;

/// The strings of `table`: the text under each key whose value is a string.
pub open spec fn table_strings(table: Table) -> Map<Seq<char>, Seq<char>> {
    table_view(table).strings
}

/// `toml::Table::from_str` parses a TOML document into its table. The same
/// text always gives a table that holds the same, or fails.
#[verifier::external_body]
pub(crate) fn parse_table(text: &str) -> (table: Option<Table>)
    ensures
        match table {
            Some(t) => parsed_toml(text@) == Some(table_view(t)),
            None => parsed_toml(text@) is None,
        },
{
    match text.parse::<Table>() {
        Ok(table) => Some(table),
        Err(_) => None,
    }
}

/// What a table holds under a key, as far as the shell looks at it.
pub(crate) enum Entry {
    /// A string.
    Text(String),
    /// A table.
    Table(Table),
    /// Nothing, or a value of another kind.
    Other,
}

/// `toml::map::Map::get` finds the value under a key. The result is a copy
/// of its text if the value is a string and a copy of the table if it is a
/// table; a value is never both.
#[verifier::external_body]
pub(crate) fn table_get(table: &Table, key: &str) -> (entry: Entry)
    ensures
        match entry {
            Entry::Text(text) => lookup(table_view(*table).strings, key@) == Some(text@)
                && !table_view(*table).tables.contains_key(key@),
            Entry::Table(sub) => table_view(*table).tables.contains_key(key@) && table_view(
                *table,
            ).tables[key@] == table_view(sub).strings && !table_view(*table).strings.contains_key(
                key@,
            ),
            Entry::Other => !table_view(*table).strings.contains_key(key@) && !table_view(
                *table,
            ).tables.contains_key(key@),
        },
{
    match table.get(key) {
        Some(Value::String(text)) => Entry::Text(text.clone()),
        Some(Value::Table(sub)) => Entry::Table(sub.clone()),
        _ => Entry::Other,
    }
}

/// The text under `key`, if `table` holds a string there.
pub(crate) fn table_get_str(table: &Table, key: &str) -> (text: Option<String>)
    ensures
        text is Some <==> table_strings(*table).contains_key(key@),
        text matches Some(t) ==> t@ == table_strings(*table)[key@],
{
    match table_get(table, key) {
        Entry::Text(text) => Some(text),
        _ => None,
    }
}

/// The table under `key`, if `table` holds a table there.
pub(crate) fn table_get_table(table: &Table, key: &str) -> (sub: Option<Table>)
    ensures
        sub is Some <==> table_view(*table).tables.contains_key(key@),
        sub matches Some(t) ==> table_strings(t) == table_view(*table).tables[key@],
{
    match table_get(table, key) {
        Entry::Table(sub) => Some(sub),
        _ => None,
    }
}

/// `toml::map::Map::keys` walks the keys of a table: each key once, and the
/// key of every entry among them.
#[verifier::external_body]
pub(crate) fn table_keys(table: &Table) -> (keys: Vec<String>)
    ensures
        string_views(keys@).no_duplicates(),
        forall|k: Seq<char>|
            table_view(*table).strings.contains_key(k) ==> string_views(keys@).contains(k),
{
    let mut keys = Vec::new();
    for key in table.keys() {
        keys.push(key.clone());
    }
    keys
}

/// The text under `key`, if there is one.
pub open spec fn lookup(strings: Map<Seq<char>, Seq<char>>, key: Seq<char>) -> Option<Seq<char>> {
    if strings.contains_key(key) {
        Some(strings[key])
    } else {
        None
    }
}

/// The texts for the eight colors of a theme that `strings` holds.
pub open spec fn theme_texts_of(strings: Map<Seq<char>, Seq<char>>) -> ThemeTextsView {
    ThemeTextsView {
        primary: lookup(strings, "primary"@),
        accent: lookup(strings, "accent"@),
        warn: lookup(strings, "warn"@),
        error: lookup(strings, "error"@),
        success: lookup(strings, "success"@),
        fg: lookup(strings, "fg"@),
        bg: lookup(strings, "bg"@),
        comment: lookup(strings, "comment"@),
    }
}

/// The texts for the colors of a theme that `table` holds.
pub fn read_theme_texts(table: &Table) -> (texts: ThemeTexts)
    ensures
        texts@ == theme_texts_of(table_strings(*table)),
{
    ThemeTexts {
        primary: table_get_str(table, "primary"),
        accent: table_get_str(table, "accent"),
        warn: table_get_str(table, "warn"),
        error: table_get_str(table, "error"),
        success: table_get_str(table, "success"),
        fg: table_get_str(table, "fg"),
        bg: table_get_str(table, "bg"),
        comment: table_get_str(table, "comment"),
    }
}

/// The texts for the colors of a theme that the TOML document `text` holds,
/// if it is one.
pub fn parse_theme_texts(text: &str) -> (texts: Option<ThemeTexts>)
    ensures
        match texts {
            Some(t) => parsed_toml(text@) is Some && t@ == theme_texts_of(
                parsed_toml(text@)->Some_0.strings,
            ),
            None => parsed_toml(text@) is None,
        },
{
    match parse_table(text) {
        Some(table) => Some(read_theme_texts(&table)),
        None => None,
    }
}

impl Theme {
    /// The theme `base` with each color replaced for which `tbl` holds a
    /// text that spells a color.
    pub fn from_table(tbl: &Table, base: Theme) -> (theme: Theme)
        ensures
            theme == themed(theme_texts_of(table_strings(*tbl)), base),
    {
        let texts = read_theme_texts(tbl);
        Theme::from_texts(&texts, base)
    }
}

/// The configuration file that is written where there is none.
pub const DEFAULT_CONFIG: &'static str =
    "# Halo config \u{2013} created on first run\n# Set a named theme or define [theme] colors.\n# Available names: cyber-nord, dracula, gruvbox-dark, one-dark\n\n# theme = \"cyber-nord\"\n\n[theme]\nprimary = \"#64B5FF\"\naccent  = \"#FF40A0\"\nwarn    = \"#E7D98C\"\nerror   = \"#FF5555\"\nfg      = \"#DDE3EA\"\nbg      = \"#171A22\"\ncomment = \"#5A6473\"\n\n[ui]\nscrollbar_thumb = \"\u{2588}\"\nprompt = \"\u{276f}\"\n\n# [aliases]\n# ll = \"ls -alF\"\n# gs = \"git status\"\n";

/// What a configuration says about the theme.
#[derive(Clone, Debug, PartialEq, Eq)]
pub enum ThemeSetting {
    /// Nothing.
    Unset,
    /// The name of a theme.
    Named(String),
    /// Texts for single colors.
    Colors(ThemeTexts),
}

/// What a configuration says about the symbols of the screen.
#[derive(Clone, Debug, PartialEq, Eq)]
pub struct UiSettings {
    pub scrollbar_thumb: Option<String>,
    pub prompt: Option<String>,
}

/// What a configuration file says.
#[derive(Clone, Debug, PartialEq, Eq)]
pub struct ConfigSettings {
    /// The aliases, if the file has a table of them: each a name and what it
    /// stands for.
    pub aliases: Option<Vec<(String, String)>>,
    pub theme: ThemeSetting,
    pub ui: Option<UiSettings>,
}

/// [`ThemeSetting`] as plain values.
pub enum ThemeSettingView {
    Unset,
    Named(Seq<char>),
    Colors(ThemeTextsView),
}

/// [`UiSettings`] as plain values.
pub struct UiSettingsView {
    pub scrollbar_thumb: Option<Seq<char>>,
    pub prompt: Option<Seq<char>>,
}

/// [`ConfigSettings`] as plain values.
pub struct ConfigView {
    pub aliases: Option<Seq<(Seq<char>, Seq<char>)>>,
    pub theme: ThemeSettingView,
    pub ui: Option<UiSettingsView>,
}

impl View for ThemeSetting {
    type V = ThemeSettingView;

    open spec fn view(&self) -> ThemeSettingView {
        match self {
            ThemeSetting::Unset => ThemeSettingView::Unset,
            ThemeSetting::Named(name) => ThemeSettingView::Named(name@),
            ThemeSetting::Colors(texts) => ThemeSettingView::Colors(texts@),
        }
    }
}

impl View for UiSettings {
    type V = UiSettingsView;

    open spec fn view(&self) -> UiSettingsView {
        UiSettingsView {
            scrollbar_thumb: option_view(self.scrollbar_thumb),
            prompt: option_view(self.prompt),
        }
    }
}

impl View for ConfigSettings {
    type V = ConfigView;

    open spec fn view(&self) -> ConfigView {
        ConfigView {
            aliases: match self.aliases {
                Some(pairs) => Some(pair_views(pairs@)),
                None => None,
            },
            theme: self.theme@,
            ui: match self.ui {
                Some(ui) => Some(ui@),
                None => None,
            },
        }
    }
}

impl ConfigSettings {
    /// The name of the theme whose file is to be read with this
    /// configuration, if it names a theme.
    pub fn named_theme(&self) -> (name: Option<String>)
        ensures
            option_view(name) == (match self@.theme {
                ThemeSettingView::Named(n) => Some(n),
                _ => None,
            }),
    {
        match &self.theme {
            ThemeSetting::Named(name) => Some(name.clone()),
            _ => None,
        }
    }
}

/// What the first pair of `pairs` with the name `name` stands for.
pub open spec fn alias_lookup(pairs: Seq<(Seq<char>, Seq<char>)>, name: Seq<char>) -> Option<
    Seq<char>,
>
    decreases pairs.len(),
{
    if pairs.len() == 0 {
        None
    } else if pairs[0].0 == name {
        Some(pairs[0].1)
    } else {
        alias_lookup(pairs.drop_first(), name)
    }
}

/// A pair added at the end is found only where no earlier pair has its name.
pub proof fn lemma_alias_lookup_push(
    pairs: Seq<(Seq<char>, Seq<char>)>,
    pair: (Seq<char>, Seq<char>),
    name: Seq<char>,
)
    ensures
        alias_lookup(pairs.push(pair), name) == match alias_lookup(pairs, name) {
            Some(found) => Some(found),
            None => if pair.0 == name {
                Some(pair.1)
            } else {
                None
            },
        },
    decreases pairs.len(),
{
    let ext = pairs.push(pair);
    if pairs.len() == 0 {
        assert(alias_lookup(ext.drop_first(), name) is None);
    } else if pairs[0].0 != name {
        assert(ext.drop_first() =~= pairs.drop_first().push(pair));
        lemma_alias_lookup_push(pairs.drop_first(), pair, name);
    }
}

/// What the first of `aliases` with the name `name` stands for.
pub fn find_alias(aliases: &Vec<(String, String)>, name: &str) -> (found: Option<String>)
    ensures
        option_view(found) == alias_lookup(pair_views(aliases@), name@),
{
    let key = chars_of(name);
    let ghost pairs = pair_views(aliases@);
    let mut i: usize = 0;
    proof {
        assert(pairs.skip(0) =~= pairs);
    }
    while i < aliases.len()
        invariant
            i <= aliases.len(),
            pairs == pair_views(aliases@),
            key@ == name@,
            alias_lookup(pairs, name@) == alias_lookup(pairs.skip(i as int), name@),
        decreases aliases.len() - i,
    {
        proof {
            assert(pairs.skip(i as int).drop_first() =~= pairs.skip(i + 1));
        }
        if same_chars(chars_of(aliases[i].0.as_str()).as_slice(), key.as_slice()) {
            return Some(aliases[i].1.clone());
        }
        i += 1;
    }
    None
}

/// What the table of a configuration says about the theme: a name where
/// `theme` is a string, texts for colors where it is a table.
pub open spec fn theme_setting_of(doc: TableView) -> ThemeSettingView {
    if doc.strings.contains_key("theme"@) {
        ThemeSettingView::Named(doc.strings["theme"@])
    } else if doc.tables.contains_key("theme"@) {
        ThemeSettingView::Colors(theme_texts_of(doc.tables["theme"@]))
    } else {
        ThemeSettingView::Unset
    }
}

/// What the table of a configuration says about the symbols: the strings
/// `scrollbar_thumb` and `prompt` of its table `ui`.
pub open spec fn ui_settings_of(doc: TableView) -> Option<UiSettingsView> {
    if doc.tables.contains_key("ui"@) {
        let strings = doc.tables["ui"@];
        Some(
            UiSettingsView {
                scrollbar_thumb: lookup(strings, "scrollbar_thumb"@),
                prompt: lookup(strings, "prompt"@),
            },
        )
    } else {
        None
    }
}

/// `settings` is what a configuration says whose table holds `doc`. The aliases
/// are the strings of its table `aliases`, in some order.
pub open spec fn is_config_of(settings: ConfigView, doc: TableView) -> bool {
    &&& settings.aliases is Some <==> doc.tables.contains_key("aliases"@)
    &&& settings.aliases matches Some(pairs) ==> forall|name: Seq<char>|
        alias_lookup(pairs, name) == lookup(
            doc.tables["aliases"@],
            name,
        )
    &&& settings.theme == theme_setting_of(doc)
    &&& settings.ui == ui_settings_of(doc)
}

/// The strings of `table`, each with its key, in some order.
fn string_entries(table: &Table) -> (pairs: Vec<(String, String)>)
    ensures
        forall|name: Seq<char>|
            alias_lookup(pair_views(pairs@), name) == lookup(table_strings(*table), name),
{
    let keys = table_keys(table);
    let ghost strings = table_strings(*table);
    let ghost names = string_views(keys@);
    let mut pairs: Vec<(String, String)> = Vec::new();
    let mut i: usize = 0;
    while i < keys.len()
        invariant
            i <= keys.len(),
            names == string_views(keys@),
            strings == table_strings(*table),
            names.no_duplicates(),
            forall|name: Seq<char>|
                alias_lookup(pair_views(pairs@), name) == (if names.take(i as int).contains(name) {
                    lookup(strings, name)
                } else {
                    None
                }),
        decreases keys.len() - i,
    {
        let ghost before = pair_views(pairs@);
        let ghost key = names[i as int];
        let ghost seen = names.take(i as int);
        let ghost next = names.take(i + 1);
        proof {
            assert forall|name: Seq<char>| next.contains(name) <==> (seen.contains(name) || name
                == key) by {
                if name == key {
                    assert(next[i as int] == name);
                }
            }
        }
        match table_get_str(table, keys[i].as_str()) {
            Some(text) => {
                let pair = (keys[i].clone(), text);
                proof {
                    assert(pair_views(pairs@.push(pair)) =~= before.push((pair.0@, pair.1@)));
                    assert forall|name: Seq<char>|
                        alias_lookup(before.push((pair.0@, pair.1@)), name) == (if next.contains(
                            name,
                        ) {
                            lookup(strings, name)
                        } else {
                            None
                        }) by {
                        lemma_alias_lookup_push(before, (pair.0@, pair.1@), name);
                    }
                }
                pairs.push(pair);
            },
            None => {},
        }
        i += 1;
    }
    proof {
        assert(names.take(keys.len() as int) =~= names);
    }
    pairs
}

/// What the table `doc` of a configuration says.
pub fn read_config(doc: &Table) -> (settings: ConfigSettings)
    ensures
        is_config_of(settings@, table_view(*doc)),
{
    let aliases = match table_get_table(doc, "aliases") {
        Some(sub) => Some(string_entries(&sub)),
        None => None,
    };
    let theme = match table_get_str(doc, "theme") {
        Some(name) => ThemeSetting::Named(name),
        None => match table_get_table(doc, "theme") {
            Some(sub) => ThemeSetting::Colors(read_theme_texts(&sub)),
            None => ThemeSetting::Unset,
        },
    };
    let ui = match table_get_table(doc, "ui") {
        Some(sub) => Some(
            UiSettings {
                scrollbar_thumb: table_get_str(&sub, "scrollbar_thumb"),
                prompt: table_get_str(&sub, "prompt"),
            },
        ),
        None => None,
    };
    ConfigSettings { aliases, theme, ui }
}

/// What the text of a configuration file says, if it is a TOML document.
pub fn parse_config(text: &str) -> (settings: Option<ConfigSettings>)
    ensures
        match settings {
            Some(c) => parsed_toml(text@) is Some && is_config_of(c@, parsed_toml(text@)->Some_0),
            None => parsed_toml(text@) is None,
        },
{
    match parse_table(text) {
        Some(doc) => Some(read_config(&doc)),
        None => None,
    }
}

impl StateView {
    /// The state after a configuration was taken over. Its aliases replace
    /// the aliases. A named theme becomes the theme, from its file if there
    /// is one and as built in if not; texts for colors change the theme in
    /// use, which is then called `custom`. The symbols that it names replace
    /// the symbols.
    pub open spec fn apply_config(self, settings: ConfigView, theme_file: Option<ThemeTextsView>) -> StateView {
        let s1 = match settings.aliases {
            Some(pairs) => StateView { aliases: pairs, ..self },
            None => self,
        };
        let s2 = match settings.theme {
            ThemeSettingView::Named(name) => StateView {
                theme: match theme_file {
                    Some(texts) => themed(texts, default_theme()),
                    None => named_theme(name),
                },
                theme_name: name,
                ..s1
            },
            ThemeSettingView::Colors(texts) => StateView {
                theme: themed(texts, s1.theme),
                theme_name: "custom"@,
                ..s1
            },
            ThemeSettingView::Unset => s1,
        };
        match settings.ui {
            Some(ui) => StateView {
                ui: UiView {
                    scrollbar_thumb: match ui.scrollbar_thumb {
                        Some(text) => text,
                        None => s2.ui.scrollbar_thumb,
                    },
                    prompt: match ui.prompt {
                        Some(text) => text,
                        None => s2.ui.prompt,
                    },
                },
                ..s2
            },
            None => s2,
        }
    }
}

impl State {
    /// Takes over what a configuration file says. `theme_file` is what the
    /// file of the theme holds that the configuration names, if it names one
    /// and that file could be read.
    pub fn load_config(&mut self, settings: ConfigSettings, theme_file: Option<&ThemeTexts>)
        ensures
            final(self)@ == old(self)@.apply_config(
                settings@,
                crate::state::texts_view(theme_file),
            ),
            old(self).wf() ==> final(self).wf(),
    {
        let settings = settings;
        match settings.aliases {
            Some(pairs) => {
                self.aliases = pairs;
            },
            None => {},
        }
        match settings.theme {
            ThemeSetting::Named(name) => {
                if !self.load_theme_from_file(name.as_str(), theme_file) {
                    self.theme = Theme::from_name(name.as_str());
                }
                self.theme_name = name;
            },
            ThemeSetting::Colors(texts) => {
                self.theme = Theme::from_texts(&texts, self.theme);
                self.theme_name = "custom".to_owned();
            },
            ThemeSetting::Unset => {},
        }
        match settings.ui {
            Some(ui) => {
                match ui.scrollbar_thumb {
                    Some(text) => {
                        self.ui.scrollbar_thumb = text;
                    },
                    None => {},
                }
                match ui.prompt {
                    Some(text) => {
                        self.ui.prompt = text;
                    },
                    None => {},
                }
            },
            None => {},
        }
    }
}

} // verus!
