//! The shell itself: its state and its command manager, and what a
//! submitted line does.
//!
//! A line is handled in steps, because reading files and starting programs
//! is left to the caller. [`App::submit_command`] takes the line from the
//! input. [`App::run_command`] splits it into words and either carries it
//! out at once or says what the caller has to do. [`App::finish_effect`]
//! and [`App::spawn_command`] take the result of that back.

use crate::command::{
    update_views, CommandLogView, CommandManager, CommandRequest, CommandUpdate, Error,
    LaunchFailure, RunningCommand,
};
use crate::config::{alias_lookup, find_alias};
use crate::state::{pair_views, State, StateView};
use crate::text::{
    char_views, chars_of, ends_with, has_suffix, insert_sorted, lemma_sorted_listing_is_unique,
    same_text, sorted_listing_of, string_of, string_views, strictly_sorted, strings_of, sub_chars,
    trim, trimmed,
};
use crate::theme::{option_view, ThemeTexts, ThemeTextsView};
use tokio::sync::oneshot::Sender;
use vstd::prelude::*;
use vstd::string::StringExecFns;

verus! {

/// The words that `shlex::split` makes of the line `line`, if its quotes
/// match.
pub uninterp spec fn shell_words(line: Seq<char>) -> Option<Seq<Seq<char>>>;

/// `shlex::split` splits a line into words as a shell does, and fails where
/// a quote is left open. The same line always gives the same words.
#[verifier::external_body]
pub(crate) fn split_shell_words(line: &str) -> (words: Option<Vec<String>>)
    ensures
        match words {
            Some(w) => shell_words(line@) == Some(string_views(w@)),
            None => shell_words(line@) is None,
        },
{
    shlex::split(line)
}

/// [`CommandRequest`] as plain values.
pub struct CommandRequestView {
    pub program: Seq<char>,
    pub args: Seq<Seq<char>>,
    pub cwd: Seq<char>,
}

impl View for CommandRequest {
    type V = CommandRequestView;

    open spec fn view(&self) -> CommandRequestView {
        CommandRequestView {
            program: self.program@,
            args: string_views(self.args@),
            cwd: self.cwd@,
        }
    }
}

/// What was taken from the input line.
#[derive(Clone, Debug, PartialEq, Eq)]
pub enum Submitted {
    /// The line was empty.
    Nothing,
    /// The line `input`, which is to be run. Where `save_history` holds the
    /// line went into the history, which is to be saved before the line is
    /// run.
    Command { input: String, save_history: bool },
}

/// What the caller has to do for a line that was run.
#[derive(Clone, Debug, PartialEq, Eq)]
pub enum Effect {
    /// Nothing: the line was carried out.
    Done,
    /// Read the configuration again.
    Reload,
    /// Read the file of the theme of this name.
    SetTheme(String),
    /// List the themes that there are, for a choice.
    SelectTheme,
    /// List the themes that there are.
    ListThemes,
    /// Unpack the themes that come with the shell again.
    RefreshThemes,
    /// Change to the directory that this target of `cd` stands for.
    ChangeDir(String),
    /// Start this program.
    Spawn(CommandRequest),
}

/// [`Effect`] as plain values.
pub enum EffectView {
    Done,
    Reload,
    SetTheme(Seq<char>),
    SelectTheme,
    ListThemes,
    RefreshThemes,
    ChangeDir(Seq<char>),
    Spawn(CommandRequestView),
}

impl View for Effect {
    type V = EffectView;

    open spec fn view(&self) -> EffectView {
        match self {
            Effect::Done => EffectView::Done,
            Effect::Reload => EffectView::Reload,
            Effect::SetTheme(name) => EffectView::SetTheme(name@),
            Effect::SelectTheme => EffectView::SelectTheme,
            Effect::ListThemes => EffectView::ListThemes,
            Effect::RefreshThemes => EffectView::RefreshThemes,
            Effect::ChangeDir(target) => EffectView::ChangeDir(target@),
            Effect::Spawn(request) => EffectView::Spawn(request@),
        }
    }
}

/// How what the caller did for an [`Effect`] came out.
#[derive(Debug, PartialEq, Eq)]
pub enum Outcome {
    /// The configuration was read again and taken over.
    Reloaded,
    /// The file of the theme `name` was read: `texts` is what it holds, or
    /// nothing if it could not be read.
    ThemeSet { name: String, texts: Option<ThemeTexts> },
    /// The themes that there are, for a choice.
    ThemeSelection(Vec<String>),
    /// The themes that there are.
    ThemeList(Vec<String>),
    /// The themes were unpacked again, or why they were not.
    ThemesRefreshed(Option<String>),
    /// The directory was changed to this one, or why it was not.
    DirChanged(Result<String, String>),
}

/// [`Outcome`] as plain values.
pub enum OutcomeView {
    Reloaded,
    ThemeSet { name: Seq<char>, texts: Option<ThemeTextsView> },
    ThemeSelection(Seq<Seq<char>>),
    ThemeList(Seq<Seq<char>>),
    ThemesRefreshed(Option<Seq<char>>),
    DirChanged(Result<Seq<char>, Seq<char>>),
}

impl View for Outcome {
    type V = OutcomeView;

    open spec fn view(&self) -> OutcomeView {
        match self {
            Outcome::Reloaded => OutcomeView::Reloaded,
            Outcome::ThemeSet { name, texts } => OutcomeView::ThemeSet {
                name: name@,
                texts: match texts {
                    Some(t) => Some(t@),
                    None => None,
                },
            },
            Outcome::ThemeSelection(names) => OutcomeView::ThemeSelection(string_views(names@)),
            Outcome::ThemeList(names) => OutcomeView::ThemeList(string_views(names@)),
            Outcome::ThemesRefreshed(error) => OutcomeView::ThemesRefreshed(option_view(*error)),
            Outcome::DirChanged(result) => OutcomeView::DirChanged(
                match result {
                    Ok(dir) => Ok(dir@),
                    Err(reason) => Err(reason@),
                },
            ),
        }
    }
}

/// The names that `pairs` give a meaning to.
pub open spec fn alias_names(pairs: Seq<(Seq<char>, Seq<char>)>) -> Set<Seq<char>> {
    Set::new(|name: Seq<char>| exists|i: int| 0 <= i < pairs.len() && (#[trigger] pairs[i]).0 == name)
}

/// The texts of `names`, each once, in ascending order.
pub open spec fn sorted_names(names: Set<Seq<char>>) -> Seq<Seq<char>> {
    choose|list: Seq<Seq<char>>| sorted_listing_of(list, names)
}

/// The line that `alias` prints for the name `name`.
pub open spec fn alias_line(pairs: Seq<(Seq<char>, Seq<char>)>, name: Seq<char>) -> Seq<char> {
    "alias "@ + name + "='"@ + (match alias_lookup(pairs, name) {
        Some(meaning) => meaning,
        None => Seq::empty(),
    }) + "'"@
}

/// The lines that `alias` prints: one for each name, in ascending order of
/// the names.
pub open spec fn alias_lines(pairs: Seq<(Seq<char>, Seq<char>)>) -> Seq<Seq<char>> {
    sorted_names(alias_names(pairs)).map_values(|name: Seq<char>| alias_line(pairs, name))
}

/// The texts of `words` with one space between each two.
pub open spec fn spaced(words: Seq<Seq<char>>) -> Seq<char>
    decreases words.len(),
{
    if words.len() == 0 {
        Seq::empty()
    } else if words.len() == 1 {
        words[0]
    } else {
        spaced(words.drop_last()) + seq![' '] + words.last()
    }
}

/// The program and its arguments after `words` was taken for the words of
/// an alias with the arguments behind it: the first word and the rest, or
/// `cmd` and `args` as they were where there is no word.
pub open spec fn expansion(cmd: Seq<char>, args: Seq<Seq<char>>, words: Option<Seq<Seq<char>>>) -> (
    Seq<char>,
    Seq<Seq<char>>,
) {
    match words {
        Some(w) => if w.len() > 0 {
            (w[0], w.skip(1))
        } else {
            (cmd, args)
        },
        None => (cmd, args),
    }
}

/// The line that stands for `cmd` with `args` where `cmd` is the name of an
/// alias: what the name stands for, and the arguments behind it.
pub open spec fn alias_line_for(meaning: Seq<char>, args: Seq<Seq<char>>) -> Seq<char> {
    if spaced(args).len() == 0 {
        meaning
    } else {
        meaning + seq![' '] + spaced(args)
    }
}

/// The program to start and its arguments for the command `cmd` with
/// `args`: where `cmd` is the name of an alias, the words of what it stands
/// for with the arguments behind them.
pub open spec fn alias_expanded(
    pairs: Seq<(Seq<char>, Seq<char>)>,
    cmd: Seq<char>,
    args: Seq<Seq<char>>,
) -> (Seq<char>, Seq<Seq<char>>) {
    match alias_lookup(pairs, cmd) {
        Some(meaning) => expansion(cmd, args, shell_words(alias_line_for(meaning, args))),
        None => (cmd, args),
    }
}

/// The name of the theme that the file `file_name` holds: what stands
/// before `.toml`, if the name ends so and something stands before it.
pub open spec fn theme_of_file(file_name: Seq<char>) -> Option<Seq<char>> {
    if has_suffix(file_name, ".toml"@) && file_name.len() > ".toml"@.len() {
        Some(file_name.take(file_name.len() - ".toml"@.len()))
    } else {
        None
    }
}

/// The names of the themes among the files `file_names`.
pub open spec fn theme_set(file_names: Seq<Seq<char>>) -> Set<Seq<char>> {
    Set::new(
        |name: Seq<char>|
            exists|i: int|
                0 <= i < file_names.len() && theme_of_file(#[trigger] file_names[i]) == Some(name),
    )
}

/// An empty entry of the log that is not running.
pub open spec fn blank_entry(cwd: Seq<char>) -> CommandLogView {
    CommandLogView {
        command: Seq::empty(),
        output: Seq::empty(),
        is_running: false,
        cwd,
        exit_code: None,
        duration_ms: None,
    }
}

impl StateView {
    /// The state after each of `lines` was added to the output of the last
    /// log entry, in order.
    pub open spec fn says_all(self, lines: Seq<Seq<char>>) -> StateView
        decreases lines.len(),
    {
        if lines.len() == 0 {
            self
        } else {
            self.says_all(lines.drop_last()).append_to_last_log(lines.last())
        }
    }

    /// The state after the input line was submitted, and the line to run
    /// with whether the history is to be saved. The line is taken without
    /// the white space around it, and the log is scrolled to its end. An
    /// empty line adds a blank entry to the log unless the last entry is
    /// blank, and leaves the input as it is. Any other line gets a running
    /// entry in the log, goes into the history unless it is the last line
    /// there already, and leaves the input empty.
    pub open spec fn submitted(self) -> (StateView, Option<(Seq<char>, bool)>) {
        let input = trimmed(self.input_buffer);
        let s = self.exit_preview_mode();
        if input.len() == 0 {
            let last_is_blank = s.command_log.len() > 0 && s.command_log.last().command.len() == 0
                && s.command_log.last().output.len() == 0;
            if last_is_blank {
                (s, None)
            } else {
                (StateView { command_log: s.command_log.push(blank_entry(s.cwd)), ..s }, None)
            }
        } else {
            let logged = s.add_log_entry(input, s.cwd);
            let is_new = !(logged.history.len() > 0 && logged.history.last() == input);
            (
                StateView {
                    history: if is_new {
                        logged.history.push(input)
                    } else {
                        logged.history
                    },
                    input_buffer: Seq::empty(),
                    cursor_position: 0,
                    ..logged
                },
                Some((input, is_new)),
            )
        }
    }

    /// What `theme` with the arguments `args` does.
    pub open spec fn run_theme(self, args: Seq<Seq<char>>) -> (StateView, EffectView) {
        if args.len() == 0 {
            (
                self.append_to_last_log("theme: "@ + self.theme_name).finish_last_log(),
                EffectView::Done,
            )
        } else if args[0] == "set"@ {
            if args.len() > 1 {
                (self, EffectView::SetTheme(args[1]))
            } else {
                (self, EffectView::SelectTheme)
            }
        } else if args[0] == "list"@ {
            (self, EffectView::ListThemes)
        } else if args[0] == "refresh"@ {
            (self, EffectView::RefreshThemes)
        } else {
            (
                self.append_to_last_log(
                    "usage: theme [set <name> | list | refresh]"@,
                ).finish_last_log(),
                EffectView::Done,
            )
        }
    }

    /// What `alias` with the arguments `args` prints.
    pub open spec fn run_alias(self, args: Seq<Seq<char>>) -> StateView {
        if args.len() > 0 {
            self.append_to_last_log("usage: alias  # lists aliases"@)
        } else if self.aliases.len() == 0 {
            self.append_to_last_log("(no aliases)"@)
        } else {
            self.says_all(alias_lines(self.aliases))
        }
    }

    /// What the command `cmd` with the arguments `args` does: the state
    /// after it, and what is left for the caller to do. The commands that the
    /// shell knows are carried out, as far as they need nothing from outside,
    /// and the log entry is ended. Any other command is a program to start,
    /// after aliases were put in.
    pub open spec fn run(self, cmd: Seq<char>, args: Seq<Seq<char>>) -> (StateView, EffectView) {
        if cmd == "exit"@ {
            (StateView { should_quit: true, ..self }.finish_last_log(), EffectView::Done)
        } else if cmd == ":reload"@ {
            (self, EffectView::Reload)
        } else if cmd == "theme"@ {
            self.run_theme(args)
        } else if cmd == "alias"@ {
            (self.run_alias(args).finish_last_log(), EffectView::Done)
        } else if cmd == "cd"@ {
            (
                self,
                EffectView::ChangeDir(
                    if args.len() > 0 {
                        args[0]
                    } else {
                        "~"@
                    },
                ),
            )
        } else if cmd == "pwd"@ {
            (self.append_to_last_log(self.cwd).finish_last_log(), EffectView::Done)
        } else {
            let (program, rest) = alias_expanded(self.aliases, cmd, args);
            (
                self,
                EffectView::Spawn(CommandRequestView { program, args: rest, cwd: self.cwd }),
            )
        }
    }

    /// What a line does that was split into `words`. Without words, because
    /// a quote was left open or the line held none, the log says so and the
    /// entry is ended.
    pub open spec fn dispatched(self, words: Option<Seq<Seq<char>>>) -> (StateView, EffectView) {
        match words {
            Some(w) => if w.len() > 0 {
                self.run(w[0], w.skip(1))
            } else {
                (
                    self.append_to_last_log("Error: Mismatched quotes."@).finish_last_log(),
                    EffectView::Done,
                )
            },
            None => (
                self.append_to_last_log("Error: Mismatched quotes."@).finish_last_log(),
                EffectView::Done,
            ),
        }
    }

    /// The state after the caller reported how an effect came out. The log
    /// says how, and the entry is ended.
    pub open spec fn finished(self, outcome: OutcomeView) -> StateView {
        match outcome {
            OutcomeView::Reloaded => self.append_to_last_log(
                "[config reloaded]"@,
            ).finish_last_log(),
            OutcomeView::ThemeSet { name, texts } => match texts {
                Some(t) => self.load_theme_from_file(name, Some(t)).append_to_last_log(
                    "[theme set to "@ + name + "]"@,
                ).finish_last_log(),
                None => self.append_to_last_log(
                    "[error: theme '"@ + name + "' not found]"@,
                ).finish_last_log(),
            },
            OutcomeView::ThemeSelection(names) => self.enter_theme_selection_mode(
                names,
            ).append_to_last_log(
                "Theme selection mode - use ↑/↓ to navigate, Enter to select, Esc to cancel"@,
            ).finish_last_log(),
            OutcomeView::ThemeList(names) => self.append_to_last_log(
                "Available themes:"@,
            ).says_all(names.map_values(|name: Seq<char>| "  "@ + name)).finish_last_log(),
            OutcomeView::ThemesRefreshed(error) => match error {
                Some(reason) => self.append_to_last_log(
                    "[error: failed to refresh themes: "@ + reason + "]"@,
                ).finish_last_log(),
                None => self.append_to_last_log(
                    "[themes refreshed successfully]"@,
                ).finish_last_log(),
            },
            OutcomeView::DirChanged(result) => match result {
                Ok(dir) => StateView { cwd: dir, ..self }.finish_last_log(),
                Err(reason) => self.append_to_last_log("cd: "@ + reason).finish_last_log(),
            },
        }
    }

    /// The state after a program was to be started at the time `now`, which
    /// is kept as its start. Where it could not be started, the log says
    /// why, in `failure`, and the entry is ended.
    pub open spec fn launched(self, failure: Option<Seq<char>>, now: u128) -> StateView {
        match failure {
            Some(message) => self.mark_last_log_started(now).append_to_last_log(
                message,
            ).finish_last_log(),
            None => self.mark_last_log_started(now),
        }
    }

    /// Whether the caller has to save the session after `outcome`: a theme
    /// was set or the directory was changed.
    pub open spec fn saves_session(outcome: OutcomeView) -> bool {
        match outcome {
            OutcomeView::ThemeSet { name, texts } => texts is Some,
            OutcomeView::DirChanged(result) => result is Ok,
            _ => false,
        }
    }
}

/// `a` and then `b` and then `c`.
fn concat3(a: &str, b: &str, c: &str) -> (out: String)
    ensures
        out@ == a@ + b@ + c@,
{
    let mut out = a.to_owned();
    out.append(b);
    out.append(c);
    out
}

/// The texts of `words` with one space between each two.
pub fn join_with_spaces(words: &Vec<String>) -> (out: String)
    ensures
        out@ == spaced(string_views(words@)),
{
    let ghost views = string_views(words@);
    let mut out = String::new();
    let mut i: usize = 0;
    while i < words.len()
        invariant
            i <= words.len(),
            views == string_views(words@),
            out@ == spaced(views.take(i as int)),
        decreases words.len() - i,
    {
        proof {
            assert(views.take(i + 1).drop_last() =~= views.take(i as int));
        }
        if i > 0 {
            out.push(' ');
        }
        out.append(words[i].as_str());
        i += 1;
    }
    proof {
        assert(views.take(words.len() as int) =~= views);
    }
    out
}

/// The program and its arguments after `words` was taken for the words of
/// an alias with the arguments behind it.
pub fn choose_expansion(cmd: String, args: Vec<String>, words: Option<Vec<String>>) -> (r: (
    String,
    Vec<String>,
))
    ensures
        (r.0@, string_views(r.1@)) == expansion(
            cmd@,
            string_views(args@),
            match words {
                Some(w) => Some(string_views(w@)),
                None => None,
            },
        ),
{
    match words {
        Some(w) => {
            let mut w = w;
            if w.len() > 0 {
                let first = w.remove(0);
                (first, w)
            } else {
                (cmd, args)
            }
        },
        None => (cmd, args),
    }
}

/// The program to start and its arguments for the command `cmd` with
/// `args`, after aliases were put in.
pub fn expand_alias(aliases: &Vec<(String, String)>, cmd: String, args: Vec<String>) -> (r: (
    String,
    Vec<String>,
))
    ensures
        (r.0@, string_views(r.1@)) == alias_expanded(
            pair_views(aliases@),
            cmd@,
            string_views(args@),
        ),
{
    match find_alias(aliases, cmd.as_str()) {
        Some(meaning) => {
            let rest = join_with_spaces(&args);
            let ghost wanted = alias_line_for(meaning@, string_views(args@));
            let line = if rest.as_str().unicode_len() == 0 {
                meaning
            } else {
                let mut line = meaning;
                line.push(' ');
                line.append(rest.as_str());
                assert(line@ =~= wanted);
                line
            };
            let words = split_shell_words(line.as_str());
            choose_expansion(cmd, args, words)
        },
        None => (cmd, args),
    }
}

/// The lines that `alias` prints for `aliases`.
pub fn list_aliases(aliases: &Vec<(String, String)>) -> (lines: Vec<String>)
    ensures
        string_views(lines@) == alias_lines(pair_views(aliases@)),
{
    let ghost pairs = pair_views(aliases@);
    let mut names: Vec<Vec<char>> = Vec::new();
    let mut i: usize = 0;
    while i < aliases.len()
        invariant
            i <= aliases.len(),
            pairs == pair_views(aliases@),
            strictly_sorted(char_views(names@)),
            forall|n: Seq<char>|
                char_views(names@).contains(n) <==> exists|k: int|
                    0 <= k < i && (#[trigger] pairs[k]).0 == n,
        decreases aliases.len() - i,
    {
        let name = chars_of(aliases[i].0.as_str());
        insert_sorted(&mut names, name);
        proof {
            assert(pairs[i as int].0 == name@);
        }
        i += 1;
    }
    let ghost sorted = char_views(names@);
    proof {
        assert(sorted_listing_of(sorted, alias_names(pairs)));
        let chosen = sorted_names(alias_names(pairs));
        lemma_sorted_listing_is_unique(sorted, chosen);
    }
    let mut lines: Vec<String> = Vec::new();
    let mut k: usize = 0;
    while k < names.len()
        invariant
            k <= names.len(),
            pairs == pair_views(aliases@),
            sorted == char_views(names@),
            sorted == sorted_names(alias_names(pairs)),
            string_views(lines@) == alias_lines(pairs).take(k as int),
        decreases names.len() - k,
    {
        let name = string_of(names[k].as_slice());
        let meaning = match find_alias(aliases, name.as_str()) {
            Some(m) => m,
            None => String::new(),
        };
        let mut line = concat3("alias ", name.as_str(), "='");
        line.append(meaning.as_str());
        line.append("'");
        proof {
            assert(string_views(lines@.push(line)) =~= string_views(lines@).push(line@));
        }
        lines.push(line);
        k += 1;
    }
    lines
}

/// The names of the themes among the files `file_names`, each once, in
/// ascending order.
pub fn theme_names(file_names: &[String]) -> (names: Vec<String>)
    ensures
        sorted_listing_of(string_views(names@), theme_set(string_views(file_names@))),
{
    let ghost files = string_views(file_names@);
    let suffix = chars_of(".toml");
    let mut list: Vec<Vec<char>> = Vec::new();
    let mut i: usize = 0;
    while i < file_names.len()
        invariant
            i <= file_names.len(),
            files == string_views(file_names@),
            suffix@ == ".toml"@,
            strictly_sorted(char_views(list@)),
            forall|n: Seq<char>|
                char_views(list@).contains(n) <==> exists|k: int|
                    0 <= k < i && theme_of_file(#[trigger] files[k]) == Some(n),
        decreases file_names.len() - i,
    {
        let file = chars_of(file_names[i].as_str());
        proof {
            assert(files[i as int] == file@);
        }
        if ends_with(file.as_slice(), suffix.as_slice()) && file.len() > suffix.len() {
            let stem = sub_chars(file.as_slice(), 0, file.len() - suffix.len());
            insert_sorted(&mut list, stem);
        }
        i += 1;
    }
    strings_of(&list)
}

impl State {
    /// The names of the themes that there are, given the names of the files
    /// in the directory of the themes: each once, in ascending order.
    pub fn get_available_themes(&self, file_names: &[String]) -> (names: Vec<String>)
        ensures
            sorted_listing_of(string_views(names@), theme_set(string_views(file_names@))),
    {
        theme_names(file_names)
    }
}

/// The shell: its state and the manager of its commands.
pub struct App {
    pub state: State,
    pub command_manager: CommandManager,
}

impl App {
    /// A shell in its first state, in the directory `cwd` and for the user
    /// `username`, with no command to cancel.
    pub fn new(cwd: String, username: String) -> (app: Self)
        ensures
            app.state@ == StateView::initial(cwd@, username@),
            app.state.wf(),
            !app.command_manager.is_cancellable(),
    {
        App { state: State::new(cwd, username), command_manager: CommandManager::new() }
    }

    /// Cancels the running command, if one can be cancelled, and notes in
    /// the log that the user did so.
    pub fn kill_command(&mut self) -> (r: Result<(), Error>)
        ensures
            r is Ok,
            !final(self).command_manager.is_cancellable(),
            final(self).state@ == old(self).state@.append_to_last_log(
                "[Process killed by user]"@,
            ),
            old(self).state.wf() ==> final(self).state.wf(),
    {
        match self.command_manager.kill_running_command() {
            Ok(()) => {
                self.state.append_to_last_log("[Process killed by user]".to_owned());
                Ok(())
            },
            Err(e) => Err(e),
        }
    }

    /// Takes in the updates of the running command that have arrived, in
    /// their order, at the time `now_ms`.
    pub fn process_command_updates(&mut self, updates: &[CommandUpdate], now_ms: u128)
        ensures
            final(self).state@ == old(self).state@.apply_updates(update_views(updates@), now_ms),
            final(self).command_manager == old(self).command_manager,
            old(self).state.wf() ==> final(self).state.wf(),
    {
        self.state.process_command_updates(updates, now_ms);
    }

    /// Takes the line from the input.
    pub fn submit_command(&mut self) -> (submitted: Submitted)
        ensures
            final(self).state@ == old(self).state@.submitted().0,
            match submitted {
                Submitted::Nothing => old(self).state@.submitted().1 is None,
                Submitted::Command { input, save_history } => old(self).state@.submitted().1
                    == Some((input@, save_history)),
            },
            final(self).command_manager == old(self).command_manager,
            old(self).state.wf() ==> final(self).state.wf(),
    {
        let input = trim(self.state.input_buffer.as_str());
        self.state.exit_preview_mode();
        let cwd = self.state.cwd.clone();
        if input.as_str().unicode_len() == 0 {
            let n = self.state.command_log.len();
            let last_is_blank = n > 0 && self.state.command_log[n - 1].command.as_str().unicode_len()
                == 0 && self.state.command_log[n - 1].output.as_str().unicode_len() == 0;
            if !last_is_blank {
                let entry = crate::command::CommandLog::new(
                    String::new(),
                    String::new(),
                    false,
                    cwd,
                );
                proof {
                    assert(crate::command::log_views(self.state.command_log@.push(entry))
                        =~= crate::command::log_views(self.state.command_log@).push(entry@));
                }
                self.state.command_log.push(entry);
            }
            return Submitted::Nothing;
        }
        self.state.add_log_entry(input.clone(), cwd);
        let h = self.state.history.len();
        let is_new = !(h > 0 && same_text(self.state.history[h - 1].as_str(), input.as_str()));
        if is_new {
            let line = input.clone();
            proof {
                assert(string_views(self.state.history@.push(line)) =~= string_views(
                    self.state.history@,
                ).push(line@));
            }
            self.state.history.push(line);
        }
        self.state.input_buffer = String::new();
        self.state.cursor_position = 0;
        Submitted::Command { input, save_history: is_new }
    }

    /// Notes in the log that the history could not be saved, and why.
    pub fn note_history_error(&mut self, reason: &str)
        ensures
            final(self).state@ == old(self).state@.append_to_last_log(
                "[history save error] "@ + reason@,
            ),
            final(self).command_manager == old(self).command_manager,
            old(self).state.wf() ==> final(self).state.wf(),
    {
        let mut line = "[history save error] ".to_owned();
        line.append(reason);
        self.state.append_to_last_log(line);
    }

    /// Carries out `theme` with the arguments `args`.
    fn run_theme(&mut self, args: &Vec<String>) -> (effect: Effect)
        ensures
            (final(self).state@, effect@) == old(self).state@.run_theme(string_views(args@)),
            final(self).command_manager == old(self).command_manager,
            old(self).state.wf() ==> final(self).state.wf(),
    {
        if args.len() == 0 {
            let mut line = "theme: ".to_owned();
            line.append(self.state.theme_name.as_str());
            self.state.append_to_last_log(line);
            self.state.finish_last_log();
            Effect::Done
        } else if same_text(args[0].as_str(), "set") {
            if args.len() > 1 {
                Effect::SetTheme(args[1].clone())
            } else {
                Effect::SelectTheme
            }
        } else if same_text(args[0].as_str(), "list") {
            Effect::ListThemes
        } else if same_text(args[0].as_str(), "refresh") {
            Effect::RefreshThemes
        } else {
            self.state.append_to_last_log("usage: theme [set <name> | list | refresh]".to_owned());
            self.state.finish_last_log();
            Effect::Done
        }
    }

    /// Adds each of `lines` to the output of the last log entry.
    fn say_all(&mut self, lines: &Vec<String>)
        ensures
            final(self).state@ == old(self).state@.says_all(string_views(lines@)),
            final(self).command_manager == old(self).command_manager,
            old(self).state.wf() ==> final(self).state.wf(),
    {
        let ghost all = string_views(lines@);
        let mut i: usize = 0;
        while i < lines.len()
            invariant
                i <= lines.len(),
                all == string_views(lines@),
                self.state@ == old(self).state@.says_all(all.take(i as int)),
                self.command_manager == old(self).command_manager,
                old(self).state.wf() ==> self.state.wf(),
            decreases lines.len() - i,
        {
            proof {
                assert(all.take(i + 1).drop_last() =~= all.take(i as int));
            }
            self.state.append_to_last_log(lines[i].clone());
            i += 1;
        }
        proof {
            assert(all.take(lines.len() as int) =~= all);
        }
    }

    /// Carries out `alias` with the arguments `args`.
    fn run_alias(&mut self, args: &Vec<String>)
        ensures
            final(self).state@ == old(self).state@.run_alias(string_views(args@)),
            final(self).command_manager == old(self).command_manager,
            old(self).state.wf() ==> final(self).state.wf(),
    {
        if args.len() > 0 {
            self.state.append_to_last_log("usage: alias  # lists aliases".to_owned());
        } else if self.state.aliases.len() == 0 {
            self.state.append_to_last_log("(no aliases)".to_owned());
        } else {
            let lines = list_aliases(&self.state.aliases);
            self.say_all(&lines);
        }
    }

    /// Carries out a line that was split into `words`, as far as that needs
    /// nothing from outside, and says what is left for the caller to do.
    pub fn dispatch(&mut self, words: Option<Vec<String>>) -> (effect: Effect)
        ensures
            (final(self).state@, effect@) == old(self).state@.dispatched(
                match words {
                    Some(w) => Some(string_views(w@)),
                    None => None,
                },
            ),
            final(self).command_manager == old(self).command_manager,
            old(self).state.wf() ==> final(self).state.wf(),
    {
        let mut args = match words {
            Some(w) => w,
            None => Vec::new(),
        };
        if args.len() == 0 {
            self.state.append_to_last_log("Error: Mismatched quotes.".to_owned());
            self.state.finish_last_log();
            return Effect::Done;
        }
        let ghost all = string_views(args@);
        let cmd = args.remove(0);
        proof {
            assert(string_views(args@) =~= all.skip(1));
        }
        if same_text(cmd.as_str(), "exit") {
            self.state.should_quit = true;
            self.state.finish_last_log();
            Effect::Done
        } else if same_text(cmd.as_str(), ":reload") {
            Effect::Reload
        } else if same_text(cmd.as_str(), "theme") {
            self.run_theme(&args)
        } else if same_text(cmd.as_str(), "alias") {
            self.run_alias(&args);
            self.state.finish_last_log();
            Effect::Done
        } else if same_text(cmd.as_str(), "cd") {
            if args.len() > 0 {
                Effect::ChangeDir(args[0].clone())
            } else {
                Effect::ChangeDir("~".to_owned())
            }
        } else if same_text(cmd.as_str(), "pwd") {
            let cwd = self.state.cwd.clone();
            self.state.append_to_last_log(cwd);
            self.state.finish_last_log();
            Effect::Done
        } else {
            let (program, rest) = expand_alias(&self.state.aliases, cmd, args);
            Effect::Spawn(CommandRequest { program, args: rest, cwd: self.state.cwd.clone() })
        }
    }

    /// Splits the line `input` into words and carries it out, as far as that
    /// needs nothing from outside. Returns what is left for the caller to do.
    pub fn run_command(&mut self, input: &str) -> (effect: Effect)
        ensures
            (final(self).state@, effect@) == old(self).state@.dispatched(shell_words(input@)),
            final(self).command_manager == old(self).command_manager,
            old(self).state.wf() ==> final(self).state.wf(),
    {
        let words = split_shell_words(input);
        self.dispatch(words)
    }

    /// Takes how an effect came out: notes it in the log and ends the log
    /// entry. Returns whether the session is to be saved.
    pub fn finish_effect(&mut self, outcome: Outcome) -> (save_session: bool)
        ensures
            final(self).state@ == old(self).state@.finished(outcome@),
            save_session == StateView::saves_session(outcome@),
            final(self).command_manager == old(self).command_manager,
            old(self).state.wf() ==> final(self).state.wf(),
    {
        let mut save = false;
        match outcome {
            Outcome::Reloaded => {
                self.state.append_to_last_log("[config reloaded]".to_owned());
            },
            Outcome::ThemeSet { name, texts } => {
                match texts {
                    Some(t) => {
                        self.state.load_theme_from_file(name.as_str(), Some(&t));
                        self.state.append_to_last_log(
                            concat3("[theme set to ", name.as_str(), "]"),
                        );
                        save = true;
                    },
                    None => {
                        self.state.append_to_last_log(
                            concat3("[error: theme '", name.as_str(), "' not found]"),
                        );
                    },
                }
            },
            Outcome::ThemeSelection(names) => {
                self.state.enter_theme_selection_mode(names);
                self.state.append_to_last_log(
                    "Theme selection mode - use ↑/↓ to navigate, Enter to select, Esc to cancel".to_owned(),
                );
            },
            Outcome::ThemeList(names) => {
                self.state.append_to_last_log("Available themes:".to_owned());
                let ghost views = string_views(names@);
                let mut lines: Vec<String> = Vec::new();
                let mut i: usize = 0;
                let ghost wanted = views.map_values(|name: Seq<char>| "  "@ + name);
                while i < names.len()
                    invariant
                        i <= names.len(),
                        views == string_views(names@),
                        wanted == views.map_values(|name: Seq<char>| "  "@ + name),
                        string_views(lines@) == wanted.take(i as int),
                    decreases names.len() - i,
                {
                    let mut line = "  ".to_owned();
                    line.append(names[i].as_str());
                    proof {
                        assert(string_views(lines@.push(line)) =~= string_views(lines@).push(
                            line@,
                        ));
                    }
                    lines.push(line);
                    i += 1;
                }
                proof {
                    assert(wanted.take(names.len() as int) =~= wanted);
                }
                self.say_all(&lines);
            },
            Outcome::ThemesRefreshed(error) => {
                match error {
                    Some(reason) => {
                        self.state.append_to_last_log(
                            concat3("[error: failed to refresh themes: ", reason.as_str(), "]"),
                        );
                    },
                    None => {
                        self.state.append_to_last_log("[themes refreshed successfully]".to_owned());
                    },
                }
            },
            Outcome::DirChanged(result) => {
                match result {
                    Ok(dir) => {
                        self.state.cwd = dir;
                        save = true;
                    },
                    Err(reason) => {
                        let mut line = "cd: ".to_owned();
                        line.append(reason.as_str());
                        self.state.append_to_last_log(line);
                    },
                }
            },
        }
        self.state.finish_last_log();
        save
    }

    /// Takes what the launcher handed back for the program `program` that
    /// was to be started at the time `now_ms`. If it runs, the manager holds
    /// its cancellation handle and the units of the command are returned. If
    /// it does not, the log names the program and says why, and its entry is
    /// ended.
    pub fn spawn_command(
        &mut self,
        program: &str,
        launched: Result<Sender<()>, LaunchFailure>,
        now_ms: u128,
    ) -> (running: Option<RunningCommand>)
        ensures
            final(self).state@ == old(self).state@.launched(
                match launched {
                    Ok(sender) => None,
                    Err(failure) => Some(program@ + ": "@ + failure.reason(program@)),
                },
                now_ms,
            ),
            match launched {
                Ok(sender) => running is Some && running->Some_0.is_fresh() && final(self).command_manager.slot()
                    == Some(sender),
                Err(e) => running is None && final(self).command_manager == old(self).command_manager,
            },
            old(self).state.wf() ==> final(self).state.wf(),
    {
        self.state.mark_last_log_started(now_ms);
        match self.command_manager.spawn_command(program, launched) {
            Ok(running) => Some(running),
            Err(e) => {
                self.state.append_to_last_log(e.message());
                self.state.finish_last_log();
                None
            },
        }
    }
}

} // verus!
