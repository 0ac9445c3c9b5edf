//! The state of the shell: the input line, the history, the log of commands
//! and their output, and the settings of the screen.
//!
//! Every operation is stated twice: as a function on the plain view of the
//! state, which says what the operation means, and as the method that carries
//! it out.

use crate::command::{log_views, update_views, CommandLog, CommandLogView, CommandUpdate, UpdateView};
use crate::completion::{CompletionState, CompletionView};
use crate::text::{
    at_boundary, byte_count, byte_len, insert_char_at, lemma_with_char_at_boundaries,
    lemma_with_char_at_bytes, lemma_without_char_at_boundary, lemma_without_char_at_bytes,
    remove_char_at, ring_next, string_views, with_char_at, without_char_at,
};
use crate::theme::{
    default_theme, named_theme, option_view, themed, Theme, ThemeTexts, ThemeTextsView,
};
use vstd::prelude::*;
use vstd::string::StringExecFns;
use vstd::utf8::{encode_utf8, encode_utf8_valid_utf8};

verus! {

/// How many entries the log keeps: the newest ones.
pub const HISTORY_LIMIT: usize = 100;

/// The name of the theme that a new state starts with.
pub const DEFAULT_THEME_NAME: &'static str = "cyber-nord";

/// The text of the first log entry.
pub const WELCOME: &'static str = "Welcome to Halo! A modern shell for a modern age.";

/// The symbols that the screen is drawn with.
#[derive(Clone, Debug)]
pub struct UiConfig {
    pub scrollbar_thumb: String,
    pub prompt: String,
}

/// The symbols as plain values.
pub struct UiView {
    pub scrollbar_thumb: Seq<char>,
    pub prompt: Seq<char>,
}

impl View for UiConfig {
    type V = UiView;

    open spec fn view(&self) -> UiView {
        UiView { scrollbar_thumb: self.scrollbar_thumb@, prompt: self.prompt@ }
    }
}

/// The symbols of a new state.
pub open spec fn default_ui() -> UiView {
    UiView { scrollbar_thumb: "█"@, prompt: "❯"@ }
}

impl Default for UiConfig {
    fn default() -> (ui: Self)
        ensures
            ui@ == default_ui(),
    {
        UiConfig { scrollbar_thumb: "█".to_owned(), prompt: "❯".to_owned() }
    }
}

/// What is kept from one session to the next.
#[derive(Clone, Debug, PartialEq, Eq)]
pub struct Session {
    pub last_cwd: String,
    pub last_theme_name: Option<String>,
}

/// [`Session`] as plain values.
pub struct SessionView {
    pub last_cwd: Seq<char>,
    pub last_theme_name: Option<Seq<char>>,
}

impl View for Session {
    type V = SessionView;

    open spec fn view(&self) -> SessionView {
        SessionView {
            last_cwd: self.last_cwd@,
            last_theme_name: option_view(self.last_theme_name),
        }
    }
}

/// The state of the shell.
pub struct State {
    pub should_quit: bool,
    pub needs_redraw: bool,
    pub username: String,
    pub cwd: String,
    pub git_branch: Option<String>,
    pub input_buffer: String,
    /// Where the cursor stands in the input line: an offset in bytes into
    /// its UTF-8 form.
    pub cursor_position: usize,
    pub history: Vec<String>,
    pub history_index: Option<usize>,
    pub command_log: Vec<CommandLog>,
    /// How many entries the log is scrolled back; above 0 the screen
    /// previews an earlier entry.
    pub scroll_offset: usize,
    pub completion_state: CompletionState,
    /// The aliases, each a name and what it stands for.
    pub aliases: Vec<(String, String)>,
    /// When the running command was started, in milliseconds.
    pub last_start_ms: Option<u128>,
    pub theme: Theme,
    pub theme_name: String,
    pub ui: UiConfig,
    pub theme_selection_mode: bool,
    pub available_themes: Vec<String>,
    pub theme_selection_index: usize,
}

/// The state of the shell as plain values.
pub struct StateView {
    pub should_quit: bool,
    pub needs_redraw: bool,
    pub username: Seq<char>,
    pub cwd: Seq<char>,
    pub git_branch: Option<Seq<char>>,
    pub input_buffer: Seq<char>,
    pub cursor_position: usize,
    pub history: Seq<Seq<char>>,
    pub history_index: Option<usize>,
    pub command_log: Seq<CommandLogView>,
    pub scroll_offset: usize,
    pub completion: CompletionView,
    pub aliases: Seq<(Seq<char>, Seq<char>)>,
    pub last_start_ms: Option<u128>,
    pub theme: Theme,
    pub theme_name: Seq<char>,
    pub ui: UiView,
    pub theme_selection_mode: bool,
    pub available_themes: Seq<Seq<char>>,
    pub theme_selection_index: usize,
}

/// The texts of pairs of strings, in order.
pub open spec fn pair_views(pairs: Seq<(String, String)>) -> Seq<(Seq<char>, Seq<char>)> {
    pairs.map_values(|p: (String, String)| (p.0@, p.1@))
}

impl View for State {
    type V = StateView;

    open spec fn view(&self) -> StateView {
        StateView {
            should_quit: self.should_quit,
            needs_redraw: self.needs_redraw,
            username: self.username@,
            cwd: self.cwd@,
            git_branch: option_view(self.git_branch),
            input_buffer: self.input_buffer@,
            cursor_position: self.cursor_position,
            history: string_views(self.history@),
            history_index: self.history_index,
            command_log: log_views(self.command_log@),
            scroll_offset: self.scroll_offset,
            completion: self.completion_state@,
            aliases: pair_views(self.aliases@),
            last_start_ms: self.last_start_ms,
            theme: self.theme,
            theme_name: self.theme_name@,
            ui: self.ui@,
            theme_selection_mode: self.theme_selection_mode,
            available_themes: string_views(self.available_themes@),
            theme_selection_index: self.theme_selection_index,
        }
    }
}

/// `output` with `line` added: on a line of its own unless `output` is
/// empty.
pub open spec fn appended(output: Seq<char>, line: Seq<char>) -> Seq<char> {
    if output.len() == 0 {
        line
    } else {
        output.push('\n') + line
    }
}

/// The newest `HISTORY_LIMIT` entries of `logs`.
pub open spec fn newest(logs: Seq<CommandLogView>) -> Seq<CommandLogView> {
    if logs.len() > HISTORY_LIMIT {
        logs.skip(logs.len() - HISTORY_LIMIT)
    } else {
        logs
    }
}

/// `logs` with its last entry replaced by `last`.
pub open spec fn with_last(logs: Seq<CommandLogView>, last: CommandLogView) -> Seq<
    CommandLogView,
> {
    logs.drop_last().push(last)
}

/// How long a command ran that was started at `start` and ended at `now`.
pub open spec fn elapsed(start: u128, now: u128) -> u128 {
    if now >= start {
        (now - start) as u128
    } else {
        0
    }
}

impl StateView {
    /// The cursor is no further than the end of the input line, both counted
    /// in bytes.
    pub open spec fn cursor_within(self) -> bool {
        self.cursor_position <= byte_len(self.input_buffer)
    }

    /// The place in the history, if there is one, is that of an entry.
    pub open spec fn history_place_valid(self) -> bool {
        self.history_index matches Some(i) ==> i < self.history.len()
    }

    /// The cursor stands within the input line, and the place in the history
    /// is that of an entry.
    pub open spec fn wf(self) -> bool {
        &&& self.cursor_within()
        &&& self.history_place_valid()
    }

    /// A character can go in at the cursor: the cursor stands where a
    /// character of the input line starts, or at its end.
    pub open spec fn can_insert(self) -> bool {
        at_boundary(self.input_buffer, self.cursor_position as int)
    }

    /// The character before the cursor can be taken out: the cursor is at
    /// the start of the line, or the byte before it is where a character
    /// starts.
    pub open spec fn can_backspace(self) -> bool {
        self.cursor_position > 0 ==> {
            &&& self.cursor_position - 1 < byte_len(self.input_buffer)
            &&& at_boundary(self.input_buffer, self.cursor_position - 1)
        }
    }

    /// The state that the shell starts in, before anything was loaded: an
    /// empty input line, no history, and a log that holds the welcome.
    pub open spec fn initial(cwd: Seq<char>, username: Seq<char>) -> StateView {
        StateView {
            should_quit: false,
            needs_redraw: true,
            username,
            cwd,
            git_branch: None,
            input_buffer: Seq::empty(),
            cursor_position: 0,
            history: Seq::empty(),
            history_index: None,
            command_log: seq![
                CommandLogView {
                    command: Seq::empty(),
                    output: WELCOME@,
                    is_running: false,
                    cwd,
                    exit_code: None,
                    duration_ms: None,
                },
            ],
            scroll_offset: 0,
            completion: CompletionView::closed(),
            aliases: Seq::empty(),
            last_start_ms: None,
            theme: default_theme(),
            theme_name: DEFAULT_THEME_NAME@,
            ui: default_ui(),
            theme_selection_mode: false,
            available_themes: Seq::empty(),
            theme_selection_index: 0,
        }
    }

    /// The cursor one byte to the left, unless it is at the start.
    pub open spec fn move_cursor_left(self) -> StateView {
        StateView {
            cursor_position: if self.cursor_position > 0 {
                (self.cursor_position - 1) as usize
            } else {
                0
            },
            ..self
        }
    }

    /// The cursor one byte to the right, unless it is at the end or beyond.
    pub open spec fn move_cursor_right(self) -> StateView {
        StateView {
            cursor_position: if self.cursor_position < byte_len(self.input_buffer) {
                (self.cursor_position + 1) as usize
            } else {
                self.cursor_position
            },
            ..self
        }
    }

    /// The character `c` put in at the cursor, and the cursor one byte
    /// further, however many bytes `c` takes.
    pub open spec fn insert_char(self, c: char) -> StateView
        recommends
            self.can_insert(),
    {
        StateView {
            input_buffer: with_char_at(self.input_buffer, self.cursor_position as int, c),
            cursor_position: (self.cursor_position + 1) as usize,
            ..self
        }
    }

    /// The cursor one byte to the left, and the character that starts there
    /// taken out. At the start of the line nothing changes.
    pub open spec fn backspace(self) -> StateView
        recommends
            self.can_backspace(),
    {
        if self.cursor_position > 0 {
            StateView {
                input_buffer: without_char_at(self.input_buffer, self.cursor_position - 1),
                cursor_position: (self.cursor_position - 1) as usize,
                ..self
            }
        } else {
            self
        }
    }

    /// The log scrolled to its end: no preview.
    pub open spec fn exit_preview_mode(self) -> StateView {
        StateView { scroll_offset: 0, ..self }
    }

    /// A running entry for `command` at the end of the log, and of the log
    /// only the newest entries.
    pub open spec fn add_log_entry(self, command: Seq<char>, cwd: Seq<char>) -> StateView {
        StateView {
            command_log: newest(
                self.command_log.push(
                    CommandLogView {
                        command,
                        output: Seq::empty(),
                        is_running: true,
                        cwd,
                        exit_code: None,
                        duration_ms: None,
                    },
                ),
            ),
            ..self
        }
    }

    /// `line` added to the output of the last entry. With an empty log
    /// nothing changes.
    pub open spec fn append_to_last_log(self, line: Seq<char>) -> StateView {
        if self.command_log.len() == 0 {
            self
        } else {
            let last = self.command_log.last();
            StateView {
                command_log: with_last(
                    self.command_log,
                    CommandLogView { output: appended(last.output, line), ..last },
                ),
                needs_redraw: true,
                ..self
            }
        }
    }

    /// The last entry marked as no longer running. With an empty log nothing
    /// changes.
    pub open spec fn finish_last_log(self) -> StateView {
        if self.command_log.len() == 0 {
            self
        } else {
            let last = self.command_log.last();
            StateView {
                command_log: with_last(
                    self.command_log,
                    CommandLogView { is_running: false, ..last },
                ),
                needs_redraw: true,
                ..self
            }
        }
    }

    /// The time `now` kept as the start of the running command.
    pub open spec fn mark_last_log_started(self, now: u128) -> StateView {
        StateView { last_start_ms: Some(now), ..self }
    }

    /// The last entry marked as ended with `exit_code`, and with the time it
    /// took if its start was kept, which is then forgotten. With an empty log
    /// nothing changes.
    pub open spec fn finish_last_log_with_result(self, exit_code: Option<i32>, now: u128) -> StateView {
        if self.command_log.len() == 0 {
            self
        } else {
            let last = self.command_log.last();
            StateView {
                command_log: with_last(
                    self.command_log,
                    CommandLogView {
                        is_running: false,
                        exit_code,
                        duration_ms: match self.last_start_ms {
                            Some(start) => Some(elapsed(start, now)),
                            None => last.duration_ms,
                        },
                        ..last
                    },
                ),
                last_start_ms: None,
                needs_redraw: true,
                ..self
            }
        }
    }

    /// The theme that a theme file gives: the default theme with the colors
    /// that the file spells. It becomes the theme under the name `name`.
    /// Without a file that could be read nothing changes.
    pub open spec fn load_theme_from_file(self, name: Seq<char>, texts: Option<ThemeTextsView>) -> StateView {
        match texts {
            Some(t) => StateView { theme: themed(t, default_theme()), theme_name: name, ..self },
            None => self,
        }
    }

    /// The choice of a theme opened on `names`, with the first one selected.
    pub open spec fn enter_theme_selection_mode(self, names: Seq<Seq<char>>) -> StateView {
        StateView {
            theme_selection_mode: true,
            available_themes: names,
            theme_selection_index: 0,
            needs_redraw: true,
            ..self
        }
    }

    /// The choice of a theme closed.
    pub open spec fn exit_theme_selection_mode(self) -> StateView {
        StateView {
            theme_selection_mode: false,
            available_themes: Seq::empty(),
            theme_selection_index: 0,
            needs_redraw: true,
            ..self
        }
    }

    /// A theme is being chosen and there is one to choose.
    pub open spec fn is_selecting(self) -> bool {
        self.theme_selection_mode && self.available_themes.len() > 0
    }

    /// The theme before the selected one selected; the first stays selected.
    pub open spec fn select_theme_up(self) -> StateView {
        if self.is_selecting() {
            StateView {
                theme_selection_index: if self.theme_selection_index > 0 {
                    (self.theme_selection_index - 1) as usize
                } else {
                    0
                },
                needs_redraw: true,
                ..self
            }
        } else {
            self
        }
    }

    /// The theme after the selected one selected, the first after the last.
    pub open spec fn select_theme_down(self) -> StateView {
        if self.is_selecting() {
            StateView {
                theme_selection_index: ((self.theme_selection_index + 1) % (
                self.available_themes.len() as int)) as usize,
                needs_redraw: true,
                ..self
            }
        } else {
            self
        }
    }

    /// The name of the selected theme, while one is being chosen.
    pub open spec fn selected_theme(self) -> Option<Seq<char>> {
        if self.is_selecting() && self.theme_selection_index < self.available_themes.len() {
            Some(self.available_themes[self.theme_selection_index as int])
        } else {
            None
        }
    }

    /// The selected theme shown: its file gives the theme, the name of the
    /// theme in use stays.
    pub open spec fn preview_selected_theme(self, texts: Option<ThemeTextsView>) -> StateView {
        match (self.selected_theme(), texts) {
            (Some(_), Some(t)) => StateView { theme: themed(t, default_theme()), ..self },
            _ => self,
        }
    }

    /// The selected theme taken: its file gives the theme, its name becomes
    /// the name of the theme in use, and the choice is closed. Without a
    /// selected theme or without its file nothing changes.
    pub open spec fn confirm_theme_selection(self, texts: Option<ThemeTextsView>) -> StateView {
        match (self.selected_theme(), texts) {
            (Some(name), Some(t)) => self.load_theme_from_file(
                name,
                Some(t),
            ).exit_theme_selection_mode(),
            _ => self,
        }
    }

    /// The state with the directory and the theme of the last session: the
    /// directory if it is still there, and the built-in theme of the name
    /// that was kept, if one was.
    pub open spec fn load_session(self, session: SessionView, is_dir: bool) -> StateView {
        let moved = if is_dir {
            StateView { cwd: session.last_cwd, ..self }
        } else {
            self
        };
        match session.last_theme_name {
            Some(name) => StateView { theme: named_theme(name), theme_name: name, ..moved },
            None => moved,
        }
    }

    /// What is kept of the state for the next session.
    pub open spec fn save_session(self) -> SessionView {
        SessionView { last_cwd: self.cwd, last_theme_name: Some(self.theme_name) }
    }

    /// The state after one update of the running command was taken in: a
    /// line goes to the output of the last entry, the terminal update ends
    /// it. Either way the screen is to be drawn again.
    pub open spec fn apply_update(self, update: UpdateView, now: u128) -> StateView {
        let next = match update {
            UpdateView::NewLine(line) => self.append_to_last_log(line),
            UpdateView::Finished(code) => self.finish_last_log_with_result(code, now),
        };
        StateView { needs_redraw: true, ..next }
    }

    /// The state after the updates were taken in, one after the other.
    pub open spec fn apply_updates(self, updates: Seq<UpdateView>, now: u128) -> StateView
        decreases updates.len(),
    {
        if updates.len() == 0 {
            self
        } else {
            self.apply_updates(updates.drop_last(), now).apply_update(updates.last(), now)
        }
    }
}

impl State {
    /// The cursor stands within the input line, and the place in the history
    /// is that of an entry.
    pub open spec fn wf(&self) -> bool {
        self@.wf()
    }

    /// The state that the shell starts in, before anything was loaded.
    pub fn new(cwd: String, username: String) -> (state: Self)
        ensures
            state@ == StateView::initial(cwd@, username@),
            state.wf(),
    {
        let mut command_log: Vec<CommandLog> = Vec::new();
        command_log.push(CommandLog::new(String::new(), WELCOME.to_owned(), false, cwd.clone()));
        let state = State {
            should_quit: false,
            needs_redraw: true,
            username,
            cwd,
            git_branch: None,
            input_buffer: String::new(),
            cursor_position: 0,
            history: Vec::new(),
            history_index: None,
            command_log,
            scroll_offset: 0,
            completion_state: CompletionState::new(),
            aliases: Vec::new(),
            last_start_ms: None,
            theme: Theme::default(),
            theme_name: DEFAULT_THEME_NAME.to_owned(),
            ui: UiConfig::default(),
            theme_selection_mode: false,
            available_themes: Vec::new(),
            theme_selection_index: 0,
        };
        proof {
            assert(state@.history =~= Seq::empty());
            assert(state@.aliases =~= Seq::empty());
            assert(state@.command_log =~= StateView::initial(cwd@, username@).command_log);
        }
        state
    }

    /// Moves the cursor one byte to the left.
    pub fn move_cursor_left(&mut self)
        ensures
            final(self)@ == old(self)@.move_cursor_left(),
            old(self).wf() ==> final(self).wf(),
    {
        if self.cursor_position > 0 {
            self.cursor_position = self.cursor_position - 1;
        }
    }

    /// Moves the cursor one byte to the right.
    pub fn move_cursor_right(&mut self)
        ensures
            final(self)@ == old(self)@.move_cursor_right(),
            old(self).wf() ==> final(self).wf(),
    {
        let len = byte_count(self.input_buffer.as_str());
        if self.cursor_position < len {
            self.cursor_position = self.cursor_position + 1;
        }
    }

    /// Puts the character `c` in at the cursor and moves the cursor one byte
    /// on. Behind a character of one byte the cursor stands where the next
    /// character can go in; behind a longer one it stands inside that
    /// character. Either way Backspace can take the character out again.
    pub fn insert_char(&mut self, c: char)
        requires
            old(self)@.can_insert(),
        ensures
            final(self)@ == old(self)@.insert_char(c),
            encode_utf8(final(self).input_buffer@) == encode_utf8(old(self).input_buffer@).subrange(
                0,
                old(self).cursor_position as int,
            ) + encode_utf8(seq![c]) + encode_utf8(old(self).input_buffer@).subrange(
                old(self).cursor_position as int,
                byte_len(old(self).input_buffer@) as int,
            ),
            final(self)@.cursor_within(),
            final(self)@.can_backspace(),
            byte_len(seq![c]) == 1 ==> final(self)@.can_insert(),
            old(self).wf() ==> final(self).wf(),
    {
        proof {
            lemma_with_char_at_bytes(self.input_buffer@, self.cursor_position as int, c);
            lemma_with_char_at_boundaries(self.input_buffer@, self.cursor_position as int, c);
        }
        let line = insert_char_at(self.input_buffer.as_str(), self.cursor_position, c);
        // The new line has more bytes than stand before the cursor, and their
        // number fits in `usize`: so does the cursor's next place.
        let _longer = byte_count(line.as_str());
        self.input_buffer = line;
        self.cursor_position = self.cursor_position + 1;
    }

    /// Moves the cursor one byte to the left and takes out the character
    /// that starts there. The cursor then stands where a character can go
    /// in.
    pub fn backspace(&mut self)
        requires
            old(self)@.can_backspace(),
        ensures
            final(self)@ == old(self)@.backspace(),
            final(self)@.cursor_within(),
            final(self)@.can_insert(),
            old(self).wf() ==> final(self).wf(),
    {
        proof {
            encode_utf8_valid_utf8(self.input_buffer@);
        }
        if self.cursor_position > 0 {
            self.cursor_position = self.cursor_position - 1;
            proof {
                lemma_without_char_at_bytes(self.input_buffer@, self.cursor_position as int);
                lemma_without_char_at_boundary(self.input_buffer@, self.cursor_position as int);
            }
            self.input_buffer = remove_char_at(self.input_buffer.as_str(), self.cursor_position);
        }
    }

    /// Scrolls the log to its end.
    pub fn exit_preview_mode(&mut self)
        ensures
            final(self)@ == old(self)@.exit_preview_mode(),
    {
        self.scroll_offset = 0;
    }

    /// Adds a running entry for `command` to the log and drops the oldest
    /// entries beyond the limit.
    pub fn add_log_entry(&mut self, command: String, cwd: String)
        ensures
            final(self)@ == old(self)@.add_log_entry(command@, cwd@),
    {
        let entry = CommandLog::new(command, String::new(), true, cwd);
        let ghost pushed = log_views(self.command_log@).push(entry@);
        self.command_log.push(entry);
        proof {
            assert(pushed.skip(0) =~= pushed);
        }
        while self.command_log.len() > HISTORY_LIMIT
            invariant
                self.command_log.len() <= pushed.len(),
                pushed.len() > HISTORY_LIMIT ==> self.command_log.len() >= HISTORY_LIMIT,
                pushed.len() <= HISTORY_LIMIT ==> self.command_log.len() == pushed.len(),
                log_views(self.command_log@) == pushed.skip(
                    pushed.len() - self.command_log.len(),
                ),
                self.should_quit == old(self).should_quit,
                self.needs_redraw == old(self).needs_redraw,
                self.username == old(self).username,
                self.cwd == old(self).cwd,
                self.git_branch == old(self).git_branch,
                self.input_buffer == old(self).input_buffer,
                self.cursor_position == old(self).cursor_position,
                self.history == old(self).history,
                self.history_index == old(self).history_index,
                self.scroll_offset == old(self).scroll_offset,
                self.completion_state == old(self).completion_state,
                self.aliases == old(self).aliases,
                self.last_start_ms == old(self).last_start_ms,
                self.theme == old(self).theme,
                self.theme_name == old(self).theme_name,
                self.ui == old(self).ui,
                self.theme_selection_mode == old(self).theme_selection_mode,
                self.available_themes == old(self).available_themes,
                self.theme_selection_index == old(self).theme_selection_index,
            decreases self.command_log.len(),
        {
            let ghost before = self.command_log@;
            self.command_log.remove(0);
            proof {
                assert(log_views(before.remove(0)) =~= log_views(before).skip(1));
            }
        }
    }

    /// Adds `line` to the output of the last log entry.
    pub fn append_to_last_log(&mut self, line: String)
        ensures
            final(self)@ == old(self)@.append_to_last_log(line@),
            old(self).wf() ==> final(self).wf(),
    {
        let ghost logs = log_views(self.command_log@);
        match self.command_log.pop() {
            Some(last) => {
                let mut last = last;
                if last.output.as_str().unicode_len() > 0 {
                    last.output.push('\n');
                }
                last.output.append(line.as_str());
                proof {
                    assert(log_views(self.command_log@.push(last)) =~= with_last(logs, last@));
                }
                self.command_log.push(last);
                self.needs_redraw = true;
            },
            None => {},
        }
    }

    /// Marks the last log entry as no longer running.
    pub fn finish_last_log(&mut self)
        ensures
            final(self)@ == old(self)@.finish_last_log(),
            old(self).wf() ==> final(self).wf(),
    {
        let ghost logs = log_views(self.command_log@);
        match self.command_log.pop() {
            Some(last) => {
                let mut last = last;
                last.is_running = false;
                proof {
                    assert(log_views(self.command_log@.push(last)) =~= with_last(logs, last@));
                }
                self.command_log.push(last);
                self.needs_redraw = true;
            },
            None => {},
        }
    }

    /// Keeps the time `now_ms` as the start of the command that is about to
    /// run.
    pub fn mark_last_log_started(&mut self, now_ms: u128)
        ensures
            final(self)@ == old(self)@.mark_last_log_started(now_ms),
            old(self).wf() ==> final(self).wf(),
    {
        self.last_start_ms = Some(now_ms);
    }

    /// Marks the last log entry as ended with `exit_code` at the time
    /// `now_ms`.
    pub fn finish_last_log_with_result(&mut self, exit_code: Option<i32>, now_ms: u128)
        ensures
            final(self)@ == old(self)@.finish_last_log_with_result(exit_code, now_ms),
            old(self).wf() ==> final(self).wf(),
    {
        let ghost logs = log_views(self.command_log@);
        match self.command_log.pop() {
            Some(last) => {
                let mut last = last;
                last.is_running = false;
                last.exit_code = exit_code;
                match self.last_start_ms {
                    Some(start) => {
                        last.duration_ms = Some(
                            if now_ms >= start {
                                now_ms - start
                            } else {
                                0
                            },
                        );
                    },
                    None => {},
                }
                self.last_start_ms = None;
                proof {
                    assert(log_views(self.command_log@.push(last)) =~= with_last(logs, last@));
                }
                self.command_log.push(last);
                self.needs_redraw = true;
            },
            None => {},
        }
    }

    /// Takes in the updates of the running command that have arrived, in
    /// their order, at the time `now_ms`.
    pub fn process_command_updates(&mut self, updates: &[CommandUpdate], now_ms: u128)
        ensures
            final(self)@ == old(self)@.apply_updates(update_views(updates@), now_ms),
            old(self).wf() ==> final(self).wf(),
    {
        let ghost all = update_views(updates@);
        let mut i: usize = 0;
        while i < updates.len()
            invariant
                i <= updates.len(),
                all == update_views(updates@),
                self@ == old(self)@.apply_updates(all.take(i as int), now_ms),
                old(self).wf() ==> self.wf(),
            decreases updates.len() - i,
        {
            proof {
                assert(all.take(i + 1).drop_last() =~= all.take(i as int));
            }
            match &updates[i] {
                CommandUpdate::NewLine(line) => self.append_to_last_log(line.clone()),
                CommandUpdate::Finished(code) => self.finish_last_log_with_result(*code, now_ms),
            }
            self.needs_redraw = true;
            i += 1;
        }
        proof {
            assert(all.take(updates.len() as int) =~= all);
        }
    }
}

/// The view of optional theme texts.
pub open spec fn texts_view(texts: Option<&ThemeTexts>) -> Option<ThemeTextsView> {
    match texts {
        Some(t) => Some(t@),
        None => None,
    }
}

/// The list of strings that the JSON document `text` holds, if it holds one.
pub uninterp spec fn json_strings(text: Seq<char>) -> Option<Seq<Seq<char>>>;

/// The JSON document for the list of strings `list`.
pub uninterp spec fn strings_json(list: Seq<Seq<char>>) -> Option<Seq<char>>;

/// `serde_json::from_str` reads a JSON document; here one that is a list of
/// strings. The same text always gives the same list, or fails.
#[verifier::external_body]
fn parse_string_list(text: &str) -> (list: Option<Vec<String>>)
    ensures
        match list {
            Some(l) => json_strings(text@) == Some(string_views(l@)),
            None => json_strings(text@) is None,
        },
{
    match serde_json::from_str::<Vec<String>>(text) {
        Ok(list) => Some(list),
        Err(_) => None,
    }
}

/// `serde_json::to_string_pretty` writes a value as an indented JSON
/// document; here a list of strings. The same list always gives the same
/// text.
#[verifier::external_body]
fn print_string_list(list: &Vec<String>) -> (text: Option<String>)
    ensures
        option_view(text) == strings_json(string_views(list@)),
{
    match serde_json::to_string_pretty(list) {
        Ok(text) => Some(text),
        Err(_) => None,
    }
}

impl State {
    /// Replaces the history by what a history file holds: the list of
    /// strings in `list`, or nothing if the file held no such list.
    pub fn set_history(&mut self, list: Option<Vec<String>>)
        ensures
            final(self)@ == (StateView {
                history: match list {
                    Some(l) => string_views(l@),
                    None => Seq::empty(),
                },
                ..old(self)@
            }),
    {
        match list {
            Some(l) => {
                self.history = l;
            },
            None => {
                self.history = Vec::new();
                assert(string_views(self.history@) =~= Seq::empty());
            },
        }
    }

    /// Replaces the history by the one that the text of a history file
    /// holds, and by nothing if the text is no JSON list of strings.
    pub fn load_history(&mut self, text: &str)
        ensures
            final(self)@ == (StateView {
                history: match json_strings(text@) {
                    Some(l) => l,
                    None => Seq::empty(),
                },
                ..old(self)@
            }),
    {
        let list = parse_string_list(text);
        self.set_history(list);
    }

    /// The text of the history file for the history as it is.
    pub fn save_history(&self) -> (text: Option<String>)
        ensures
            option_view(text) == strings_json(self@.history),
    {
        print_string_list(&self.history)
    }

    /// Takes the theme of the name `theme_name` from what its file holds.
    /// Returns whether there was a file to take it from.
    pub fn load_theme_from_file(&mut self, theme_name: &str, texts: Option<&ThemeTexts>) -> (loaded:
        bool)
        ensures
            final(self)@ == old(self)@.load_theme_from_file(theme_name@, texts_view(texts)),
            loaded == texts is Some,
            old(self).wf() ==> final(self).wf(),
    {
        match texts {
            Some(t) => {
                self.theme = Theme::from_texts(t, Theme::default());
                self.theme_name = theme_name.to_owned();
                true
            },
            None => false,
        }
    }

    /// Opens the choice of a theme on the names `names`.
    pub fn enter_theme_selection_mode(&mut self, names: Vec<String>)
        ensures
            final(self)@ == old(self)@.enter_theme_selection_mode(string_views(names@)),
            old(self).wf() ==> final(self).wf(),
    {
        self.theme_selection_mode = true;
        self.available_themes = names;
        self.theme_selection_index = 0;
        self.needs_redraw = true;
    }

    /// Closes the choice of a theme.
    pub fn exit_theme_selection_mode(&mut self)
        ensures
            final(self)@ == old(self)@.exit_theme_selection_mode(),
            old(self).wf() ==> final(self).wf(),
    {
        self.theme_selection_mode = false;
        self.available_themes.clear();
        self.theme_selection_index = 0;
        self.needs_redraw = true;
        assert(string_views(self.available_themes@) =~= Seq::empty());
    }

    /// The name of the selected theme, while one is being chosen.
    pub fn selected_theme(&self) -> (name: Option<String>)
        ensures
            option_view(name) == self@.selected_theme(),
    {
        if self.theme_selection_mode && self.available_themes.len() > 0
            && self.theme_selection_index < self.available_themes.len() {
            Some(self.available_themes[self.theme_selection_index].clone())
        } else {
            None
        }
    }

    /// Selects the theme before the selected one. Returns the name of the
    /// theme that is selected then, which is to be shown.
    pub fn select_theme_up(&mut self) -> (preview: Option<String>)
        ensures
            final(self)@ == old(self)@.select_theme_up(),
            option_view(preview) == final(self)@.selected_theme(),
            old(self).wf() ==> final(self).wf(),
    {
        if self.theme_selection_mode && self.available_themes.len() > 0 {
            if self.theme_selection_index > 0 {
                self.theme_selection_index = self.theme_selection_index - 1;
            }
            self.needs_redraw = true;
        }
        self.selected_theme()
    }

    /// Selects the theme after the selected one. Returns the name of the
    /// theme that is selected then, which is to be shown.
    pub fn select_theme_down(&mut self) -> (preview: Option<String>)
        ensures
            final(self)@ == old(self)@.select_theme_down(),
            option_view(preview) == final(self)@.selected_theme(),
            old(self).wf() ==> final(self).wf(),
    {
        let n = self.available_themes.len();
        if self.theme_selection_mode && n > 0 {
            self.theme_selection_index = ring_next(self.theme_selection_index, n);
            self.needs_redraw = true;
        }
        self.selected_theme()
    }

    /// Shows the selected theme from what its file holds.
    pub fn preview_selected_theme(&mut self, texts: Option<&ThemeTexts>)
        ensures
            final(self)@ == old(self)@.preview_selected_theme(texts_view(texts)),
            old(self).wf() ==> final(self).wf(),
    {
        if self.theme_selection_mode && self.available_themes.len() > 0
            && self.theme_selection_index < self.available_themes.len() {
            match texts {
                Some(t) => {
                    self.theme = Theme::from_texts(t, Theme::default());
                },
                None => {},
            }
        }
    }

    /// Takes the selected theme from what its file holds and closes the
    /// choice. Returns whether the theme was taken: the session is then to
    /// be saved.
    pub fn confirm_theme_selection(&mut self, texts: Option<&ThemeTexts>) -> (taken: bool)
        ensures
            final(self)@ == old(self)@.confirm_theme_selection(texts_view(texts)),
            taken == (old(self)@.selected_theme() is Some && texts is Some),
            old(self).wf() ==> final(self).wf(),
    {
        match self.selected_theme() {
            Some(name) => {
                if self.load_theme_from_file(name.as_str(), texts) {
                    self.exit_theme_selection_mode();
                    true
                } else {
                    false
                }
            },
            None => false,
        }
    }

    /// Takes over the directory and the theme of the last session. `is_dir`
    /// tells whether the directory of the session is still there.
    pub fn load_session(&mut self, session: Session, is_dir: bool)
        ensures
            final(self)@ == old(self)@.load_session(session@, is_dir),
            old(self).wf() ==> final(self).wf(),
    {
        if is_dir {
            self.cwd = session.last_cwd;
        }
        match session.last_theme_name {
            Some(name) => {
                self.theme = Theme::from_name(name.as_str());
                self.theme_name = name;
            },
            None => {},
        }
    }

    /// What is kept of the state for the next session: the directory and
    /// the name of the theme.
    pub fn save_session(&self) -> (session: Session)
        ensures
            session@ == self@.save_session(),
    {
        Session { last_cwd: self.cwd.clone(), last_theme_name: Some(self.theme_name.clone()) }
    }
}

} // verus!
