//! What keys and the mouse do to the shell.

use crate::app::App;
use crate::command::Error;
use crate::state::{State, StateView};
use crate::text::{byte_count, byte_len};
use vstd::prelude::*;

verus! {

/// A key, as far as the shell tells keys apart.
#[derive(Clone, Copy, Debug, PartialEq, Eq, Structural)]
pub enum KeyCode {
    Char(char),
    Backspace,
    Left,
    Right,
    Up,
    Down,
    Enter,
    Tab,
    BackTab,
    Esc,
    PageUp,
    PageDown,
    Other,
}

/// A key that was pressed, and whether the control key was held with it.
#[derive(Clone, Copy, Debug, PartialEq, Eq, Structural)]
pub struct KeyEvent {
    pub code: KeyCode,
    pub ctrl: bool,
}

/// What the mouse did, as far as the shell tells it apart.
#[derive(Clone, Copy, Debug, PartialEq, Eq, Structural)]
pub enum MouseEventKind {
    ScrollUp,
    ScrollDown,
    Other,
}

/// What the terminal reports.
#[derive(Clone, Copy, Debug, PartialEq, Eq, Structural)]
pub enum Event {
    Key(KeyEvent),
    Mouse(MouseEventKind),
    Other,
}

/// What the caller has to do after an event.
#[derive(Clone, Copy, Debug, PartialEq, Eq, Structural)]
pub enum Request {
    /// Nothing.
    Nothing,
    /// Submit the input line.
    Submit,
    /// Read what the input line asks to complete, and open the menu.
    Complete,
}

/// How far a page key scrolls the log.
pub const PAGE: usize = 5;

impl StateView {
    /// The log scrolled back by `by` entries, at most to its first entry.
    pub open spec fn scrolled_up(self, by: int) -> StateView {
        StateView {
            scroll_offset: if self.scroll_offset + by <= self.command_log.len() {
                (self.scroll_offset + by) as usize
            } else {
                self.command_log.len() as usize
            },
            ..self
        }
    }

    /// The log scrolled forward by `by` entries, at most to its end.
    pub open spec fn scrolled_down(self, by: int) -> StateView {
        StateView {
            scroll_offset: if self.scroll_offset >= by {
                (self.scroll_offset - by) as usize
            } else {
                0
            },
            ..self
        }
    }

    /// The input line replaced by the entry `index` of the history, with
    /// the cursor at its end: as many bytes in as the entry has.
    pub open spec fn recalled(self, index: usize) -> StateView {
        StateView {
            history_index: Some(index),
            input_buffer: self.history[index as int],
            cursor_position: byte_len(self.history[index as int]) as usize,
            ..self
        }
    }

    /// One step back in the history: to its last entry from the input line,
    /// and to the entry before from an entry; the first entry stays. Nothing
    /// changes while an earlier log entry is previewed or the history is
    /// empty.
    pub open spec fn history_up(self) -> StateView {
        if self.scroll_offset > 0 || self.history.len() == 0 {
            self
        } else {
            match self.history_index {
                Some(i) => self.recalled(
                    if i > 0 {
                        (i - 1) as usize
                    } else {
                        0
                    },
                ),
                None => self.recalled((self.history.len() - 1) as usize),
            }
        }
    }

    /// One step forward in the history: to the entry after, and from the
    /// last entry to an empty input line. Nothing changes while an earlier
    /// log entry is previewed or the history is empty.
    pub open spec fn history_down(self) -> StateView {
        if self.scroll_offset > 0 || self.history.len() == 0 {
            self
        } else {
            match self.history_index {
                Some(i) => if i + 1 < self.history.len() {
                    self.recalled((i + 1) as usize)
                } else {
                    self.history_left()
                },
                None => self.history_left(),
            }
        }
    }

    /// An empty input line that stands for no entry of the history.
    pub open spec fn history_left(self) -> StateView {
        StateView { history_index: None, input_buffer: Seq::empty(), cursor_position: 0, ..self }
    }

    /// A step back in the history finds an entry to recall: the place in
    /// the history is at most one past the last entry.
    pub open spec fn can_step_back(self) -> bool {
        self.scroll_offset == 0 && self.history.len() > 0 ==> (self.history_index matches Some(i)
            ==> i <= self.history.len())
    }

    /// The key `code` can be taken while the completion menu is closed: a
    /// character can go in at the cursor, Backspace finds a character to
    /// take out, and Up finds an entry of the history.
    pub open spec fn admits_key(self, code: KeyCode) -> bool {
        match code {
            KeyCode::Char(_) => self.can_insert(),
            KeyCode::Backspace => self.can_backspace(),
            KeyCode::Up => self.can_step_back(),
            _ => true,
        }
    }

    /// The event can be taken. Only a key that changes the input line or
    /// steps back in the history asks anything of the state, and only where
    /// the completion menu does not take the key itself.
    pub open spec fn admits(self, event: Event) -> bool {
        match event {
            Event::Key(key) => if Self::is_interrupt(key) {
                true
            } else if self.completion.active {
                match key.code {
                    KeyCode::Tab | KeyCode::Down | KeyCode::BackTab | KeyCode::Up | KeyCode::Enter
                    | KeyCode::Esc => true,
                    code => self.admits_key(code),
                }
            } else {
                self.admits_key(key.code)
            },
            _ => true,
        }
    }

    /// What a key does while the completion menu is closed.
    pub open spec fn normal_key(self, code: KeyCode) -> (StateView, Request) {
        match code {
            KeyCode::Char(c) => (self.insert_char(c), Request::Nothing),
            KeyCode::Backspace => (self.backspace(), Request::Nothing),
            KeyCode::Left => (self.move_cursor_left(), Request::Nothing),
            KeyCode::Right => (self.move_cursor_right(), Request::Nothing),
            KeyCode::Up => (self.history_up(), Request::Nothing),
            KeyCode::Down => (self.history_down(), Request::Nothing),
            KeyCode::Enter => (self, Request::Submit),
            KeyCode::Tab => (self, Request::Complete),
            KeyCode::PageUp => (self.scrolled_up(PAGE as int), Request::Nothing),
            KeyCode::PageDown => (self.scrolled_down(PAGE as int), Request::Nothing),
            _ => (self, Request::Nothing),
        }
    }

    /// The completion menu closed.
    pub open spec fn completion_stopped(self) -> StateView {
        StateView { completion: self.completion.stop(), ..self }
    }

    /// What a key does while the completion menu is open. Tab and the arrows
    /// move the selection, Enter puts the selected suggestion into the line
    /// and closes the menu, Escape closes it, and any other key closes it and
    /// then does what it does without the menu.
    pub open spec fn completion_key(self, code: KeyCode) -> (StateView, Request) {
        match code {
            KeyCode::Tab | KeyCode::Down => (
                StateView { completion: self.completion.next(), ..self },
                Request::Nothing,
            ),
            KeyCode::BackTab | KeyCode::Up => (
                StateView { completion: self.completion.previous(), ..self },
                Request::Nothing,
            ),
            KeyCode::Enter => (
                match self.completion.apply(self.input_buffer) {
                    Some((text, cursor)) => StateView {
                        input_buffer: text,
                        cursor_position: cursor,
                        ..self
                    },
                    None => self,
                }.completion_stopped(),
                Request::Nothing,
            ),
            KeyCode::Esc => (self.completion_stopped(), Request::Nothing),
            _ => self.completion_stopped().normal_key(code),
        }
    }

    /// What a key does that is not Control-C. A character and Backspace
    /// first scroll the log to its end.
    pub open spec fn key_pressed(self, code: KeyCode) -> (StateView, Request) {
        let s = match code {
            KeyCode::Char(_) | KeyCode::Backspace => self.exit_preview_mode(),
            _ => self,
        };
        if s.completion.active {
            s.completion_key(code)
        } else {
            s.normal_key(code)
        }
    }

    /// What the mouse does: its wheel scrolls the log by one entry.
    pub open spec fn mouse_moved(self, kind: MouseEventKind) -> StateView {
        match kind {
            MouseEventKind::ScrollUp => self.scrolled_up(1),
            MouseEventKind::ScrollDown => self.scrolled_down(1),
            MouseEventKind::Other => self,
        }
    }

    /// The key is Control-C.
    pub open spec fn is_interrupt(key: KeyEvent) -> bool {
        key.code == KeyCode::Char('c') && key.ctrl
    }

    /// Whether `event` cancels the running command: Control-C while the
    /// completion menu is closed.
    pub open spec fn cancels(self, event: Event) -> bool {
        event matches Event::Key(key) && Self::is_interrupt(key) && !self.completion.active
    }

    /// The state after `event`, and what the caller has to do. Every event
    /// asks for the screen to be drawn again. Control-C closes the
    /// completion menu if it is open, and cancels the running command if it
    /// is not, which the log notes.
    pub open spec fn handled(self, event: Event) -> (StateView, Request) {
        let s = StateView { needs_redraw: true, ..self };
        match event {
            Event::Key(key) => if Self::is_interrupt(key) {
                if s.completion.active {
                    (s.completion_stopped(), Request::Nothing)
                } else {
                    (s.append_to_last_log("[Process killed by user]"@), Request::Nothing)
                }
            } else {
                s.key_pressed(key.code)
            },
            Event::Mouse(kind) => (s.mouse_moved(kind), Request::Nothing),
            Event::Other => (s, Request::Nothing),
        }
    }
}

/// Turns what the terminal reports into changes of the shell.
#[derive(Clone, Copy, Debug)]
pub struct EventHandler;

impl EventHandler {
    /// Whether `event` can be taken in this state.
    pub fn admits(&self, event: Event, state: &State) -> (b: bool)
        ensures
            b == state@.admits(event),
    {
        match event {
            Event::Key(key) => {
                let interrupt = match key.code {
                    KeyCode::Char(c) => c == 'c' && key.ctrl,
                    _ => false,
                };
                if interrupt {
                    true
                } else if state.completion_state.active {
                    match key.code {
                        KeyCode::Tab | KeyCode::Down | KeyCode::BackTab | KeyCode::Up
                        | KeyCode::Enter | KeyCode::Esc => true,
                        code => self.admits_key(code, state),
                    }
                } else {
                    self.admits_key(key.code, state)
                }
            },
            _ => true,
        }
    }

    fn admits_key(&self, code: KeyCode, state: &State) -> (b: bool)
        ensures
            b == state@.admits_key(code),
    {
        let line = state.input_buffer.as_str();
        let cursor = state.cursor_position;
        match code {
            KeyCode::Char(_) => line.is_char_boundary(cursor),
            KeyCode::Backspace => cursor == 0 || (cursor - 1 < byte_count(line)
                && line.is_char_boundary(cursor - 1)),
            KeyCode::Up => {
                if state.scroll_offset == 0 && state.history.len() > 0 {
                    match state.history_index {
                        Some(i) => i <= state.history.len(),
                        None => true,
                    }
                } else {
                    true
                }
            },
            _ => true,
        }
    }

    /// Takes one event of the terminal.
    pub fn handle_event(&self, event: Event, app: &mut App) -> (r: Result<Request, Error>)
        requires
            old(app).state@.admits(event),
        ensures
            r == Ok::<Request, Error>(old(app).state@.handled(event).1),
            final(app).state@ == old(app).state@.handled(event).0,
            old(app).state.wf() ==> final(app).state.wf(),
            ({
                let cancels = old(app).state@.cancels(event);
                let manager = final(app).command_manager;
                &&& cancels ==> !manager.is_cancellable()
                &&& !cancels ==> manager == old(app).command_manager
            }),
    {
        app.state.needs_redraw = true;
        match event {
            Event::Key(key) => self.handle_key_press(key, app),
            Event::Mouse(kind) => {
                self.handle_mouse_event(kind, app);
                Ok(Request::Nothing)
            },
            Event::Other => Ok(Request::Nothing),
        }
    }

    fn handle_key_press(&self, key: KeyEvent, app: &mut App) -> (r: Result<Request, Error>)
        requires
            old(app).state@.admits(Event::Key(key)),
        ensures
            r is Ok,
            old(app).state.wf() ==> final(app).state.wf(),
            ({
                let before = old(app).state@;
                let after = final(app).state@;
                if StateView::is_interrupt(key) {
                    &&& r->Ok_0 == Request::Nothing
                    &&& before.completion.active ==> after == before.completion_stopped()
                    &&& !before.completion.active ==> after == before.append_to_last_log(
                        "[Process killed by user]"@,
                    )
                } else {
                    (after, r->Ok_0) == before.key_pressed(key.code)
                }
            }),
            ({
                let cancels = StateView::is_interrupt(key) && !old(app).state@.completion.active;
                let manager = final(app).command_manager;
                &&& cancels ==> !manager.is_cancellable()
                &&& !cancels ==> manager == old(app).command_manager
            }),
    {
        let interrupt = match key.code {
            KeyCode::Char(c) => c == 'c' && key.ctrl,
            _ => false,
        };
        if interrupt {
            if app.state.completion_state.active {
                app.state.completion_state.stop_completion();
                return Ok(Request::Nothing);
            } else {
                return match app.kill_command() {
                    Ok(()) => Ok(Request::Nothing),
                    Err(e) => Err(e),
                };
            }
        }
        match key.code {
            KeyCode::Char(_) => app.state.exit_preview_mode(),
            KeyCode::Backspace => app.state.exit_preview_mode(),
            _ => {},
        }
        if app.state.completion_state.active {
            Ok(self.handle_completion_mode_key(key.code, &mut app.state))
        } else {
            Ok(self.handle_normal_mode_key(key.code, &mut app.state))
        }
    }

    fn handle_completion_mode_key(&self, code: KeyCode, state: &mut State) -> (request: Request)
        requires
            match code {
                KeyCode::Tab | KeyCode::Down | KeyCode::BackTab | KeyCode::Up | KeyCode::Enter
                | KeyCode::Esc => true,
                other => old(state)@.admits_key(other),
            },
        ensures
            (final(state)@, request) == old(state)@.completion_key(code),
            old(state).wf() ==> final(state).wf(),
    {
        match code {
            KeyCode::Tab | KeyCode::Down => {
                state.completion_state.next_suggestion();
                Request::Nothing
            },
            KeyCode::BackTab | KeyCode::Up => {
                state.completion_state.previous_suggestion();
                Request::Nothing
            },
            KeyCode::Enter => {
                match state.completion_state.apply_completion(state.input_buffer.as_str()) {
                    Some((text, cursor)) => {
                        state.input_buffer = text;
                        state.cursor_position = cursor;
                    },
                    None => {},
                }
                state.completion_state.stop_completion();
                Request::Nothing
            },
            KeyCode::Esc => {
                state.completion_state.stop_completion();
                Request::Nothing
            },
            _ => {
                state.completion_state.stop_completion();
                self.handle_normal_mode_key(code, state)
            },
        }
    }

    fn handle_normal_mode_key(&self, code: KeyCode, state: &mut State) -> (request: Request)
        requires
            old(state)@.admits_key(code),
        ensures
            (final(state)@, request) == old(state)@.normal_key(code),
            old(state).wf() ==> final(state).wf(),
    {
        match code {
            KeyCode::Char(c) => {
                state.insert_char(c);
                Request::Nothing
            },
            KeyCode::Backspace => {
                state.backspace();
                Request::Nothing
            },
            KeyCode::Left => {
                state.move_cursor_left();
                Request::Nothing
            },
            KeyCode::Right => {
                state.move_cursor_right();
                Request::Nothing
            },
            KeyCode::Up => {
                self.navigate_history_up(state);
                Request::Nothing
            },
            KeyCode::Down => {
                self.navigate_history_down(state);
                Request::Nothing
            },
            KeyCode::Enter => Request::Submit,
            KeyCode::Tab => Request::Complete,
            KeyCode::PageUp => {
                self.scroll_up(state, PAGE);
                Request::Nothing
            },
            KeyCode::PageDown => {
                self.scroll_down(state, PAGE);
                Request::Nothing
            },
            _ => Request::Nothing,
        }
    }

    fn handle_mouse_event(&self, kind: MouseEventKind, app: &mut App)
        ensures
            final(app).state@ == old(app).state@.mouse_moved(kind),
            final(app).command_manager == old(app).command_manager,
            old(app).state.wf() ==> final(app).state.wf(),
    {
        match kind {
            MouseEventKind::ScrollUp => self.scroll_up(&mut app.state, 1),
            MouseEventKind::ScrollDown => self.scroll_down(&mut app.state, 1),
            MouseEventKind::Other => {},
        }
    }

    fn scroll_up(&self, state: &mut State, by: usize)
        ensures
            final(state)@ == old(state)@.scrolled_up(by as int),
            old(state).wf() ==> final(state).wf(),
    {
        let max = state.command_log.len();
        let offset = state.scroll_offset;
        state.scroll_offset = if offset >= max {
            max
        } else if max - offset <= by {
            max
        } else {
            offset + by
        };
    }

    fn scroll_down(&self, state: &mut State, by: usize)
        ensures
            final(state)@ == old(state)@.scrolled_down(by as int),
            old(state).wf() ==> final(state).wf(),
    {
        state.scroll_offset = if state.scroll_offset >= by {
            state.scroll_offset - by
        } else {
            0
        };
    }

    fn recall(&self, state: &mut State, index: usize)
        requires
            index < old(state).history.len(),
        ensures
            final(state)@ == old(state)@.recalled(index),
            final(state).wf(),
    {
        let line = state.history[index].clone();
        state.history_index = Some(index);
        state.cursor_position = byte_count(line.as_str());
        state.input_buffer = line;
    }

    /// Recalls the entry of the history before the one that is shown.
    pub fn navigate_history_up(&self, state: &mut State)
        requires
            old(state)@.can_step_back(),
        ensures
            final(state)@ == old(state)@.history_up(),
            old(state).wf() ==> final(state).wf(),
    {
        if state.scroll_offset > 0 || state.history.len() == 0 {
            return ;
        }
        let index = match state.history_index {
            Some(i) => if i > 0 {
                i - 1
            } else {
                0
            },
            None => state.history.len() - 1,
        };
        self.recall(state, index);
    }

    /// Recalls the entry of the history after the one that is shown.
    pub fn navigate_history_down(&self, state: &mut State)
        ensures
            final(state)@ == old(state)@.history_down(),
            old(state).wf() ==> final(state).wf(),
    {
        if state.scroll_offset > 0 || state.history.len() == 0 {
            return ;
        }
        match state.history_index {
            Some(i) => {
                if i < state.history.len() - 1 {
                    self.recall(state, i + 1);
                    return ;
                }
            },
            None => {},
        }
        state.history_index = None;
        state.input_buffer = String::new();
        state.cursor_position = 0;
    }
}

} // verus!
