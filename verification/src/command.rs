//! The values that flow between a running command and its consumer.

use crate::stream::{DrainerView, StreamDrainer, StreamOrigin};
use crate::supervisor::{
    emitted, lemma_exactly_one_finished, outcome, supervise_all, Supervisor, SupervisorEvent,
    SupervisorState,
};
use tokio::sync::oneshot::Sender;
use vstd::prelude::*;
use vstd::string::StringExecFns;

verus! {

/// One event in the ordered update feed of a command.
#[derive(Debug, Clone, PartialEq, Eq)]
pub enum CommandUpdate {
    /// One line of output, without its line terminator. Lines read from the
    /// standard-error stream carry the marker `[stderr] ` in front.
    NewLine(String),
    /// The terminal event: the exit code of a command that ended on its own,
    /// or nothing for a command that was cancelled or whose code is unknown.
    Finished(Option<i32>),
}

/// What a [`CommandUpdate`] is, with its text as a sequence of characters.
pub enum UpdateView {
    NewLine(Seq<char>),
    Finished(Option<i32>),
}

impl View for CommandUpdate {
    type V = UpdateView;

    open spec fn view(&self) -> UpdateView {
        match self {
            CommandUpdate::NewLine(text) => UpdateView::NewLine(text@),
            CommandUpdate::Finished(code) => UpdateView::Finished(*code),
        }
    }
}

/// The views of a sequence of updates, in order.
pub open spec fn update_views(updates: Seq<CommandUpdate>) -> Seq<UpdateView> {
    updates.map_values(|u: CommandUpdate| u@)
}

/// One entry of the scrollable log: a command and what it printed so far.
#[derive(Clone, Debug)]
pub struct CommandLog {
    pub command: String,
    pub output: String,
    pub is_running: bool,
    pub cwd: String,
    pub exit_code: Option<i32>,
    pub duration_ms: Option<u128>,
}

/// What a [`CommandLog`] holds, with its texts as sequences of characters.
pub struct CommandLogView {
    pub command: Seq<char>,
    pub output: Seq<char>,
    pub is_running: bool,
    pub cwd: Seq<char>,
    pub exit_code: Option<i32>,
    pub duration_ms: Option<u128>,
}

impl View for CommandLog {
    type V = CommandLogView;

    open spec fn view(&self) -> CommandLogView {
        CommandLogView {
            command: self.command@,
            output: self.output@,
            is_running: self.is_running,
            cwd: self.cwd@,
            exit_code: self.exit_code,
            duration_ms: self.duration_ms,
        }
    }
}

/// The views of a sequence of log entries, in order.
pub open spec fn log_views(logs: Seq<CommandLog>) -> Seq<CommandLogView> {
    logs.map_values(|l: CommandLog| l@)
}

impl CommandLog {
    /// A log entry with no exit code and no duration yet.
    pub fn new(command: String, output: String, is_running: bool, cwd: String) -> (log: Self)
        ensures
            log@ == (CommandLogView {
                command: command@,
                output: output@,
                is_running,
                cwd: cwd@,
                exit_code: None,
                duration_ms: None,
            }),
    {
        Self { command, output, is_running, cwd, exit_code: None, duration_ms: None }
    }
}

/// One request to run a program: its name, its arguments in order, and the
/// directory to run it in.
#[derive(Clone, Debug, PartialEq, Eq)]
pub struct CommandRequest {
    pub program: String,
    pub args: Vec<String>,
    pub cwd: String,
}

/// What a standard stream of a program is connected to.
#[derive(Clone, Copy, Debug, PartialEq, Eq, Structural)]
pub enum StdioMode {
    /// Nothing: the stream is closed or empty.
    Null,
    /// A pipe whose other end the shell holds.
    Piped,
}

/// How a program is to be started.
#[derive(Clone, Debug, PartialEq, Eq)]
pub struct LaunchPlan {
    pub program: String,
    pub args: Vec<String>,
    pub cwd: String,
    pub stdin: StdioMode,
    pub stdout: StdioMode,
    pub stderr: StdioMode,
    /// Whether the process is ended when its handle is dropped.
    pub kill_on_drop: bool,
}

impl CommandRequest {
    /// How the program of this request is to be started: with its arguments
    /// in its directory, with nothing to read, with both output streams
    /// captured, and so that it does not outlive its handle.
    pub fn launch_plan(self) -> (plan: LaunchPlan)
        ensures
            plan.program == self.program,
            plan.args == self.args,
            plan.cwd == self.cwd,
            plan.stdin == StdioMode::Null,
            plan.stdout == StdioMode::Piped,
            plan.stderr == StdioMode::Piped,
            plan.kill_on_drop,
    {
        LaunchPlan {
            program: self.program,
            args: self.args,
            cwd: self.cwd,
            stdin: StdioMode::Null,
            stdout: StdioMode::Piped,
            stderr: StdioMode::Piped,
            kill_on_drop: true,
        }
    }
}

/// Why a program that was asked for does not run.
#[derive(Clone, Debug, PartialEq, Eq)]
pub enum LaunchFailure {
    /// The system did not start it, and said this about it.
    Refused(String),
    /// It was started, but this output stream of it could not be captured.
    Uncaptured(StreamOrigin),
}

impl LaunchFailure {
    /// What is wrong, said of the program `program`.
    pub open spec fn reason(&self, program: Seq<char>) -> Seq<char> {
        match self {
            LaunchFailure::Refused(said) => said@,
            LaunchFailure::Uncaptured(origin) => SpawnError::uncaptured_reason(program, *origin),
        }
    }
}

/// The system could not start a program.
#[derive(Clone, Debug, PartialEq, Eq)]
pub struct SpawnError {
    /// The program that was asked for.
    pub program: String,
    /// What the system said.
    pub reason: String,
}

impl SpawnError {
    /// The text to show for this error: the program, a colon and a space,
    /// and the reason.
    pub open spec fn spec_message(&self) -> Seq<char> {
        self.program@ + ": "@ + self.reason@
    }

    /// What is wrong when the process runs but the output stream `origin`
    /// could not be captured.
    pub open spec fn uncaptured_reason(program: Seq<char>, origin: StreamOrigin) -> Seq<char> {
        match origin {
            StreamOrigin::Stdout => "Failed to capture stdout for command: "@ + program,
            StreamOrigin::Stderr => "Failed to capture stderr for command: "@ + program,
        }
    }

    /// The error for a process whose output stream `origin` could not be
    /// captured.
    pub fn uncaptured(program: &str, origin: StreamOrigin) -> (e: SpawnError)
        ensures
            e.program@ == program@,
            e.reason@ == Self::uncaptured_reason(program@, origin),
    {
        let mut reason = match origin {
            StreamOrigin::Stdout => "Failed to capture stdout for command: ".to_owned(),
            StreamOrigin::Stderr => "Failed to capture stderr for command: ".to_owned(),
        };
        reason.append(program);
        SpawnError { program: program.to_owned(), reason }
    }

    /// The error for the program `program` that does not run because of
    /// `failure`: it names the program and says what is wrong.
    pub fn for_program(program: &str, failure: LaunchFailure) -> (e: SpawnError)
        ensures
            e.program@ == program@,
            e.reason@ == failure.reason(program@),
    {
        match failure {
            LaunchFailure::Refused(reason) => SpawnError { program: program.to_owned(), reason },
            LaunchFailure::Uncaptured(origin) => SpawnError::uncaptured(program, origin),
        }
    }

    /// The text to show for this error.
    pub fn message(&self) -> (text: String)
        ensures
            text@ == self.spec_message(),
    {
        let mut text = self.program.clone();
        text.append(": ");
        text.append(self.reason.as_str());
        text
    }
}

/// What can go wrong in the command subsystem.
#[derive(Clone, Debug, PartialEq, Eq)]
pub enum Error {
    /// A program could not be started.
    Spawn(SpawnError),
}

/// The sending half of a one-shot channel of tokio, by which a command is
/// told to stop.
#[verifier::external_type_specification]
#[verifier::external_body]
#[verifier::reject_recursive_types(T)]
pub struct ExSender<T>(Sender<T>);

/// `tokio::sync::oneshot::Sender::send` hands the value to the receiving
/// half and uses the sender up. Whether it arrives depends on the receiving
/// half still being there, so nothing is said of the result.
pub assume_specification<T>[ Sender::<T>::send ](sender: Sender<T>, t: T) -> (r: Result<(), T>)
;

/// The three concurrent units of one command that was launched: a drainer
/// for each output stream and the supervisor, each in its first state.
#[derive(Debug)]
pub struct RunningCommand {
    pub stdout: StreamDrainer,
    pub stderr: StreamDrainer,
    pub supervisor: Supervisor,
}

impl RunningCommand {
    /// Nothing has been read and nothing has been decided yet.
    pub open spec fn is_fresh(&self) -> bool {
        &&& self.stdout.wf()
        &&& self.stderr.wf()
        &&& self.stdout@ == DrainerView::start(StreamOrigin::Stdout)
        &&& self.stderr@ == DrainerView::start(StreamOrigin::Stderr)
        &&& self.supervisor.state() == SupervisorState::Awaiting
    }
}

/// Runs one command at a time and holds the single handle by which the
/// current command can be cancelled.
pub struct CommandManager {
    kill_sender: Option<Sender<()>>,
}

impl CommandManager {
    /// The cancellation handle that is stored, if any.
    pub closed spec fn slot(&self) -> Option<Sender<()>> {
        self.kill_sender
    }

    /// Whether a command can be cancelled now.
    pub open spec fn is_cancellable(&self) -> bool {
        self.slot() is Some
    }

    /// A manager with no command to cancel.
    pub fn new() -> (m: Self)
        ensures
            m.slot() is None,
    {
        CommandManager { kill_sender: None }
    }

    /// Takes what the launcher handed back for the program `program`. If
    /// the process was started, the manager stores its cancellation handle
    /// in place of any earlier one, which can then never be fired, and
    /// returns the units of the new command. If it was not, the manager is
    /// left as it was and the error is returned, which names the program and
    /// says what is wrong: no unit exists that could emit an update.
    pub fn spawn_command(&mut self, program: &str, launched: Result<Sender<()>, LaunchFailure>) -> (r:
        Result<RunningCommand, SpawnError>)
        ensures
            match launched {
                Ok(sender) => r is Ok && r->Ok_0.is_fresh() && final(self).slot() == Some(sender),
                Err(failure) => {
                    &&& r is Err
                    &&& r->Err_0.program@ == program@
                    &&& r->Err_0.reason@ == failure.reason(program@)
                    &&& *final(self) == *old(self)
                },
            },
    {
        match launched {
            Ok(sender) => {
                self.kill_sender = Some(sender);
                Ok(
                    RunningCommand {
                        stdout: StreamDrainer::new(StreamOrigin::Stdout),
                        stderr: StreamDrainer::new(StreamOrigin::Stderr),
                        supervisor: Supervisor::new(),
                    },
                )
            },
            Err(failure) => Err(SpawnError::for_program(program, failure)),
        }
    }

    /// Fires the stored cancellation handle, if there is one, and forgets
    /// it. With no handle stored nothing happens. A signal that finds its
    /// command gone is lost without an error. The call always succeeds.
    pub fn kill_running_command(&mut self) -> (r: Result<(), Error>)
        ensures
            r is Ok,
            final(self).slot() is None,
            !old(self).is_cancellable() ==> *final(self) == *old(self),
    {
        match self.kill_sender.take() {
            Some(sender) => {
                let _ = sender.send(());
            },
            None => {},
        }
        Ok(())
    }
}

impl Default for CommandManager {
    fn default() -> (m: Self)
        ensures
            m.slot() is None,
    {
        CommandManager::new()
    }
}

/// Each command that was launched ends with exactly one terminal update.
/// Whatever reaches the supervisor of a fresh command, and in whatever
/// order, as soon as anything has reached it, it has emitted `Finished` once
/// and nothing else: with the exit code of the process if the process
/// exited first, and without one if cancellation came first.
pub proof fn lemma_one_finished_per_command(running: RunningCommand, events: Seq<SupervisorEvent>)
    requires
        running.is_fresh(),
        events.len() > 0,
    ensures
        emitted(supervise_all(running.supervisor.state(), events)) == seq![
            UpdateView::Finished(outcome(events[0])),
        ],
{
    lemma_exactly_one_finished(events);
}

} // verus!
