//! The workload that a detached sandbox runs at start.

use vstd::prelude::*;
use vstd::string::*;

use crate::text::prefixed;

verus! {

/// The command to run at start.
pub struct StartupCommand {
    pub cmd: String,
    pub args: Vec<String>,
    pub env: Vec<String>,
    pub cwd: Option<String>,
    pub user: Option<String>,
}

/// The agent's request to run a command.
pub struct ExecRequest {
    pub cmd: String,
    pub args: Vec<String>,
    pub env: Vec<String>,
    pub cwd: Option<String>,
    pub user: Option<String>,
    pub tty: bool,
    pub rows: u16,
    pub cols: u16,
    /// How many resource limits are set.
    pub rlimits: usize,
}

/// The request for a start-up command: no terminal, the default window, no limits.
pub fn startup_request(command: StartupCommand) -> (request: ExecRequest)
    ensures
        request == (ExecRequest {
            cmd: command.cmd,
            args: command.args,
            env: command.env,
            cwd: command.cwd,
            user: command.user,
            tty: false,
            rows: 24,
            cols: 80,
            rlimits: 0,
        }),
{
    ExecRequest {
        cmd: command.cmd,
        args: command.args,
        env: command.env,
        cwd: command.cwd,
        user: command.user,
        tty: false,
        rows: 24,
        cols: 80,
        rlimits: 0,
    }
}

/// How the start-up command ended. `F` is the agent's account of a command it could not spawn.
pub enum StartupCommandExit<F> {
    /// The command ran and exited with the contained status code.
    Exited(i32),
    /// The agent could not spawn the command.
    Failed(F),
}

/// What the session of the command brought.
pub enum StartupEvent<F> {
    ConnectFailed(String),
    DispatchFailed(String),
    /// The terminal event of an exit, decoded, or why it did not decode.
    Exited(Result<i32, String>),
    /// The terminal event of a failed spawn, decoded, or why it did not decode.
    Failed(Result<F, String>),
    /// Output or another event.
    Other,
    /// The stream ended.
    Ended,
}

/// What the event means for the command: `None` where the session goes on.
pub open spec fn startup_outcome<F>(event: StartupEvent<F>) -> Option<
    Result<StartupCommandExit<F>, Seq<char>>,
> {
    match event {
        StartupEvent::ConnectFailed(error) => Some(Err("startup command connect: "@ + error@)),
        StartupEvent::DispatchFailed(error) => Some(Err("startup command dispatch: "@ + error@)),
        StartupEvent::Exited(Ok(code)) => Some(Ok(StartupCommandExit::Exited(code))),
        StartupEvent::Exited(Err(error)) => Some(Err("startup command exit: "@ + error@)),
        StartupEvent::Failed(Ok(failed)) => Some(Ok(StartupCommandExit::Failed(failed))),
        StartupEvent::Failed(Err(error)) => Some(Err("startup command failure: "@ + error@)),
        StartupEvent::Other => None,
        StartupEvent::Ended => Some(Err("startup command stream ended before terminal event"@)),
    }
}

/// The outcome of a command, with its error as text.
pub open spec fn outcome_text<F>(
    outcome: Option<Result<StartupCommandExit<F>, String>>,
) -> Option<Result<StartupCommandExit<F>, Seq<char>>> {
    match outcome {
        None => None,
        Some(Ok(exit)) => Some(Ok(exit)),
        Some(Err(error)) => Some(Err(error@)),
    }
}

/// Decide on an event of the command's session.
pub fn run_startup_command<F>(event: StartupEvent<F>) -> (outcome: Option<
    Result<StartupCommandExit<F>, String>,
>)
    ensures
        outcome_text(outcome) == startup_outcome(event),
        match event {
            StartupEvent::Other => outcome is None,
            StartupEvent::Exited(Ok(code)) => outcome is Some && outcome->0 == Ok::<
                StartupCommandExit<F>,
                String,
            >(StartupCommandExit::Exited(code)),
            StartupEvent::Failed(Ok(failed)) => outcome is Some && outcome->0 == Ok::<
                StartupCommandExit<F>,
                String,
            >(StartupCommandExit::Failed(failed)),
            _ => outcome is Some && outcome->0 is Err,
        },
{
    match event {
        StartupEvent::ConnectFailed(error) => Some(
            Err(prefixed("startup command connect: ", error.as_str())),
        ),
        StartupEvent::DispatchFailed(error) => Some(
            Err(prefixed("startup command dispatch: ", error.as_str())),
        ),
        StartupEvent::Exited(Ok(code)) => Some(Ok(StartupCommandExit::Exited(code))),
        StartupEvent::Exited(Err(error)) => Some(Err(prefixed("startup command exit: ", error.as_str()))),
        StartupEvent::Failed(Ok(failed)) => Some(Ok(StartupCommandExit::Failed(failed))),
        StartupEvent::Failed(Err(error)) => Some(
            Err(prefixed("startup command failure: ", error.as_str())),
        ),
        StartupEvent::Other => None,
        StartupEvent::Ended => Some(
            Err(String::from_str("startup command stream ended before terminal event")),
        ),
    }
}

/// A command's session goes on with its output and ends with everything else: with the exit status
/// or the failed spawn that the guest reported, and otherwise with an error.
pub proof fn sessions_end_with_their_terminal_event<F>(event: StartupEvent<F>)
    ensures
        startup_outcome(event) is None <==> event is Other,
        event matches StartupEvent::Exited(Ok(code)) ==> startup_outcome(event) == Some(
            Ok::<StartupCommandExit<F>, Seq<char>>(StartupCommandExit::Exited(code)),
        ),
        event matches StartupEvent::Failed(Ok(failed)) ==> startup_outcome(event) == Some(
            Ok::<StartupCommandExit<F>, Seq<char>>(StartupCommandExit::Failed(failed)),
        ),
        startup_outcome(event) matches Some(Ok(exit)) ==> match exit {
            StartupCommandExit::Exited(code) => event == StartupEvent::<F>::Exited(Ok(code)),
            StartupCommandExit::Failed(failed) => event == StartupEvent::<F>::Failed(Ok(failed)),
        },
        event is ConnectFailed || event is DispatchFailed || event is Ended ==> (
        startup_outcome(event) matches Some(Err(_))),
{
}

} // verus!
