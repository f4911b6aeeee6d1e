//! The decisions of the supervisor that runs the witness generator as a
//! separate process under a time limit.
//!
//! The supervisor itself neither spawns nor waits. It is a state machine:
//! the caller reports what happened as an event, and is told the next state
//! and what to do. One run goes from `Idle` over `Spawning` and `Running` to
//! one of the three final states and is never retried.
//!
//! On a timeout the witness generator is stopped by its name, not by its
//! process handle, which stops every process of that name on the machine.
//! So at most one run may be under way at a time.

use vstd::prelude::*;
use vstd::string::*;
use crate::decimal::{decimal_text, push_decimal};
use crate::request::{convert_host_cli_to_args, HostCli};

verus! {

/// How long the witness generator may run: whole seconds and the
/// nanoseconds beyond them.
#[derive(Clone, Copy, Debug, PartialEq, Eq)]
pub struct TimeLimit {
    pub secs: u64,
    pub subsec_nanos: u32,
}

/// How a process ended, as the operating system reported it. The supervisor
/// passes it on and reads nothing into it.
#[derive(Clone, Copy, Debug, PartialEq, Eq)]
pub struct ExitStatus {
    /// The exit code, where the process exited by itself.
    pub code: Option<i32>,
    /// The signal, where one ended the process.
    pub signal: Option<i32>,
}

/// Why a run gave no exit status.
#[derive(Clone, Debug, PartialEq, Eq)]
pub enum HostError {
    /// The operating system could not start the process.
    SpawnFailed { reason: String },
    /// The process was still running when the time limit was reached.
    Timeout { limit: TimeLimit },
    /// Waiting for the process failed.
    AbnormalTermination { reason: String },
}

/// Where a run stands.
#[derive(Clone, Copy, Debug, PartialEq, Eq)]
pub enum SupervisorState {
    Idle,
    Spawning,
    Running,
    Completed,
    TimedOut,
    SpawnFailed,
}

/// What the caller observed.
#[derive(Clone, Debug, PartialEq, Eq)]
pub enum SupervisorEvent {
    /// The run is asked for; the build system named its target directory.
    Start { target_directory: String },
    /// The process was started.
    Spawned,
    /// The process could not be started.
    SpawnError { reason: String },
    /// The process ended before the time limit.
    Exited { status: ExitStatus },
    /// Waiting for the process failed before the time limit.
    WaitError { reason: String },
    /// The time limit was reached first.
    DeadlineElapsed,
}

/// What the caller is to do next.
#[derive(Debug, PartialEq, Eq)]
pub enum SupervisorAction {
    /// Start `executable`, found in the directory `profile` below
    /// `target_directory`, with `args` and with the environment variable
    /// `env_name` set to `env_value`; report `Spawned` or `SpawnError`.
    Spawn {
        target_directory: String,
        profile: String,
        executable: String,
        args: Vec<String>,
        env_name: String,
        env_value: String,
    },
    /// Wait for the process to end, no longer than `limit`; report `Exited`,
    /// `WaitError` or `DeadlineElapsed`.
    Wait { limit: TimeLimit },
    /// The run is over: hand `result` to whoever asked for it.
    Finish { result: Result<ExitStatus, HostError> },
    /// The run is over: log `log_message`, stop every process named
    /// `process_name`, and hand `error` to whoever asked for the run.
    Terminate { process_name: String, log_message: String, error: HostError },
    /// The event does not belong to the state: do nothing.
    Ignore,
}

impl SupervisorState {
    /// Whether the run is over.
    pub open spec fn is_final(self) -> bool {
        self is Completed || self is TimedOut || self is SpawnFailed
    }

    /// How far the run has come.
    pub open spec fn progress(self) -> nat {
        match self {
            SupervisorState::Idle => 0,
            SupervisorState::Spawning => 1,
            SupervisorState::Running => 2,
            _ => 3,
        }
    }
}

/// What is logged when the time limit is reached.
pub open spec fn timeout_message(limit: TimeLimit) -> Seq<char> {
    "Native host runner process timed out after "@ + decimal_text(limit.secs as nat)
        + " seconds"@
}

impl HostError {
    /// What `message` says of the error.
    pub open spec fn message_text(self) -> Seq<char> {
        match self {
            HostError::SpawnFailed { reason } => "Failed to spawn native host runner: "@
                + reason@,
            HostError::Timeout { limit } => timeout_message(limit),
            HostError::AbnormalTermination { reason } =>
                "Failed to wait for native host runner: "@ + reason@,
        }
    }

    /// The error in words.
    pub fn message(&self) -> (text: String)
        ensures
            text@ == self.message_text(),
    {
        match self {
            HostError::SpawnFailed { reason } => {
                let mut text = String::from_str("Failed to spawn native host runner: ");
                text.append(reason.as_str());
                text
            },
            HostError::Timeout { limit } => timeout_text(*limit),
            HostError::AbnormalTermination { reason } => {
                let mut text = String::from_str("Failed to wait for native host runner: ");
                text.append(reason.as_str());
                text
            },
        }
    }
}

fn timeout_text(limit: TimeLimit) -> (text: String)
    ensures
        text@ == timeout_message(limit),
{
    let mut text = String::from_str("Native host runner process timed out after ");
    push_decimal(&mut text, limit.secs);
    text.append(" seconds");
    text
}

impl SupervisorAction {
    /// Whether the action starts the witness generator for `host_cli` out of
    /// the release directory below `target_directory`, with logging at level
    /// `info`.
    pub open spec fn spawns(self, host_cli: HostCli, target_directory: String) -> bool {
        &&& self matches SupervisorAction::Spawn {
            target_directory: directory,
            profile,
            executable,
            args,
            env_name,
            env_value,
        }
        &&& directory == target_directory
        &&& profile@ == "release"@
        &&& executable@ == "native_host_runner"@
        &&& args.deep_view() == host_cli.arguments()
        &&& env_name@ == "RUST_LOG"@
        &&& env_value@ == "info"@
    }

    /// Whether the action stops every process with the witness generator's
    /// name and reports that `limit` was reached.
    pub open spec fn terminates(self, limit: TimeLimit) -> bool {
        &&& self matches SupervisorAction::Terminate { process_name, log_message, error }
        &&& process_name@ == "native_host_runner"@
        &&& log_message@ == timeout_message(limit)
        &&& error == (HostError::Timeout { limit })
    }
}

/// What one step of the supervisor is: for a run of `host_cli` under `limit`,
/// in `state`, on `event`, the state is `next` and the caller is told
/// `action`.
pub open spec fn supervisor_step(
    host_cli: HostCli,
    limit: TimeLimit,
    state: SupervisorState,
    event: SupervisorEvent,
    next: SupervisorState,
    action: SupervisorAction,
) -> bool {
    match (state, event) {
        (SupervisorState::Idle, SupervisorEvent::Start { target_directory }) => {
            &&& next == SupervisorState::Spawning
            &&& action.spawns(host_cli, target_directory)
        },
        (SupervisorState::Spawning, SupervisorEvent::Spawned) => {
            &&& next == SupervisorState::Running
            &&& action == (SupervisorAction::Wait { limit })
        },
        (SupervisorState::Spawning, SupervisorEvent::SpawnError { reason }) => {
            &&& next == SupervisorState::SpawnFailed
            &&& action == (SupervisorAction::Finish {
                result: Err(HostError::SpawnFailed { reason }),
            })
        },
        (SupervisorState::Running, SupervisorEvent::Exited { status }) => {
            &&& next == SupervisorState::Completed
            &&& action == (SupervisorAction::Finish { result: Ok(status) })
        },
        (SupervisorState::Running, SupervisorEvent::WaitError { reason }) => {
            &&& next == SupervisorState::Completed
            &&& action == (SupervisorAction::Finish {
                result: Err(HostError::AbnormalTermination { reason }),
            })
        },
        (SupervisorState::Running, SupervisorEvent::DeadlineElapsed) => {
            &&& next == SupervisorState::TimedOut
            &&& action.terminates(limit)
        },
        _ => {
            &&& next == state
            &&& action == SupervisorAction::Ignore
        },
    }
}

/// One step of a supervised run of the witness generator for `host_cli`
/// under the time limit `timeout`.
///
/// The caller starts in `Idle` with `Start`, does what the returned action
/// says, and comes back with the event that followed, until the action is
/// `Finish` or `Terminate`. An event that does not belong to the state
/// changes nothing.
pub fn run_native_host(
    host_cli: &HostCli,
    timeout: TimeLimit,
    state: SupervisorState,
    event: SupervisorEvent,
) -> (step: (SupervisorState, SupervisorAction))
    ensures
        supervisor_step(*host_cli, timeout, state, event, step.0, step.1),
{
    match state {
        SupervisorState::Idle => match event {
            SupervisorEvent::Start { target_directory } => {
                let action = SupervisorAction::Spawn {
                    target_directory,
                    profile: String::from_str("release"),
                    executable: String::from_str("native_host_runner"),
                    args: convert_host_cli_to_args(host_cli),
                    env_name: String::from_str("RUST_LOG"),
                    env_value: String::from_str("info"),
                };
                (SupervisorState::Spawning, action)
            },
            _ => (state, SupervisorAction::Ignore),
        },
        SupervisorState::Spawning => match event {
            SupervisorEvent::Spawned => (
                SupervisorState::Running,
                SupervisorAction::Wait { limit: timeout },
            ),
            SupervisorEvent::SpawnError { reason } => (
                SupervisorState::SpawnFailed,
                SupervisorAction::Finish { result: Err(HostError::SpawnFailed { reason }) },
            ),
            _ => (state, SupervisorAction::Ignore),
        },
        SupervisorState::Running => match event {
            SupervisorEvent::Exited { status } => (
                SupervisorState::Completed,
                SupervisorAction::Finish { result: Ok(status) },
            ),
            SupervisorEvent::WaitError { reason } => (
                SupervisorState::Completed,
                SupervisorAction::Finish {
                    result: Err(HostError::AbnormalTermination { reason }),
                },
            ),
            SupervisorEvent::DeadlineElapsed => {
                let action = SupervisorAction::Terminate {
                    process_name: String::from_str("native_host_runner"),
                    log_message: timeout_text(timeout),
                    error: HostError::Timeout { limit: timeout },
                };
                (SupervisorState::TimedOut, action)
            },
            _ => (state, SupervisorAction::Ignore),
        },
        _ => (state, SupervisorAction::Ignore),
    }
}

/// A process that ends before the time limit completes the run, and its
/// exit status is handed on as it is, whatever it says.
pub proof fn lemma_exit_completes(
    host_cli: HostCli,
    limit: TimeLimit,
    status: ExitStatus,
    next: SupervisorState,
    action: SupervisorAction,
)
    requires
        supervisor_step(
            host_cli,
            limit,
            SupervisorState::Running,
            SupervisorEvent::Exited { status },
            next,
            action,
        ),
    ensures
        next == SupervisorState::Completed,
        action == (SupervisorAction::Finish { result: Ok(status) }),
{
}

/// When the time limit is reached first, the run ends as timed out: the
/// witness generator is stopped by name, and the error carries the limit.
pub proof fn lemma_deadline_terminates(
    host_cli: HostCli,
    limit: TimeLimit,
    next: SupervisorState,
    action: SupervisorAction,
)
    requires
        supervisor_step(
            host_cli,
            limit,
            SupervisorState::Running,
            SupervisorEvent::DeadlineElapsed,
            next,
            action,
        ),
    ensures
        next == SupervisorState::TimedOut,
        action matches SupervisorAction::Terminate { process_name, log_message, error }
            && process_name@ == "native_host_runner"@ && error == (HostError::Timeout { limit })
            && log_message@ == error.message_text(),
{
}

/// A process that cannot be started ends the run at once: the caller is
/// told to finish, never to wait.
pub proof fn lemma_spawn_failure_is_final(
    host_cli: HostCli,
    limit: TimeLimit,
    reason: String,
    next: SupervisorState,
    action: SupervisorAction,
)
    requires
        supervisor_step(
            host_cli,
            limit,
            SupervisorState::Spawning,
            SupervisorEvent::SpawnError { reason },
            next,
            action,
        ),
    ensures
        next == SupervisorState::SpawnFailed,
        action == (SupervisorAction::Finish { result: Err(HostError::SpawnFailed { reason }) }),
{
}

/// A run that is over stays over: no event changes a final state or asks
/// the caller for anything.
pub proof fn lemma_final_states_absorb(
    host_cli: HostCli,
    limit: TimeLimit,
    state: SupervisorState,
    event: SupervisorEvent,
    next: SupervisorState,
    action: SupervisorAction,
)
    requires
        state.is_final(),
        supervisor_step(host_cli, limit, state, event, next, action),
    ensures
        next == state,
        action == SupervisorAction::Ignore,
{
}

/// A run never goes back: each step leaves the state as it is or moves it
/// on, and the process is started only out of `Idle`, so at most once.
pub proof fn lemma_no_retry(
    host_cli: HostCli,
    limit: TimeLimit,
    state: SupervisorState,
    event: SupervisorEvent,
    next: SupervisorState,
    action: SupervisorAction,
)
    requires
        supervisor_step(host_cli, limit, state, event, next, action),
    ensures
        next == state || next.progress() > state.progress(),
        action is Spawn ==> state is Idle,
        action is Ignore <==> next == state,
        (action is Finish || action is Terminate) <==> (next.is_final() && !state.is_final()),
{
}

} // verus!
