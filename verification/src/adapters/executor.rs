//! Running commands on this machine: when to wait, when to give up, and what to
//! report.

use crate::domain::providers::{is_success, CommandOutcome, CommandOutcomeView};
use vstd::prelude::*;
use vstd::string::*;

verus! {

/// How long a command may run unless told otherwise, in milliseconds.
pub const DEFAULT_TIMEOUT_MILLIS: u64 = 60_000;

/// How long to wait between two looks at a running command, in milliseconds.
pub const POLL_INTERVAL_MILLIS: u64 = 25;

/// The exit code of a command that has none.
pub const NO_EXIT_CODE: i32 = -1;

/// What a local execution can fail with.
#[derive(Debug, PartialEq, Eq)]
pub enum ExecutorError {
    /// The program could not be started.
    SpawnFailed { program: String, source: String },
}

/// What a [`ExecutorError`] holds.
#[verifier::ext_equal]
pub enum ExecutorErrorView {
    SpawnFailed { program: Seq<char>, source: Seq<char> },
}

impl View for ExecutorError {
    type V = ExecutorErrorView;

    open spec fn view(&self) -> ExecutorErrorView {
        match self {
            ExecutorError::SpawnFailed { program, source } => ExecutorErrorView::SpawnFailed { program: program.deep_view(), source: source.deep_view() },
        }
    }
}

impl DeepView for ExecutorError {
    type V = ExecutorErrorView;

    open spec fn deep_view(&self) -> ExecutorErrorView {
        self.view()
    }
}

impl Clone for ExecutorError {
    fn clone(&self) -> (r: Self)
        ensures
            r@ == self@,
    {
        match self {
            ExecutorError::SpawnFailed { program, source } => ExecutorError::SpawnFailed { program: program.clone(), source: source.clone() },
        }
    }
}

impl ExecutorError {
    /// The error in words.
    pub fn to_string(&self) -> (r: String)
        ensures
            r@ == (match self@ {
                ExecutorErrorView::SpawnFailed { program, source } => "could not spawn "@ + program
                    + ": "@ + source,
            }),
    {
        match self {
            ExecutorError::SpawnFailed { program, source } => {
                let mut text: String = "could not spawn ".to_owned();
                text.append(program.as_str());
                text.append(": ");
                text.append(source.as_str());
                text
            },
        }
    }
}

/// What to do next about a running command.
#[derive(Debug, Clone, Copy, PartialEq, Eq, Hash, Structural)]
pub enum PollStep {
    /// It exited: collect its output.
    Collect,
    /// It ran too long: kill it and keep what it produced.
    Kill,
    /// Look again later.
    Wait,
}

impl DeepView for PollStep {
    type V = PollStep;

    open spec fn deep_view(&self) -> PollStep {
        *self
    }
}

/// What `String::from_utf8_lossy` makes of bytes.
pub uninterp spec fn lossy_text(bytes: Seq<u8>) -> Seq<char>;

/// Bytes as text, from `String::from_utf8_lossy`: valid UTF-8 is decoded as it
/// is; how the rest is replaced is not stated. The text depends on the bytes
/// alone.
#[verifier::external_body]
pub(crate) fn text_of_bytes(bytes: &Vec<u8>) -> (r: String)
    ensures
        r@ == lossy_text(bytes@),
        vstd::utf8::valid_utf8(bytes@) ==> r@ == vstd::utf8::decode_utf8(bytes@),
{
    String::from_utf8_lossy(bytes).into_owned()
}

/// Runs commands on this machine.
#[derive(Debug, Clone, Copy, PartialEq, Eq, Structural)]
pub struct LocalExecutor {
    /// How long a command may run, in milliseconds.
    pub timeout_millis: u64,
}

impl Default for LocalExecutor {
    /// An executor with the usual limit.
    fn default() -> (r: Self)
        ensures
            r.timeout_millis == DEFAULT_TIMEOUT_MILLIS,
    {
        LocalExecutor { timeout_millis: DEFAULT_TIMEOUT_MILLIS }
    }
}

/// What to do about a command, by whether it exited and how long it has run.
pub open spec fn poll_step(timeout: u64, exited: bool, elapsed: u64) -> PollStep {
    if exited {
        PollStep::Collect
    } else if elapsed >= timeout {
        PollStep::Kill
    } else {
        PollStep::Wait
    }
}

impl LocalExecutor {
    /// An executor with a limit of `timeout_millis` milliseconds.
    pub fn with_timeout(timeout_millis: u64) -> (r: Self)
        ensures
            r.timeout_millis == timeout_millis,
    {
        LocalExecutor { timeout_millis }
    }

    /// The error for a program that could not be started.
    pub fn spawn_failed(program: &str, source: &str) -> (r: ExecutorError)
        ensures
            r@ == (ExecutorErrorView::SpawnFailed { program: program@, source: source@ }),
    {
        ExecutorError::SpawnFailed { program: program.to_owned(), source: source.to_owned() }
    }

    /// What to do about a command after a look at it. An exit counts even when it
    /// is seen late.
    pub fn poll(&self, exited: bool, elapsed_millis: u64) -> (r: PollStep)
        ensures
            r == poll_step(self.timeout_millis, exited, elapsed_millis),
    {
        if exited {
            PollStep::Collect
        } else if elapsed_millis >= self.timeout_millis {
            PollStep::Kill
        } else {
            PollStep::Wait
        }
    }

    /// The outcome of a command that exited. A command that a signal ended has no
    /// code, and is reported with `-1`.
    pub fn exited(&self, code: Option<i32>, stdout: &Vec<u8>, stderr: &Vec<u8>) -> (r:
        CommandOutcome)
        ensures
            r@ == (CommandOutcomeView {
                exit_code: (match code {
                    Some(code) => code,
                    None => NO_EXIT_CODE,
                }),
                stdout: lossy_text(stdout@),
                stderr: lossy_text(stderr@),
                timed_out: false,
            }),
            r@ == outcome_of_exit(code, stdout@, stderr@),
    {
        let exit_code: i32 = match code {
            Some(code) => code,
            None => NO_EXIT_CODE,
        };
        CommandOutcome {
            exit_code,
            stdout: text_of_bytes(stdout),
            stderr: text_of_bytes(stderr),
            timed_out: false,
        }
    }

    /// The outcome of a command that was killed. A timeout is a result, not a
    /// failure of the infrastructure.
    pub fn timed_out(&self, stdout: &Vec<u8>, stderr: &Vec<u8>) -> (r: CommandOutcome)
        ensures
            r@ == (CommandOutcomeView {
                exit_code: NO_EXIT_CODE,
                stdout: lossy_text(stdout@),
                stderr: lossy_text(stderr@),
                timed_out: true,
            }),
            r@ == outcome_of_timeout(stdout@, stderr@),
    {
        CommandOutcome {
            exit_code: NO_EXIT_CODE,
            stdout: text_of_bytes(stdout),
            stderr: text_of_bytes(stderr),
            timed_out: true,
        }
    }
}

/// A command that has run for its limit is never waited for again.
pub proof fn law_waiting_ends_at_the_limit(timeout: u64, exited: bool, elapsed: u64)
    ensures
        poll_step(timeout, exited, elapsed) == PollStep::Wait <==> !exited && elapsed < timeout,
{
}

/// Output is collected exactly where the command is over, even past the limit, and a
/// command is killed exactly where it is not and its time is up.
pub proof fn law_only_a_late_command_is_killed(timeout: u64, exited: bool, elapsed: u64)
    ensures
        poll_step(timeout, exited, elapsed) == PollStep::Collect <==> exited,
        poll_step(timeout, exited, elapsed) == PollStep::Kill <==> !exited && elapsed >= timeout,
{
}

/// What is reported of a command that ended by itself.
pub open spec fn outcome_of_exit(
    code: Option<i32>,
    stdout: Seq<u8>,
    stderr: Seq<u8>,
) -> CommandOutcomeView {
    CommandOutcomeView {
        exit_code: (match code {
            Some(code) => code,
            None => NO_EXIT_CODE,
        }),
        stdout: lossy_text(stdout),
        stderr: lossy_text(stderr),
        timed_out: false,
    }
}

/// What is reported of a command that was killed at its limit.
pub open spec fn outcome_of_timeout(stdout: Seq<u8>, stderr: Seq<u8>) -> CommandOutcomeView {
    CommandOutcomeView {
        exit_code: NO_EXIT_CODE,
        stdout: lossy_text(stdout),
        stderr: lossy_text(stderr),
        timed_out: true,
    }
}

/// A command succeeded exactly where it ended by itself with the code zero: one without a
/// code, or one that was killed at its limit, did not. Either way what it printed is kept,
/// each stream in its own place.
pub proof fn law_only_an_exit_with_zero_is_a_success(
    code: Option<i32>,
    stdout: Seq<u8>,
    stderr: Seq<u8>,
)
    ensures
        is_success(outcome_of_exit(code, stdout, stderr)) <==> code == Some(0i32),
        !is_success(outcome_of_timeout(stdout, stderr)),
        outcome_of_timeout(stdout, stderr).timed_out,
        !outcome_of_exit(code, stdout, stderr).timed_out,
        code is Some ==> outcome_of_exit(code, stdout, stderr).exit_code == code->0,
        outcome_of_exit(code, stdout, stderr).stdout == lossy_text(stdout),
        outcome_of_exit(code, stdout, stderr).stderr == lossy_text(stderr),
        outcome_of_timeout(stdout, stderr).stdout == lossy_text(stdout),
        outcome_of_timeout(stdout, stderr).stderr == lossy_text(stderr),
{
}

} // verus!
