//! The outcome of a run and how it is reported.
use vstd::prelude::*;

use crate::domain::ExecutionStatus;
use crate::error::{detail_of, prefix_of, AppError};
use crate::text::concat2;

verus! {

/// What a run produced.
#[derive(Debug)]
pub struct ExecutionResult {
    pub stdout: String,
    pub stderr: String,
    pub exit_code: Option<i32>,
    pub duration_ms: i64,
    pub status: ExecutionStatus,
    pub stdout_truncated: bool,
    pub stderr_truncated: bool,
}

/// How waiting for a process ended.
#[derive(Debug, Clone, Copy, PartialEq, Eq, Structural)]
pub enum WaitOutcome {
    /// The process exited, successfully or not, with its code if it had one.
    Exited { success: bool, code: Option<i32> },
    /// The timeout passed first; the process was killed.
    TimedOut,
}

/// The exit code and status that a wait outcome is recorded with.
pub open spec fn exit_record(w: WaitOutcome) -> (Option<i32>, ExecutionStatus) {
    match w {
        WaitOutcome::Exited { success, code } => (
            code,
            if success {
                ExecutionStatus::Success
            } else {
                ExecutionStatus::Error
            },
        ),
        WaitOutcome::TimedOut => (None, ExecutionStatus::Timeout),
    }
}

/// The exit code and status that a wait outcome is recorded with.
pub fn classify_exit(wait: WaitOutcome) -> (r: (Option<i32>, ExecutionStatus))
    ensures
        r == exit_record(wait),
{
    match wait {
        WaitOutcome::Exited { success, code } => (
            code,
            if success {
                ExecutionStatus::Success
            } else {
                ExecutionStatus::Error
            },
        ),
        WaitOutcome::TimedOut => (None, ExecutionStatus::Timeout),
    }
}

/// The timeout a process gets, in milliseconds: the tool's, but at least 1.
pub fn effective_timeout_ms(timeout_ms: i64) -> (r: u64)
    ensures
        r as int == if timeout_ms < 1 {
            1
        } else {
            timeout_ms as int
        },
{
    if timeout_ms < 1 {
        1
    } else {
        timeout_ms as u64
    }
}

/// The result recorded for a run that could not be carried out: no output
/// but the error's text on stderr, no exit code, and status error.
pub fn execution_error_result(error: &AppError, duration_ms: u128) -> (r: ExecutionResult)
    ensures
        r.stdout@ == Seq::<char>::empty(),
        r.stderr@ == prefix_of(*error) + detail_of(*error),
        r.exit_code is None,
        r.duration_ms == duration_ms as i64,
        r.status == ExecutionStatus::Error,
        !r.stdout_truncated,
        !r.stderr_truncated,
{
    ExecutionResult {
        stdout: String::new(),
        stderr: error.message(),
        exit_code: None,
        duration_ms: duration_ms as i64,
        status: ExecutionStatus::Error,
        stdout_truncated: false,
        stderr_truncated: false,
    }
}

/// The text an MCP client sees for a run: stdout, then `stderr:` and
/// stderr on a new line when there is any, or `(no output)`.
pub open spec fn result_text(stdout: Seq<char>, stderr: Seq<char>) -> Seq<char> {
    let with_err = if stderr.len() == 0 {
        stdout
    } else if stdout.len() == 0 {
        "stderr:\n"@ + stderr
    } else {
        stdout + "\n"@ + "stderr:\n"@ + stderr
    };
    if with_err.len() == 0 {
        "(no output)"@
    } else {
        with_err
    }
}

/// The text an MCP client sees for a run.
pub fn format_mcp_result_text(result: &ExecutionResult) -> (r: String)
    ensures
        r@ == result_text(result.stdout@, result.stderr@),
        r@.len() > 0,
{
    let mut text = String::new();
    if !result.stdout.as_str().is_empty() {
        text.append(result.stdout.as_str());
    }
    if !result.stderr.as_str().is_empty() {
        if !text.as_str().is_empty() {
            text.append("\n");
        }
        text.append("stderr:\n");
        text.append(result.stderr.as_str());
    }
    if text.as_str().is_empty() {
        text.append("(no output)");
    }
    proof {
        reveal_strlit("(no output)");
        reveal_strlit("stderr:\n");
        reveal_strlit("\n");
    }
    assert(text@ =~= result_text(result.stdout@, result.stderr@));
    text
}

/// The kind of event a streamed payload is sent as.
pub open spec fn event_name_for(has_status: bool, stream: Option<bool>) -> Seq<char> {
    if has_status {
        "done"@
    } else {
        match stream {
            Some(true) => "stdout"@,
            Some(false) => "stderr"@,
            None => "message"@,
        }
    }
}

/// The kind of event a streamed payload is sent as: `done` for the final
/// payload that carries the status, else the stream it came from
/// (`Some(true)` for stdout, `Some(false)` for stderr), else `message`.
pub fn stream_event_name(has_status: bool, stream: Option<bool>) -> (r: &'static str)
    ensures
        r@ == event_name_for(has_status, stream),
{
    if has_status {
        "done"
    } else {
        match stream {
            Some(true) => "stdout",
            Some(false) => "stderr",
            None => "message",
        }
    }
}

} // verus!
