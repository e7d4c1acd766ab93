//! Requests to run a command, and what a run comes to.
use crate::command::{CommandPlan, PlanModel};
use crate::duration::Duration;
use crate::policy::{PolicyModel, ResolvedPolicy};
use vstd::prelude::*;
use vstd::utf8::{decode_utf8, valid_utf8};

verus! {

/// A command to be run under a policy.
#[derive(Debug, Clone)]
pub struct RunRequest {
    pub command: CommandPlan,
    pub working_dir: String,
    pub policy: ResolvedPolicy,
}

/// The contents of a `RunRequest`.
pub struct RequestModel {
    pub command: PlanModel,
    pub working_dir: Seq<char>,
    pub policy: PolicyModel,
}

impl View for RunRequest {
    type V = RequestModel;

    open spec fn view(&self) -> RequestModel {
        RequestModel {
            command: self.command@,
            working_dir: self.working_dir@,
            policy: self.policy@,
        }
    }
}

impl RunRequest {
    /// A request for `command` in `working_dir` under `policy`.
    pub fn new(command: CommandPlan, working_dir: String, policy: ResolvedPolicy) -> (r: RunRequest)
        ensures
            r == (RunRequest { command, working_dir, policy }),
    {
        RunRequest { command, working_dir, policy }
    }
}

/// What a process left behind: its exit code, where it exited by itself, and its output.
#[derive(Debug, Clone)]
pub struct ProcessOutput {
    pub status: Option<i32>,
    pub stdout: Vec<u8>,
    pub stderr: Vec<u8>,
}

/// What a run came to.
#[derive(Debug, Clone)]
pub struct ExecutionResult {
    /// The exit code; none where a signal ended the process.
    pub status: Option<i32>,
    pub stdout: String,
    pub stderr: String,
    pub duration: Duration,
    pub timed_out: bool,
}

/// The text that `String::from_utf8_lossy` reads from bytes.
pub uninterp spec fn lossy_utf8(bytes: Seq<u8>) -> Seq<char>;

/// `String::from_utf8_lossy` followed by `Cow::into_owned`. What it does with bytes that
/// are not UTF-8 has a name, `lossy_utf8`; bytes that are UTF-8 it decodes.
#[verifier::external_body]
fn text_from_bytes(bytes: &Vec<u8>) -> (out: String)
    ensures
        out@ == lossy_utf8(bytes@),
        valid_utf8(bytes@) ==> out@ == decode_utf8(bytes@),
{
    String::from_utf8_lossy(bytes.as_slice()).into_owned()
}

/// The text of what a program wrote.
pub fn output_text(bytes: &Vec<u8>) -> (out: String)
    ensures
        out@ == lossy_utf8(bytes@),
        valid_utf8(bytes@) ==> out@ == decode_utf8(bytes@),
{
    text_from_bytes(bytes)
}

/// The exit code of a run that took too long.
pub const TIMEOUT_EXIT_CODE: i32 = 124;

impl ExecutionResult {
    /// The exit code to report.
    pub open spec fn code(&self) -> i32 {
        if self.timed_out {
            TIMEOUT_EXIT_CODE
        } else {
            match self.status {
                Some(c) => c,
                None => 1,
            }
        }
    }

    /// The result of a process that ended by itself.
    pub fn from_output(output: ProcessOutput, duration: Duration) -> (r: ExecutionResult)
        ensures
            r.status == output.status,
            r.stdout@ == lossy_utf8(output.stdout@),
            r.stderr@ == lossy_utf8(output.stderr@),
            valid_utf8(output.stdout@) ==> r.stdout@ == decode_utf8(output.stdout@),
            valid_utf8(output.stderr@) ==> r.stderr@ == decode_utf8(output.stderr@),
            r.duration == duration,
            !r.timed_out,
    {
        ExecutionResult {
            status: output.status,
            stdout: text_from_bytes(&output.stdout),
            stderr: text_from_bytes(&output.stderr),
            duration,
            timed_out: false,
        }
    }

    /// The result of a process that was waited for.
    pub fn from_status(
        status: Option<i32>,
        stdout: Vec<u8>,
        stderr: Vec<u8>,
        duration: Duration,
        timed_out: bool,
    ) -> (r: ExecutionResult)
        ensures
            r.status == status,
            r.stdout@ == lossy_utf8(stdout@),
            r.stderr@ == lossy_utf8(stderr@),
            valid_utf8(stdout@) ==> r.stdout@ == decode_utf8(stdout@),
            valid_utf8(stderr@) ==> r.stderr@ == decode_utf8(stderr@),
            r.duration == duration,
            r.timed_out == timed_out,
    {
        ExecutionResult {
            status,
            stdout: text_from_bytes(&stdout),
            stderr: text_from_bytes(&stderr),
            duration,
            timed_out,
        }
    }

    /// The exit code to report: 124 for a run that took too long, 1 where a signal ended
    /// the process, else the code of the process.
    pub fn exit_code(&self) -> (code: i32)
        ensures
            code == self.code(),
    {
        if self.timed_out {
            return TIMEOUT_EXIT_CODE;
        }
        match self.status {
            Some(c) => c,
            None => 1,
        }
    }
}

} // verus!
