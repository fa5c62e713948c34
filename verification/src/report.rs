//! The outcome reporter: what the invocation itself does once the emulator
//! run is over.

use crate::launch::Mode;
use crate::supervisor::{Fault, Outcome};
use vstd::prelude::*;

verus! {

/// The stage at which an invocation failed.
#[derive(Clone, Copy, Debug, PartialEq, Eq, Structural)]
pub enum Failure {
    /// The emulator could not be started.
    Launch,
    /// The wait for the emulator could not be carried out.
    Wait,
    /// The emulator outlived the test deadline.
    Timeout,
    /// The emulator outlived the test deadline and could not be killed.
    Cleanup,
}

/// How the invocation ends.
#[derive(Clone, Copy, Debug, PartialEq, Eq, Structural)]
pub enum Verdict {
    /// Success: the invocation returns normally, with exit status zero.
    Pass,
    /// The emulator exited with a code other than the expected one: the
    /// invocation ends its own process with that same code as exit status, so
    /// that whoever started the invocation sees the emulator's code.
    Exit(i32),
    /// The invocation fails with an error that names the stage.
    Fail(Failure),
}

/// The exit code that stands for success where the configuration names none.
pub const DEFAULT_SUCCESS_CODE: i32 = 0;

/// The exit status of an invocation that fails with an error.
pub const FAILURE_STATUS: i32 = 1;

/// The exit code that counts as success under the given configuration entry.
pub open spec fn success_code(expected_exit_code: Option<i32>) -> i32 {
    match expected_exit_code {
        Some(code) => code,
        None => DEFAULT_SUCCESS_CODE,
    }
}

/// The verdict on an emulator that exited by itself with `exit_code`.
pub open spec fn verdict_on_exit(mode: Mode, exit_code: i32, expected_exit_code: Option<i32>) -> Verdict {
    if mode == Mode::Run || exit_code == success_code(expected_exit_code) {
        Verdict::Pass
    } else {
        Verdict::Exit(exit_code)
    }
}

/// The verdict on the outcome of a supervised test run.
pub open spec fn verdict_on_outcome(outcome: Outcome, expected_exit_code: Option<i32>) -> Verdict {
    match outcome {
        Outcome::Completed(exit_code) => verdict_on_exit(Mode::Test, exit_code, expected_exit_code),
        Outcome::TimedOut => Verdict::Fail(Failure::Timeout),
    }
}

/// The stage that a failed request to the child process belongs to.
pub open spec fn failure_of_fault(fault: Fault) -> Failure {
    match fault {
        Fault::Wait => Failure::Wait,
        Fault::Kill => Failure::Cleanup,
    }
}

impl Failure {
    /// The text of the error, as a sequence of characters.
    pub open spec fn message_text(self) -> Seq<char> {
        match self {
            Failure::Launch => "QEMU system-x86_64 failed"@,
            Failure::Wait => "Failed to wait with timeout"@,
            Failure::Timeout => "Test timed out"@,
            Failure::Cleanup => "Failed to kill QEMU"@,
        }
    }

    /// The text of the error. Each stage has a text of its own.
    pub fn message(&self) -> (text: &'static str)
        ensures
            text@ == self.message_text(),
    {
        match self {
            Failure::Launch => "QEMU system-x86_64 failed",
            Failure::Wait => "Failed to wait with timeout",
            Failure::Timeout => "Test timed out",
            Failure::Cleanup => "Failed to kill QEMU",
        }
    }
}

impl Verdict {
    /// The exit status with which the invocation's process ends.
    pub open spec fn exit_status(self) -> i32 {
        match self {
            Verdict::Pass => 0,
            Verdict::Exit(code) => code,
            Verdict::Fail(_) => FAILURE_STATUS,
        }
    }

    /// The exit status with which the invocation's process ends: zero on
    /// success, the emulator's own code where that code is passed on, and
    /// [`FAILURE_STATUS`] on an error.
    pub fn status(&self) -> (status: i32)
        ensures
            status == self.exit_status(),
    {
        match self {
            Verdict::Pass => 0,
            Verdict::Exit(code) => *code,
            Verdict::Fail(_) => FAILURE_STATUS,
        }
    }
}

/// Judges an emulator that exited by itself.
///
/// In run mode the exit code is not looked at. In test mode the run passes
/// when the code is the expected one (zero where none is configured); any
/// other code becomes the invocation's own exit status.
pub fn judge_exit(mode: Mode, exit_code: i32, expected_exit_code: Option<i32>) -> (verdict: Verdict)
    ensures
        verdict == verdict_on_exit(mode, exit_code, expected_exit_code),
        mode == Mode::Run ==> verdict == Verdict::Pass,
{
    match mode {
        Mode::Run => Verdict::Pass,
        Mode::Test => {
            let wanted: i32 = match expected_exit_code {
                Some(code) => code,
                None => DEFAULT_SUCCESS_CODE,
            };
            if exit_code == wanted {
                Verdict::Pass
            } else {
                Verdict::Exit(exit_code)
            }
        },
    }
}

/// Turns the outcome of a supervised test run into the invocation's verdict.
///
/// A run that timed out always fails. A run that completed passes when its
/// exit code is the expected one, and otherwise hands its exit code on as the
/// invocation's exit status.
pub fn report(outcome: Outcome, expected_exit_code: Option<i32>) -> (verdict: Verdict)
    ensures
        verdict == verdict_on_outcome(outcome, expected_exit_code),
        outcome == Outcome::TimedOut ==> verdict == Verdict::Fail(Failure::Timeout),
        outcome matches Outcome::Completed(code) ==> (verdict == Verdict::Pass <==> code
            == success_code(expected_exit_code)),
        outcome matches Outcome::Completed(code) ==> (verdict == Verdict::Exit(code) <==> code
            != success_code(expected_exit_code)),
{
    match outcome {
        Outcome::Completed(exit_code) => judge_exit(Mode::Test, exit_code, expected_exit_code),
        Outcome::TimedOut => Verdict::Fail(Failure::Timeout),
    }
}

/// The stage at which an invocation fails when a request to the child
/// process has failed.
pub fn failure_of(fault: Fault) -> (failure: Failure)
    ensures
        failure == failure_of_fault(fault),
{
    match fault {
        Fault::Wait => Failure::Wait,
        Fault::Kill => Failure::Cleanup,
    }
}

/// Turns the ending of a supervision, outcome or fault, into the
/// invocation's verdict. A fault fails the invocation at the stage of the
/// request that failed; it is never passed over.
pub fn conclude(ending: Result<Outcome, Fault>, expected_exit_code: Option<i32>) -> (verdict:
    Verdict)
    ensures
        verdict == match ending {
            Ok(outcome) => verdict_on_outcome(outcome, expected_exit_code),
            Err(fault) => Verdict::Fail(failure_of_fault(fault)),
        },
{
    match ending {
        Ok(outcome) => report(outcome, expected_exit_code),
        Err(fault) => Verdict::Fail(failure_of(fault)),
    }
}

/// A test run that completes with the expected exit code passes, and the
/// invocation's exit status is zero.
pub proof fn law_expected_code_passes(exit_code: i32, expected_exit_code: Option<i32>)
    requires
        exit_code == success_code(expected_exit_code),
    ensures
        verdict_on_outcome(Outcome::Completed(exit_code), expected_exit_code) == Verdict::Pass,
        verdict_on_outcome(Outcome::Completed(exit_code), expected_exit_code).exit_status() == 0,
{
}

/// A test run that completes with another exit code than the expected one
/// does not pass: the invocation's own exit status is that code.
pub proof fn law_unexpected_code_is_passed_on(exit_code: i32, expected_exit_code: Option<i32>)
    requires
        exit_code != success_code(expected_exit_code),
    ensures
        verdict_on_outcome(Outcome::Completed(exit_code), expected_exit_code) == Verdict::Exit(
            exit_code,
        ),
        verdict_on_outcome(Outcome::Completed(exit_code), expected_exit_code).exit_status()
            == exit_code,
{
}

/// A run that timed out fails the invocation whatever exit code was expected,
/// and the invocation's exit status is not zero.
pub proof fn law_timeout_fails(expected_exit_code: Option<i32>)
    ensures
        verdict_on_outcome(Outcome::TimedOut, expected_exit_code) == Verdict::Fail(
            Failure::Timeout,
        ),
        verdict_on_outcome(Outcome::TimedOut, expected_exit_code).exit_status() != 0,
{
}

/// In run mode every exit code passes.
pub proof fn law_run_mode_ignores_exit_code(exit_code: i32, expected_exit_code: Option<i32>)
    ensures
        verdict_on_exit(Mode::Run, exit_code, expected_exit_code) == Verdict::Pass,
{
}

/// The error texts tell the stages apart: two failures with the same text are
/// the same failure.
pub proof fn law_messages_are_distinct(a: Failure, b: Failure)
    requires
        a.message_text() == b.message_text(),
    ensures
        a == b,
{
    reveal_strlit("QEMU system-x86_64 failed");
    reveal_strlit("Failed to wait with timeout");
    reveal_strlit("Test timed out");
    reveal_strlit("Failed to kill QEMU");
    let launch = "QEMU system-x86_64 failed"@;
    let wait = "Failed to wait with timeout"@;
    let timeout = "Test timed out"@;
    let cleanup = "Failed to kill QEMU"@;
    assert(launch.len() == 25 && wait.len() == 27 && timeout.len() == 14 && cleanup.len() == 19);
}

} // verus!
