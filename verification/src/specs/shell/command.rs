//! Reading the outcome of a command that was run.
use vstd::prelude::*;
use crate::text::copy_string;

verus! {

/// What became of running a command line.
#[derive(Debug)]
pub enum Outcome {
    /// The process exited with `code`, having written `stderr`.
    Exited { code: i32, stderr: String },
    /// The process was ended by a signal, having written `stderr`.
    Signaled { stderr: String },
    /// The process could not be started.
    NotStarted { reason: String },
}

/// Why a command is taken to have failed.
#[derive(Debug)]
pub enum CommandError {
    /// The process could not be started.
    NotStarted { reason: String },
    /// The process exited with a non-zero `code`.
    Status { code: i32, stderr: String },
    /// The process was ended by a signal.
    Signal { stderr: String },
}

/// A process exits successfully when its exit code is zero.
pub open spec fn exited_successfully(o: Outcome) -> bool {
    o matches Outcome::Exited { code, .. } && code == 0
}

/// The error that `call` reports for the outcome `o`, when there is one.
pub open spec fn outcome_error(o: Outcome) -> Option<CommandError> {
    match o {
        Outcome::Exited { code, stderr } => if code == 0 {
            None
        } else {
            Some(CommandError::Status { code, stderr })
        },
        Outcome::Signaled { stderr } => Some(CommandError::Signal { stderr }),
        Outcome::NotStarted { reason } => Some(CommandError::NotStarted { reason }),
    }
}

/// Two errors that carry the same values.
pub open spec fn same_error(a: CommandError, b: CommandError) -> bool {
    match (a, b) {
        (CommandError::NotStarted { reason: x }, CommandError::NotStarted { reason: y }) => x@ == y@,
        (CommandError::Status { code: c, stderr: x }, CommandError::Status { code: d, stderr: y }) => c == d && x@ == y@,
        (CommandError::Signal { stderr: x }, CommandError::Signal { stderr: y }) => x@ == y@,
        _ => false,
    }
}

/// A command is run for its effect: it succeeds when it exits with code
/// zero, and fails otherwise with the exit code or signal and its stderr.
pub fn call(outcome: &Outcome) -> (r: Result<(), CommandError>)
    ensures
        match outcome_error(*outcome) {
            None => r is Ok,
            Some(e) => r matches Err(f) && same_error(f, e),
        },
{
    match outcome {
        Outcome::Exited { code, stderr } => if *code == 0 {
            Ok(())
        } else {
            Err(CommandError::Status { code: *code, stderr: copy_string(stderr) })
        },
        Outcome::Signaled { stderr } => Err(CommandError::Signal { stderr: copy_string(stderr) }),
        Outcome::NotStarted { reason } => Err(CommandError::NotStarted { reason: copy_string(reason) }),
    }
}

/// A command is run for its answer: `true` when it exits with code zero,
/// `false` when it exits otherwise or is ended by a signal; it fails only
/// when it could not be started.
pub fn call_bool(outcome: &Outcome) -> (r: Result<bool, CommandError>)
    ensures
        match *outcome {
            Outcome::NotStarted { reason } => r matches Err(CommandError::NotStarted { reason: f }) && f@ == reason@,
            _ => r == Ok::<bool, CommandError>(exited_successfully(*outcome)),
        },
{
    match outcome {
        Outcome::Exited { code, .. } => Ok(*code == 0),
        Outcome::Signaled { .. } => Ok(false),
        Outcome::NotStarted { reason } => Err(CommandError::NotStarted { reason: copy_string(reason) }),
    }
}

/// A command that succeeds when run for its effect answers `true` when run
/// for its answer, and one that fails answers `false` unless it could not be started.
pub proof fn law_call_agrees_with_call_bool(o: Outcome)
    ensures
        (outcome_error(o) is None) == exited_successfully(o),
        !(o is NotStarted) ==> (outcome_error(o) is Some <==> !exited_successfully(o)),
{
}

} // verus!
