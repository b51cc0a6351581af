//! Pairing with the device and validating the pairing, through `idevicepair`.

use crate::common::command::{Captured, Invocation, InvocationView};
use crate::common::text::{contains, has_substring, lossy_text, lossy_text_of};
use vstd::prelude::*;
use vstd::string::StringExecFns;
use vstd::utf8::{decode_utf8, valid_utf8};

verus! {

/// Why pairing or validation failed.
#[derive(Debug)]
pub enum PairingError {
    /// The command could not be run.
    Io(std::io::Error),
    /// The command ran and reported an error; the text is its report.
    CommandError(String),
}

/// The command that runs the subcommand `command` of `idevicepair`.
pub open spec fn idevice_invocation(command: Seq<char>) -> InvocationView {
    InvocationView { program: "idevicepair"@, args: seq![command] }
}

/// What readable output means: it is the result, and an error where it holds
/// the word `ERROR`.
pub open spec fn report_outcome(report: Seq<char>) -> Result<Seq<char>, Seq<char>> {
    if contains(report, "ERROR"@) {
        Err(report)
    } else {
        Ok(report)
    }
}

/// The error text for output that is no UTF-8, given the text of what the
/// command wrote to standard error.
pub open spec fn unreadable_text(complaint: Seq<char>) -> Seq<char> {
    "Non-UTF-8 output: "@ + complaint
}

/// What the output of the command means. Output that is UTF-8 is read as a
/// report. Other output is an error that quotes what the command wrote to
/// standard error.
pub open spec fn pairing_outcome(stdout: Seq<u8>, stderr: Seq<u8>) -> Result<Seq<char>, Seq<char>> {
    if valid_utf8(stdout) {
        report_outcome(decode_utf8(stdout))
    } else {
        Err(unreadable_text(lossy_text_of(stderr)))
    }
}

/// The command that runs the subcommand `command` of `idevicepair`.
pub fn idevice_command(command: &str) -> (invocation: Invocation)
    ensures
        invocation@ == idevice_invocation(command@),
{
    let invocation = Invocation::new("idevicepair").arg(command);
    assert(invocation@.args =~= idevice_invocation(command@).args);
    invocation
}

/// The command that pairs the device.
pub fn pair_command() -> (invocation: Invocation)
    ensures
        invocation@ == idevice_invocation("pair"@),
{
    idevice_command("pair")
}

/// The command that validates the pairing.
pub fn validate_command() -> (invocation: Invocation)
    ensures
        invocation@ == idevice_invocation("validate"@),
{
    idevice_command("validate")
}

/// Reads the result from a report of the command.
pub fn read_report(report: String) -> (result: Result<String, PairingError>)
    ensures
        match result {
            Ok(text) => report_outcome(report@) == Ok::<Seq<char>, Seq<char>>(text@),
            Err(PairingError::CommandError(text)) => report_outcome(report@) == Err::<
                Seq<char>,
                Seq<char>,
            >(text@),
            Err(PairingError::Io(_)) => false,
        },
{
    if has_substring(report.as_str(), "ERROR") {
        Err(PairingError::CommandError(report))
    } else {
        Ok(report)
    }
}

/// The error for output that is no UTF-8, given the text of what the command
/// wrote to standard error.
pub fn unreadable_output(complaint: &str) -> (error: PairingError)
    ensures
        error matches PairingError::CommandError(text) && text@ == unreadable_text(complaint@),
{
    let mut text = String::from_str("Non-UTF-8 output: ");
    text.append(complaint);
    PairingError::CommandError(text)
}

/// Reads the result from what the command wrote.
pub fn read_output(stdout: Vec<u8>, stderr: &Vec<u8>) -> (result: Result<String, PairingError>)
    ensures
        match result {
            Ok(text) => pairing_outcome(stdout@, stderr@) == Ok::<Seq<char>, Seq<char>>(text@),
            Err(PairingError::CommandError(text)) => pairing_outcome(stdout@, stderr@) == Err::<
                Seq<char>,
                Seq<char>,
            >(text@),
            Err(PairingError::Io(_)) => false,
        },
{
    match String::from_utf8(stdout) {
        Ok(report) => read_report(report),
        Err(_) => Err(unreadable_output(lossy_text(stderr.as_slice()).as_str())),
    }
}

/// The result of an `idevicepair` subcommand, given how running the command
/// went: an error where the command could not be run, otherwise what its
/// output says, whatever its exit status.
pub fn execute_idevice_command(run: Result<Captured, std::io::Error>) -> (result: Result<
    String,
    PairingError,
>)
    ensures
        match run {
            Err(error) => result == Err::<String, PairingError>(PairingError::Io(error)),
            Ok(captured) => match result {
                Ok(text) => pairing_outcome(captured.stdout@, captured.stderr@) == Ok::<
                    Seq<char>,
                    Seq<char>,
                >(text@),
                Err(PairingError::CommandError(text)) => pairing_outcome(
                    captured.stdout@,
                    captured.stderr@,
                ) == Err::<Seq<char>, Seq<char>>(text@),
                Err(PairingError::Io(_)) => false,
            },
        },
{
    match run {
        Ok(captured) => read_output(captured.stdout, &captured.stderr),
        Err(error) => Err(PairingError::Io(error)),
    }
}

/// The result of pairing, given how running [`pair_command`] went.
pub fn pair_device(run: Result<Captured, std::io::Error>) -> (result: Result<String, PairingError>)
    ensures
        match run {
            Err(error) => result == Err::<String, PairingError>(PairingError::Io(error)),
            Ok(captured) => match result {
                Ok(text) => pairing_outcome(captured.stdout@, captured.stderr@) == Ok::<
                    Seq<char>,
                    Seq<char>,
                >(text@),
                Err(PairingError::CommandError(text)) => pairing_outcome(
                    captured.stdout@,
                    captured.stderr@,
                ) == Err::<Seq<char>, Seq<char>>(text@),
                Err(PairingError::Io(_)) => false,
            },
        },
{
    execute_idevice_command(run)
}

/// The result of validating the pairing, given how running
/// [`validate_command`] went.
pub fn validate_device(run: Result<Captured, std::io::Error>) -> (result: Result<
    String,
    PairingError,
>)
    ensures
        match run {
            Err(error) => result == Err::<String, PairingError>(PairingError::Io(error)),
            Ok(captured) => match result {
                Ok(text) => pairing_outcome(captured.stdout@, captured.stderr@) == Ok::<
                    Seq<char>,
                    Seq<char>,
                >(text@),
                Err(PairingError::CommandError(text)) => pairing_outcome(
                    captured.stdout@,
                    captured.stderr@,
                ) == Err::<Seq<char>, Seq<char>>(text@),
                Err(PairingError::Io(_)) => false,
            },
        },
{
    execute_idevice_command(run)
}

} // verus!
