//! The state of the `usbmuxd` service, as `systemctl` reports it.

use crate::common::command::{Captured, Invocation, InvocationView};
use crate::common::text::{same_text, trim, trimmed};
use vstd::prelude::*;
use vstd::utf8::{decode_utf8, valid_utf8};

verus! {

/// Why the state of the service could not be asked for.
#[derive(Debug)]
pub enum UsbMuxdError {
    /// The process could not be run to its end.
    WaitError(std::io::Error),
    /// The output was no UTF-8.
    Utf8Error(std::string::FromUtf8Error),
}

/// Whether the service runs.
#[derive(Clone, Copy, Debug, PartialEq, Eq, Structural)]
pub enum UsbmuxdStatus {
    Running,
    Stopped,
}

/// The command that asks for the state of the service.
pub open spec fn status_invocation() -> InvocationView {
    InvocationView { program: "systemctl"@, args: seq!["is-active"@, "usbmuxd.service"@] }
}

/// What the answer of `systemctl` means: the service runs exactly where the
/// answer is the word `active`.
pub open spec fn status_of_answer(answer: Seq<char>) -> UsbmuxdStatus {
    if answer == "active"@ {
        UsbmuxdStatus::Running
    } else {
        UsbmuxdStatus::Stopped
    }
}

/// What the output of the command means: the answer is the output without
/// the white space around it; output that is no UTF-8 means that the service
/// does not run.
pub open spec fn status_of(stdout: Seq<u8>) -> UsbmuxdStatus {
    if valid_utf8(stdout) {
        status_of_answer(trimmed(decode_utf8(stdout)))
    } else {
        UsbmuxdStatus::Stopped
    }
}

/// The command that asks for the state of the service.
pub fn status_command() -> (command: Invocation)
    ensures
        command@ == status_invocation(),
{
    let command = Invocation::new("systemctl").arg("is-active").arg("usbmuxd.service");
    assert(command@.args =~= status_invocation().args);
    command
}

/// Reads the state of the service from the answer of `systemctl`, which is
/// its output without the white space around it.
pub fn status_from_answer(answer: &str) -> (status: UsbmuxdStatus)
    ensures
        status == status_of_answer(answer@),
{
    if same_text(answer, "active") {
        UsbmuxdStatus::Running
    } else {
        UsbmuxdStatus::Stopped
    }
}

/// Reads the state of the service from the output of the command.
pub fn status_from_output(stdout: Vec<u8>) -> (status: UsbmuxdStatus)
    ensures
        status == status_of(stdout@),
{
    match String::from_utf8(stdout) {
        Ok(text) => status_from_answer(trim(text.as_str())),
        Err(_) => UsbmuxdStatus::Stopped,
    }
}

/// The state of the service, given how running the command went: an error
/// where the command could not be run, otherwise what its output says,
/// whatever its exit status.
pub fn check_usbmuxd_service_status(run: Result<Captured, std::io::Error>) -> (status: Result<
    UsbmuxdStatus,
    UsbMuxdError,
>)
    ensures
        match run {
            Ok(captured) => status == Ok::<UsbmuxdStatus, UsbMuxdError>(
                status_of(captured.stdout@),
            ),
            Err(error) => status == Err::<UsbmuxdStatus, UsbMuxdError>(
                UsbMuxdError::WaitError(error),
            ),
        },
{
    match run {
        Ok(captured) => Ok(status_from_output(captured.stdout)),
        Err(error) => Err(UsbMuxdError::WaitError(error)),
    }
}

} // verus!
