//! Mounting the documents of an app on the device, and unmounting them.

use crate::common::command::{Captured, Invocation, InvocationView};
use vstd::prelude::*;
use vstd::string::StringExecFns;

verus! {

/// Why mounting or unmounting failed.
#[derive(Debug)]
pub enum MountingError {
    /// The command could not be run.
    Io(std::io::Error),
}

/// The command that mounts the documents of the app `bundle_id` at `mountpoint`.
pub open spec fn mount_invocation(bundle_id: Seq<char>, mountpoint: Seq<char>) -> InvocationView {
    InvocationView { program: "ifuse"@, args: seq!["--documents"@, bundle_id, mountpoint] }
}

/// The command that unmounts what is mounted at `mountpoint`.
pub open spec fn unmount_invocation(mountpoint: Seq<char>) -> InvocationView {
    InvocationView { program: "fusermount"@, args: seq!["-u"@, mountpoint] }
}

/// The report of a mount.
pub open spec fn mount_message(bundle_id: Seq<char>, mountpoint: Seq<char>) -> Seq<char> {
    "Mounting "@ + bundle_id + " "@ + mountpoint + " ✅"@
}

/// The report of an unmount.
pub open spec fn unmount_message(mountpoint: Seq<char>) -> Seq<char> {
    "Unmounting "@ + mountpoint + " ✅"@
}

/// The command that mounts the documents of the app `bundle_id` at `mountpoint`.
pub fn mount_command(bundle_id: &str, mountpoint: &str) -> (command: Invocation)
    ensures
        command@ == mount_invocation(bundle_id@, mountpoint@),
{
    let command = Invocation::new("ifuse").arg("--documents").arg(bundle_id).arg(mountpoint);
    assert(command@.args =~= mount_invocation(bundle_id@, mountpoint@).args);
    command
}

/// The command that unmounts what is mounted at `mountpoint`.
pub fn unmount_command(mountpoint: &str) -> (command: Invocation)
    ensures
        command@ == unmount_invocation(mountpoint@),
{
    let command = Invocation::new("fusermount").arg("-u").arg(mountpoint);
    assert(command@.args =~= unmount_invocation(mountpoint@).args);
    command
}

/// The result of mounting, given how running the command went: the report
/// where the command ran, whatever it wrote and however it exited, and
/// the error where it could not be run.
pub fn mount_app(bundle_id: &str, mountpoint: &str, run: Result<Captured, std::io::Error>) -> (result:
    Result<String, MountingError>)
    ensures
        match run {
            Ok(_) => result matches Ok(text) && text@ == mount_message(bundle_id@, mountpoint@),
            Err(error) => result == Err::<String, MountingError>(MountingError::Io(error)),
        },
{
    match run {
        Ok(_) => {
            let mut text = String::from_str("Mounting ");
            text.append(bundle_id);
            text.append(" ");
            text.append(mountpoint);
            text.append(" ✅");
            Ok(text)
        },
        Err(error) => Err(MountingError::Io(error)),
    }
}

/// The result of unmounting, given how running the command went: the report
/// where the command ran, and the error where it could not be run.
pub fn unmount(mountpoint: &str, run: Result<Captured, std::io::Error>) -> (result: Result<
    String,
    MountingError,
>)
    ensures
        match run {
            Ok(_) => result matches Ok(text) && text@ == unmount_message(mountpoint@),
            Err(error) => result == Err::<String, MountingError>(MountingError::Io(error)),
        },
{
    match run {
        Ok(_) => {
            let mut text = String::from_str("Unmounting ");
            text.append(mountpoint);
            text.append(" ✅");
            Ok(text)
        },
        Err(error) => Err(MountingError::Io(error)),
    }
}

} // verus!
