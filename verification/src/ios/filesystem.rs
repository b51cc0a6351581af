//! Moving the downloaded files onto the mounted device, one `mv` per file.
//!
//! A [`Transfer`] keeps the names of the files moved so far. Its driver walks
//! the download directory, runs the command that the transfer gives for each
//! entry, and tells the transfer how it went; the first failure ends the walk.

use crate::common::command::{Captured, Invocation, InvocationView};
use crate::common::text::{digits, digits_of, line_views, lossy_text, lossy_text_of};
use vstd::prelude::*;
use vstd::string::StringExecFns;

verus! {

/// Why the transfer failed.
#[derive(Debug)]
pub enum FileSystemError {
    /// The directory could not be read or the command could not be run.
    Io(std::io::Error),
    /// The command ran and failed to move the file at `path`; `message` is
    /// what it wrote to standard error.
    MoveError { path: String, message: String },
}

/// What `{:?}` writes for a list of strings: the strings in quotes, with the
/// escapes of `str`'s `Debug`, between brackets and with commas between them.
/// Which characters are escaped is std's rule and is not written out here.
pub uninterp spec fn debug_list_of(names: Seq<Seq<char>>) -> Seq<char>;

/// Formats `names` with `{:?}`. The result is a function of the strings alone,
/// named [`debug_list_of`].
#[verifier::external_body]
fn debug_list(names: &Vec<String>) -> (text: String)
    ensures
        text@ == debug_list_of(line_views(names@)),
{
    format!("{:?}", names)
}

/// The mathematical value of a [`Transfer`].
pub struct TransferView {
    /// Where the device is mounted.
    pub mountpoint: Seq<char>,
    /// The names of the files moved so far, in the order they were moved.
    pub moved: Seq<Seq<char>>,
}

/// The command that moves the file at `path` to `mountpoint`.
pub open spec fn move_invocation(path: Seq<char>, mountpoint: Seq<char>) -> InvocationView {
    InvocationView { program: "mv"@, args: seq![path, mountpoint] }
}

impl TransferView {
    /// The report of a transfer, given the list of the moved files as text.
    pub open spec fn report_with(self, list: Seq<char>) -> Seq<char> {
        "Moved "@ + digits_of(self.moved.len()) + " files to "@ + self.mountpoint + " ✅: "@ + list
    }

    /// The report of a transfer that has come to its end.
    pub open spec fn report(self) -> Seq<char> {
        self.report_with(debug_list_of(self.moved))
    }
}

/// A transfer in progress.
pub struct Transfer {
    mountpoint: String,
    moved: Vec<String>,
}

impl View for Transfer {
    type V = TransferView;

    closed spec fn view(&self) -> TransferView {
        TransferView { mountpoint: self.mountpoint@, moved: line_views(self.moved@) }
    }
}

impl Transfer {
    /// Starts a transfer to `mountpoint`. Nothing is moved yet.
    pub fn new(mountpoint: &str) -> (transfer: Self)
        ensures
            transfer@ == (TransferView { mountpoint: mountpoint@, moved: Seq::empty() }),
    {
        let transfer = Transfer { mountpoint: String::from_str(mountpoint), moved: Vec::new() };
        assert(transfer@.moved =~= Seq::<Seq<char>>::empty());
        transfer
    }

    /// The command to run for a directory entry: a file is moved, anything
    /// else is left where it is.
    pub fn move_command(&self, path: &str, is_file: bool) -> (command: Option<Invocation>)
        ensures
            match command {
                Some(command) => is_file && command@ == move_invocation(path@, self@.mountpoint),
                None => !is_file,
            },
    {
        if is_file {
            let command = Invocation::new("mv").arg(path).arg(self.mountpoint.as_str());
            assert(command@.args =~= move_invocation(path@, self@.mountpoint).args);
            Some(command)
        } else {
            None
        }
    }

    /// Takes note of how moving the file at `path`, named `file_name`, went.
    /// A file that was moved is added to the list. A command that could not
    /// be run or that failed is an error, and the list stays as it is.
    pub fn note(&mut self, path: &str, file_name: &str, run: Result<Captured, std::io::Error>) -> (result:
        Result<(), FileSystemError>)
        ensures
            final(self)@.mountpoint == old(self)@.mountpoint,
            match run {
                Err(error) => {
                    &&& result == Err::<(), FileSystemError>(FileSystemError::Io(error))
                    &&& final(self)@ == old(self)@
                },
                Ok(captured) => if captured.success {
                    &&& result is Ok
                    &&& final(self)@.moved == old(self)@.moved.push(file_name@)
                } else {
                    &&& result matches Err(FileSystemError::MoveError { path: failed, message })
                    &&& failed@ == path@
                    &&& message@ == lossy_text_of(captured.stderr@)
                    &&& final(self)@ == old(self)@
                },
            },
    {
        match run {
            Err(error) => Err(FileSystemError::Io(error)),
            Ok(captured) => {
                if captured.success {
                    let ghost before = self@.moved;
                    self.moved.push(String::from_str(file_name));
                    assert(self@.moved =~= before.push(file_name@));
                    Ok(())
                } else {
                    Err(
                        FileSystemError::MoveError {
                            path: String::from_str(path),
                            message: lossy_text(captured.stderr.as_slice()),
                        },
                    )
                }
            },
        }
    }

    /// How many files have been moved.
    pub fn moved_count(&self) -> (count: usize)
        ensures
            count == self@.moved.len(),
    {
        self.moved.len()
    }

    /// The report of the transfer, given the list of the moved files as text:
    /// how many files were moved, where to, and the list.
    pub fn report_with(&self, list: &str) -> (text: String)
        ensures
            text@ == self@.report_with(list@),
    {
        let mut text = String::from_str("Moved ");
        text.append(digits(self.moved.len() as u64).as_str());
        text.append(" files to ");
        text.append(self.mountpoint.as_str());
        text.append(" ✅: ");
        text.append(list);
        text
    }

    /// The report of the transfer: how many files were moved, where to, and
    /// their names as `{:?}` lists them.
    pub fn report(&self) -> (text: String)
        ensures
            text@ == self@.report(),
    {
        self.report_with(debug_list(&self.moved).as_str())
    }
}

} // verus!
