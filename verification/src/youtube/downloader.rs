//! The download task: the command that fetches one song as audio, and what
//! the end of that process means for the song.

use crate::common::command::{Invocation, InvocationView};
use crate::common::text::{decimal, decimal_of};
use crate::youtube::song::{Song, SongView};
use vstd::prelude::*;
use vstd::string::StringExecFns;

verus! {

/// How the attempt to run the downloader ended.
#[derive(Debug)]
pub enum ProcessEnd {
    /// The process could not be started; the text says why.
    SpawnFailed(String),
    /// Waiting for the process failed; the text says why.
    WaitFailed(String),
    /// The process ran and exited, with this exit code where it has one.
    Exited { success: bool, code: Option<i32> },
}

/// The argument that hands artist and title to the post-processor.
pub open spec fn metadata_argument(song: SongView) -> Seq<char> {
    "ffmpeg:-metadata artist='"@ + song.artist + "' -metadata title='"@ + song.name + "'"@
}

/// The command that downloads `song` as an mp3 file named by its title into
/// the directory `directory`, which is used as a prefix as it stands.
pub open spec fn download_invocation(song: SongView, directory: Seq<char>) -> InvocationView {
    InvocationView {
        program: "yt-dlp"@,
        args: seq![
            "-x"@,
            "-f"@,
            "bestaudio"@,
            "--extract-audio"@,
            "--audio-format"@,
            "mp3"@,
            "--postprocessor-args"@,
            metadata_argument(song),
            "-o"@,
            directory + song.name,
            song.url,
        ],
    }
}

/// The error text for a downloader that exited without success.
pub open spec fn failure_text(code: Option<i32>) -> Seq<char> {
    "Download failed with status: "@ + decimal_of(
        match code {
            Some(code) => code as int,
            None => -1,
        },
    )
}

/// What the end of the process means: success only where the process ran and
/// reported success; otherwise the error text.
pub open spec fn download_outcome(end: ProcessEnd) -> Result<(), Seq<char>> {
    match end {
        ProcessEnd::SpawnFailed(reason) => Err("Failed to spawn process: "@ + reason@),
        ProcessEnd::WaitFailed(reason) => Err("Process failed unexpectedly: "@ + reason@),
        ProcessEnd::Exited { success, code } => if success {
            Ok(())
        } else {
            Err(failure_text(code))
        },
    }
}

/// The command that downloads `song` into `directory`.
pub fn download_command(song: &Song, directory: &str) -> (command: Invocation)
    ensures
        command@ == download_invocation(song@, directory@),
{
    let mut metadata = String::from_str("ffmpeg:-metadata artist='");
    metadata.append(song.artist.as_str());
    metadata.append("' -metadata title='");
    metadata.append(song.name.as_str());
    metadata.append("'");
    let mut target = String::from_str(directory);
    target.append(song.name.as_str());
    let command = Invocation::new("yt-dlp").arg("-x").arg("-f").arg("bestaudio").arg(
        "--extract-audio",
    ).arg("--audio-format").arg("mp3").arg("--postprocessor-args").arg(metadata.as_str()).arg(
        "-o",
    ).arg(target.as_str()).arg(song.url.as_str());
    assert(command@.args =~= download_invocation(song@, directory@).args);
    command
}

/// Whether the download succeeded, and the error text where it did not.
pub fn download_song(end: &ProcessEnd) -> (result: Result<(), String>)
    ensures
        match result {
            Ok(()) => download_outcome(*end) == Ok::<(), Seq<char>>(()),
            Err(text) => download_outcome(*end) == Err::<(), Seq<char>>(text@),
        },
{
    match end {
        ProcessEnd::SpawnFailed(reason) => {
            let mut text = String::from_str("Failed to spawn process: ");
            text.append(reason.as_str());
            Err(text)
        },
        ProcessEnd::WaitFailed(reason) => {
            let mut text = String::from_str("Process failed unexpectedly: ");
            text.append(reason.as_str());
            Err(text)
        },
        ProcessEnd::Exited { success, code } => {
            if *success {
                Ok(())
            } else {
                let number = match code {
                    Some(code) => *code,
                    None => -1,
                };
                let mut text = String::from_str("Download failed with status: ");
                text.append(decimal(number).as_str());
                Err(text)
            }
        },
    }
}

} // verus!
