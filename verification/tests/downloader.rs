use song_sync::common::command::Invocation;
use song_sync::common::constants::download_path;
use song_sync::youtube::downloader::{download_command, download_song, ProcessEnd};
use song_sync::youtube::song::Song;

#[test]
fn download_command_names_the_downloader_and_its_arguments() {
    let song = Song::new(
        "https://youtu.be/abc".to_string(),
        "The Artist".to_string(),
        "The Title".to_string(),
    );
    let command = download_command(&song, "/home/user/Music/DLP/");
    assert_eq!(command.program, "yt-dlp");
    assert_eq!(
        command.args,
        vec![
            "-x",
            "-f",
            "bestaudio",
            "--extract-audio",
            "--audio-format",
            "mp3",
            "--postprocessor-args",
            "ffmpeg:-metadata artist='The Artist' -metadata title='The Title'",
            "-o",
            "/home/user/Music/DLP/The Title",
            "https://youtu.be/abc",
        ]
    );
}

#[test]
fn download_command_uses_the_directory_as_a_prefix() {
    let song = Song::new("u".to_string(), "".to_string(), "n".to_string());
    let command = download_command(&song, "dir");
    assert_eq!(command.args[7], "ffmpeg:-metadata artist='' -metadata title='n'");
    assert_eq!(command.args[9], "dirn");
    let command = download_command(&song, &download_path(Some("/home/me")));
    assert_eq!(command.args[9], "/home/me/Music/DLP/n");
}

#[test]
fn invocation_collects_arguments_in_order() {
    let command = Invocation::new("tool").arg("a").arg("").arg("c d");
    assert_eq!(command.program, "tool");
    assert_eq!(command.args, vec!["a", "", "c d"]);
    assert!(Invocation::new("tool").args.is_empty());
}

#[test]
fn successful_exit_is_success() {
    assert_eq!(download_song(&ProcessEnd::Exited { success: true, code: Some(0) }), Ok(()));
}

#[test]
fn failed_exit_reports_the_code() {
    assert_eq!(
        download_song(&ProcessEnd::Exited { success: false, code: Some(1) }),
        Err("Download failed with status: 1".to_string())
    );
    assert_eq!(
        download_song(&ProcessEnd::Exited { success: false, code: Some(127) }),
        Err("Download failed with status: 127".to_string())
    );
    assert_eq!(
        download_song(&ProcessEnd::Exited { success: false, code: Some(-15) }),
        Err("Download failed with status: -15".to_string())
    );
}

#[test]
fn exit_without_code_reports_minus_one() {
    assert_eq!(
        download_song(&ProcessEnd::Exited { success: false, code: None }),
        Err("Download failed with status: -1".to_string())
    );
}

#[test]
fn spawn_failure_is_failure() {
    assert_eq!(
        download_song(&ProcessEnd::SpawnFailed("No such file or directory (os error 2)".to_string())),
        Err("Failed to spawn process: No such file or directory (os error 2)".to_string())
    );
}

#[test]
fn wait_failure_is_failure() {
    assert_eq!(
        download_song(&ProcessEnd::WaitFailed("interrupted".to_string())),
        Err("Process failed unexpectedly: interrupted".to_string())
    );
}
