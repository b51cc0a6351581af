use song_sync::common::command::Captured;
use song_sync::ios::filesystem::{FileSystemError, Transfer};
use song_sync::ios::mounting::{
    mount_app, mount_command, unmount, unmount_command, MountingError,
};
use song_sync::ios::pairing::{
    execute_idevice_command, idevice_command, pair_command, pair_device, read_output, read_report,
    unreadable_output, validate_command, validate_device, PairingError,
};
use song_sync::ios::service::{
    check_usbmuxd_service_status, status_command, status_from_answer, status_from_output,
    UsbMuxdError, UsbmuxdStatus,
};
use std::io::{Error, ErrorKind};

fn captured(success: bool, stdout: &[u8], stderr: &[u8]) -> Captured {
    Captured { success, stdout: stdout.to_vec(), stderr: stderr.to_vec() }
}

fn failure() -> Error {
    Error::new(ErrorKind::NotFound, "no such program")
}

#[test]
fn status_command_asks_systemctl() {
    let command = status_command();
    assert_eq!(command.program, "systemctl");
    assert_eq!(command.args, vec!["is-active", "usbmuxd.service"]);
}

#[test]
fn active_means_running() {
    assert_eq!(status_from_output(b"active\n".to_vec()), UsbmuxdStatus::Running);
    assert_eq!(status_from_output(b"  active  ".to_vec()), UsbmuxdStatus::Running);
    assert_eq!(status_from_output(b"active".to_vec()), UsbmuxdStatus::Running);
    assert_eq!(status_from_answer("active"), UsbmuxdStatus::Running);
}

#[test]
fn anything_else_means_stopped() {
    assert_eq!(status_from_output(b"inactive\n".to_vec()), UsbmuxdStatus::Stopped);
    assert_eq!(status_from_output(b"activating\n".to_vec()), UsbmuxdStatus::Stopped);
    assert_eq!(status_from_output(b"Active\n".to_vec()), UsbmuxdStatus::Stopped);
    assert_eq!(status_from_output(b"".to_vec()), UsbmuxdStatus::Stopped);
    assert_eq!(status_from_output(b"act ive".to_vec()), UsbmuxdStatus::Stopped);
    assert_eq!(status_from_answer("active\n"), UsbmuxdStatus::Stopped);
    assert_eq!(status_from_answer(""), UsbmuxdStatus::Stopped);
}

#[test]
fn output_that_is_no_utf8_means_stopped() {
    assert_eq!(status_from_output(vec![0xff, 0xfe]), UsbmuxdStatus::Stopped);
    assert_eq!(status_from_output(b"active\xff".to_vec()), UsbmuxdStatus::Stopped);
    assert_eq!(status_from_output(vec![0xc3]), UsbmuxdStatus::Stopped);
}

#[test]
fn service_status_goes_by_the_output_not_the_exit_status() {
    assert!(matches!(
        check_usbmuxd_service_status(Ok(captured(false, b"active\n", b""))),
        Ok(UsbmuxdStatus::Running)
    ));
    assert!(matches!(
        check_usbmuxd_service_status(Ok(captured(true, b"failed\n", b""))),
        Ok(UsbmuxdStatus::Stopped)
    ));
}

#[test]
fn service_status_passes_the_error_on() {
    match check_usbmuxd_service_status(Err(failure())) {
        Err(UsbMuxdError::WaitError(error)) => {
            assert_eq!(error.kind(), ErrorKind::NotFound);
            assert_eq!(error.to_string(), "no such program");
        }
        other => panic!("unexpected: {:?}", other),
    }
}

#[test]
fn pairing_commands() {
    assert_eq!(pair_command().program, "idevicepair");
    assert_eq!(pair_command().args, vec!["pair"]);
    assert_eq!(validate_command().program, "idevicepair");
    assert_eq!(validate_command().args, vec!["validate"]);
    assert_eq!(idevice_command("list").args, vec!["list"]);
}

#[test]
fn report_without_error_is_the_result() {
    match read_report("SUCCESS: Paired with device 123\n".to_string()) {
        Ok(text) => assert_eq!(text, "SUCCESS: Paired with device 123\n"),
        other => panic!("unexpected: {:?}", other),
    }
    assert!(matches!(read_report(String::new()), Ok(text) if text.is_empty()));
    assert!(matches!(read_report("error".to_string()), Ok(text) if text == "error"));
}

#[test]
fn report_with_error_is_a_command_error() {
    match read_report("ERROR: No device found\n".to_string()) {
        Err(PairingError::CommandError(text)) => assert_eq!(text, "ERROR: No device found\n"),
        other => panic!("unexpected: {:?}", other),
    }
    assert!(matches!(
        read_report("some ERROR inside".to_string()),
        Err(PairingError::CommandError(text)) if text == "some ERROR inside"
    ));
}

#[test]
fn unreadable_output_quotes_standard_error() {
    match unreadable_output("it broke") {
        PairingError::CommandError(text) => assert_eq!(text, "Non-UTF-8 output: it broke"),
        other => panic!("unexpected: {:?}", other),
    }
    match read_output(vec![0xff], &b"it broke".to_vec()) {
        Err(PairingError::CommandError(text)) => assert_eq!(text, "Non-UTF-8 output: it broke"),
        other => panic!("unexpected: {:?}", other),
    }
}

#[test]
fn unreadable_standard_error_is_quoted_with_replacements() {
    match read_output(vec![0x80], &vec![b'a', 0xff, b'b']) {
        Err(PairingError::CommandError(text)) => {
            assert_eq!(text, "Non-UTF-8 output: a\u{fffd}b")
        }
        other => panic!("unexpected: {:?}", other),
    }
}

#[test]
fn pairing_result_reads_the_output() {
    assert!(matches!(
        execute_idevice_command(Ok(captured(true, b"SUCCESS", b""))),
        Ok(text) if text == "SUCCESS"
    ));
    assert!(matches!(
        execute_idevice_command(Ok(captured(true, b"ERROR", b"ignored"))),
        Err(PairingError::CommandError(text)) if text == "ERROR"
    ));
    assert!(matches!(
        execute_idevice_command(Ok(captured(false, b"fine", b""))),
        Ok(text) if text == "fine"
    ));
    assert!(matches!(
        execute_idevice_command(Ok(captured(true, &[0xc0], b"bad"))),
        Err(PairingError::CommandError(text)) if text == "Non-UTF-8 output: bad"
    ));
}

#[test]
fn pairing_result_passes_the_error_on() {
    match execute_idevice_command(Err(failure())) {
        Err(PairingError::Io(error)) => assert_eq!(error.kind(), ErrorKind::NotFound),
        other => panic!("unexpected: {:?}", other),
    }
}

#[test]
fn pairing_and_validating_read_the_output_alike() {
    assert!(matches!(pair_device(Ok(captured(true, b"SUCCESS: Paired", b""))), Ok(text) if text == "SUCCESS: Paired"));
    assert!(matches!(
        validate_device(Ok(captured(true, b"ERROR: not paired", b""))),
        Err(PairingError::CommandError(text)) if text == "ERROR: not paired"
    ));
    assert!(matches!(pair_device(Err(failure())), Err(PairingError::Io(_))));
    assert!(matches!(validate_device(Err(failure())), Err(PairingError::Io(_))));
}

#[test]
fn mounting_commands() {
    let command = mount_command("org.videolan.vlc-ios", "/home/user/VLC");
    assert_eq!(command.program, "ifuse");
    assert_eq!(command.args, vec!["--documents", "org.videolan.vlc-ios", "/home/user/VLC"]);
    let command = unmount_command("/home/user/VLC");
    assert_eq!(command.program, "fusermount");
    assert_eq!(command.args, vec!["-u", "/home/user/VLC"]);
}

#[test]
fn mounting_reports() {
    assert!(matches!(
        mount_app("org.videolan.vlc-ios", "/home/user/VLC", Ok(captured(true, b"", b""))),
        Ok(text) if text == "Mounting org.videolan.vlc-ios /home/user/VLC ✅"
    ));
    assert!(matches!(
        mount_app("app", "/mnt", Ok(captured(false, b"out", b"err"))),
        Ok(text) if text == "Mounting app /mnt ✅"
    ));
    assert!(matches!(
        unmount("/home/user/VLC", Ok(captured(true, b"", b""))),
        Ok(text) if text == "Unmounting /home/user/VLC ✅"
    ));
}

#[test]
fn mounting_passes_the_error_on() {
    match mount_app("app", "/mnt", Err(failure())) {
        Err(MountingError::Io(error)) => assert_eq!(error.kind(), ErrorKind::NotFound),
        other => panic!("unexpected: {:?}", other),
    }
    match unmount("/mnt", Err(failure())) {
        Err(MountingError::Io(error)) => assert_eq!(error.kind(), ErrorKind::NotFound),
        other => panic!("unexpected: {:?}", other),
    }
}

#[test]
fn only_files_are_moved() {
    let transfer = Transfer::new("/home/user/VLC");
    assert!(transfer.move_command("/music/dir", false).is_none());
    let command = transfer.move_command("/music/song.mp3", true).unwrap();
    assert_eq!(command.program, "mv");
    assert_eq!(command.args, vec!["/music/song.mp3", "/home/user/VLC"]);
}

#[test]
fn transfer_reports_what_was_moved() {
    let mut transfer = Transfer::new("/home/user/VLC");
    assert_eq!(transfer.report(), "Moved 0 files to /home/user/VLC ✅: []");
    assert!(transfer.note("/m/a.mp3", "a.mp3", Ok(captured(true, b"", b""))).is_ok());
    assert!(transfer.note("/m/b \"q\".mp3", "b \"q\".mp3", Ok(captured(true, b"", b""))).is_ok());
    assert_eq!(transfer.moved_count(), 2);
    assert_eq!(
        transfer.report(),
        "Moved 2 files to /home/user/VLC ✅: [\"a.mp3\", \"b \\\"q\\\".mp3\"]"
    );
    assert_eq!(transfer.report_with("<list>"), "Moved 2 files to /home/user/VLC ✅: <list>");
}

#[test]
fn transfer_report_counts_in_decimal() {
    let mut transfer = Transfer::new("/mnt");
    for i in 0..12 {
        let name = format!("{}.mp3", i);
        assert!(transfer.note(&format!("/m/{}", name), &name, Ok(captured(true, b"", b""))).is_ok());
    }
    assert!(transfer.report().starts_with("Moved 12 files to /mnt ✅: [\"0.mp3\", \"1.mp3\""));
}

#[test]
fn failed_move_is_an_error_and_moves_nothing() {
    let mut transfer = Transfer::new("/mnt");
    match transfer.note("/m/a.mp3", "a.mp3", Ok(captured(false, b"", b"mv: cannot move\n"))) {
        Err(FileSystemError::MoveError { path, message }) => {
            assert_eq!(path, "/m/a.mp3");
            assert_eq!(message, "mv: cannot move\n");
        }
        other => panic!("unexpected: {:?}", other),
    }
    assert_eq!(transfer.moved_count(), 0);
    match transfer.note("/m/a.mp3", "a.mp3", Ok(captured(false, b"", &[b'x', 0xff]))) {
        Err(FileSystemError::MoveError { message, .. }) => assert_eq!(message, "x\u{fffd}"),
        other => panic!("unexpected: {:?}", other),
    }
}

#[test]
fn move_that_could_not_run_is_an_error() {
    let mut transfer = Transfer::new("/mnt");
    match transfer.note("/m/a.mp3", "a.mp3", Err(failure())) {
        Err(FileSystemError::Io(error)) => assert_eq!(error.kind(), ErrorKind::NotFound),
        other => panic!("unexpected: {:?}", other),
    }
    assert_eq!(transfer.moved_count(), 0);
    assert_eq!(transfer.report(), "Moved 0 files to /mnt ✅: []");
}
