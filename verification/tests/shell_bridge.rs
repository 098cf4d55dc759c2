use mightty::shell::unix::{
    idle_read, next_shutdown_signal, read_step, reap_step, spawn_command, write_step, Errno,
    PtyError, ReadStep, ReapStep, ShutdownSignal, WriteStep,
};
use mightty::shell::windows::{
    application_name, bytes_to_read, close_wait_outcome, exited_from_wait, read_result,
    read_plan, size_to_coord, write_chunk, PtyError as WinPtyError, ReadPlan, WAIT_FAILED,
    WAIT_OBJECT_0, WAIT_TIMEOUT,
};
use mightty::keystroke::decimal;
use mightty::shell::{trim, trim_start, PtyRead, PtySize};

#[test]
fn unix_invalid_dimensions() {
    let result = spawn_command("/bin/sh", PtySize::new(0, 80));
    assert!(matches!(result, Err(PtyError::InvalidDimensions)));

    let result = spawn_command("/bin/sh", PtySize::new(24, 0));
    assert!(matches!(result, Err(PtyError::InvalidDimensions)));
}

#[test]
fn windows_invalid_dimensions() {
    let result = mightty::shell::windows::spawn_precheck(PtySize::new(0, 80), true);
    assert!(matches!(result, Err(WinPtyError::InvalidDimensions)));

    let result = mightty::shell::windows::spawn_precheck(PtySize::new(24, 0), true);
    assert!(matches!(result, Err(WinPtyError::InvalidDimensions)));
}

#[test]
fn sizes() {
    let s = PtySize::new(24, 80);
    assert_eq!((s.rows, s.cols), (24, 80));
    assert!(s.is_valid());
    assert!(!PtySize::new(0, 0).is_valid());
}

#[test]
fn spawn_command_trims_and_checks() {
    assert_eq!(spawn_command("  /bin/sh -i \n", PtySize::new(24, 80)).unwrap(), "exec /bin/sh -i");
    assert!(matches!(spawn_command(" \t ", PtySize::new(24, 80)), Err(PtyError::EmptyCommand)));
    assert!(matches!(
        spawn_command("echo a\0b", PtySize::new(24, 80)),
        Err(PtyError::CommandContainsNul)
    ));
    assert!(matches!(spawn_command("", PtySize::new(0, 80)), Err(PtyError::InvalidDimensions)));
}

#[test]
fn trimming_uses_unicode_white_space() {
    assert_eq!(trim("\u{3000} a b \u{a0}"), "a b");
    assert_eq!(trim_start("\n\tx "), "x ");
    assert_eq!(trim("   "), "");
}

#[test]
fn error_messages() {
    assert_eq!(PtyError::InvalidDimensions.message(), "invalid terminal dimensions");
    assert_eq!(PtyError::EmptyCommand.message(), "shell command is empty");
    assert_eq!(PtyError::CommandContainsNul.message(), "shell command contains a NUL byte");
    assert_eq!(PtyError::ZeroLengthWrite.message(), "write made no progress");
    let io = PtyError::from_io("fork PTY", std::io::Error::other("boom"));
    assert_eq!(io.message(), "fork PTY failed: boom");
    let from: PtyError = std::io::Error::other("x").into();
    assert!(matches!(from, PtyError::Io { operation: "I/O operation", .. }));
    assert_eq!(WinPtyError::ProcessCreationFailed(2).message(), "create process failed with Windows error 2");
    assert_eq!(
        WinPtyError::ProcessWaitFailed(128).message(),
        "wait for process failed with Windows status 128"
    );
    assert_eq!(
        WinPtyError::ConPtyNotAvailable.message(),
        "ConPTY not available (requires Windows 10 1809+)"
    );
    assert!(matches!(PtyError::io("resize PTY"), PtyError::Io { operation: "resize PTY", .. }));
}

#[test]
fn decimal_numbers() {
    assert_eq!(decimal(0), "0");
    assert_eq!(decimal(7), "7");
    assert_eq!(decimal(4294967295), "4294967295");
    assert_eq!(decimal(u128::MAX), "340282366920938463463374607431768211455");
}

#[test]
fn unix_read_steps() {
    assert_eq!(read_step(5, Errno::Other), ReadStep::Done(PtyRead::Data(5)));
    assert_eq!(read_step(0, Errno::Other), ReadStep::ReapThenEof);
    assert_eq!(read_step(-1, Errno::Interrupted), ReadStep::Retry);
    assert_eq!(read_step(-1, Errno::WouldBlock), ReadStep::CheckExit);
    assert_eq!(read_step(-1, Errno::InputOutput), ReadStep::ReapThenEof);
    assert_eq!(read_step(-1, Errno::NoChild), ReadStep::Fail);
    assert_eq!(idle_read(true), PtyRead::Eof);
    assert_eq!(idle_read(false), PtyRead::WouldBlock);
}

#[test]
fn unix_write_and_reap_steps() {
    assert_eq!(write_step(3, Errno::Other), WriteStep::Advance(3));
    assert_eq!(write_step(0, Errno::Other), WriteStep::NoProgress);
    assert_eq!(write_step(-1, Errno::Interrupted), WriteStep::Retry);
    assert_eq!(write_step(-1, Errno::WouldBlock), WriteStep::Wait);
    assert_eq!(write_step(-1, Errno::InputOutput), WriteStep::Fail);
    assert_eq!(reap_step(42, 42, Errno::Other), ReapStep::Exited);
    assert_eq!(reap_step(0, 42, Errno::Other), ReapStep::Running);
    assert_eq!(reap_step(-1, 42, Errno::Interrupted), ReapStep::Retry);
    assert_eq!(reap_step(-1, 42, Errno::NoChild), ReapStep::Exited);
    assert_eq!(reap_step(-1, 42, Errno::Other), ReapStep::Fail);
}

#[test]
fn shutdown_escalates_until_exit() {
    assert_eq!(next_shutdown_signal(ShutdownSignal::Hangup, false), Some(ShutdownSignal::Terminate));
    assert_eq!(next_shutdown_signal(ShutdownSignal::Terminate, false), Some(ShutdownSignal::Kill));
    assert_eq!(next_shutdown_signal(ShutdownSignal::Kill, false), None);
    assert_eq!(next_shutdown_signal(ShutdownSignal::Hangup, true), None);
}

#[test]
fn windows_wait_results() {
    assert!(matches!(exited_from_wait(WAIT_OBJECT_0), Ok(true)));
    assert!(matches!(exited_from_wait(WAIT_TIMEOUT), Ok(false)));
    assert!(matches!(
        exited_from_wait(WAIT_FAILED),
        Err(WinPtyError::Io { operation: "wait for process", .. })
    ));
    assert!(matches!(exited_from_wait(128), Err(WinPtyError::ProcessWaitFailed(128))));
    let (terminate, err) = close_wait_outcome(WAIT_TIMEOUT);
    assert!(terminate && err.is_none());
    let (terminate, err) = close_wait_outcome(WAIT_OBJECT_0);
    assert!(!terminate && err.is_none());
    let (terminate, err) = close_wait_outcome(5);
    assert!(terminate && matches!(err, Some(WinPtyError::ProcessWaitFailed(5))));
}

#[test]
fn windows_read_and_write_sizes() {
    assert_eq!(bytes_to_read(10, 4096), 10);
    assert_eq!(bytes_to_read(10_000, 4096), 4096);
    assert_eq!(read_result(0), PtyRead::Eof);
    assert_eq!(read_result(12), PtyRead::Data(12));
    assert_eq!(write_chunk(100), 100);
    assert_eq!(size_to_coord(PtySize::new(24, 80)), (80, 24));
}

#[test]
fn application_names_only_for_paths() {
    assert_eq!(
        application_name("C:\\Windows\\System32\\cmd.exe /d /q").as_deref(),
        Some("C:\\Windows\\System32\\cmd.exe")
    );
    assert_eq!(
        application_name("  \"C:\\Program Files\\PowerShell\\pwsh.exe\" -NoLogo").as_deref(),
        Some("C:\\Program Files\\PowerShell\\pwsh.exe")
    );
    assert_eq!(application_name("cmd.exe /d").as_deref(), None);
    assert_eq!(application_name("pwsh.exe").as_deref(), None);
    assert_eq!(application_name("   ").as_deref(), None);
    assert_eq!(application_name("./run.sh arg").as_deref(), Some("./run.sh"));
    assert_eq!(application_name("\"unterminated/path").as_deref(), Some("unterminated/path"));
}

#[test]
fn windows_read_plans() {
    assert_eq!(read_plan(Some(5), 0), ReadPlan::Done(PtyRead::WouldBlock));
    assert_eq!(read_plan(None, 16), ReadPlan::Done(PtyRead::Eof));
    assert_eq!(read_plan(Some(0), 16), ReadPlan::CheckExit);
    assert_eq!(read_plan(Some(5), 16), ReadPlan::Read(5));
    assert_eq!(read_plan(Some(100), 16), ReadPlan::Read(16));
}

#[test]
fn windows_spawn_needs_pseudoconsoles() {
    let result = mightty::shell::windows::spawn_precheck(PtySize::new(24, 80), false);
    assert!(matches!(result, Err(WinPtyError::ConPtyNotAvailable)));
    assert!(mightty::shell::windows::spawn_precheck(PtySize::new(24, 80), true).is_ok());
}
