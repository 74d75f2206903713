use capslockrs::install::app_dir;
use capslockrs::launch::{
    install_start, launch_mode, relaunch_exit_code, shows_errors, InstallStart,
    LaunchError, LaunchMode,
};
use capslockrs::logging::{current_log, init, log, log_dir, previous_log, LogStart, MAX_LOG_SIZE};

fn arguments(texts: &[&str]) -> Vec<String> {
    texts.iter().map(|text| text.to_string()).collect()
}

#[test]
fn command_line_is_read() {
    assert_eq!(launch_mode(&arguments(&[])), Ok(LaunchMode::Install));
    assert_eq!(
        launch_mode(&arguments(&["--elevated-install"])),
        Ok(LaunchMode::ElevatedInstall)
    );
    assert_eq!(
        launch_mode(&arguments(&["--worker"])),
        Ok(LaunchMode::Worker)
    );
}

#[test]
fn other_command_lines_are_refused() {
    for texts in [
        &["--help"][..],
        &[""],
        &["--Worker"],
        &["--worker", "--worker"],
        &["--elevated-install", "x"],
    ] {
        assert_eq!(
            launch_mode(&arguments(texts)),
            Err(LaunchError::UnsupportedArguments)
        );
    }
}

#[test]
fn worker_shows_no_errors() {
    assert!(shows_errors(&arguments(&[])));
    assert!(shows_errors(&arguments(&["--elevated-install"])));
    assert!(shows_errors(&arguments(&["x", "--worker"])));
    assert!(!shows_errors(&arguments(&["--worker"])));
    assert!(!shows_errors(&arguments(&["--worker", "x"])));
}

#[test]
fn missing_rights_are_asked_for() {
    assert_eq!(install_start(true), InstallStart::Install);
    assert_eq!(install_start(false), InstallStart::Relaunch);
}

#[test]
fn launch_errors_have_messages() {
    assert_eq!(
        LaunchError::UnsupportedArguments.message(),
        "不支持的启动参数"
    );
    assert_eq!(
        LaunchError::WorkerNeedsElevation.message(),
        "worker 必须由最高权限计划任务启动"
    );
}

#[test]
fn exit_code_is_brought_into_a_byte() {
    for code in [0, 1, 2, 255, 256, 0x7FFF_FFFF, 0x8000_0000, u32::MAX] {
        assert_eq!(
            relaunch_exit_code(code),
            (code as i32).clamp(0, 255) as u8
        );
    }
    assert_eq!(relaunch_exit_code(2), 2);
    assert_eq!(relaunch_exit_code(1000), 255);
    assert_eq!(relaunch_exit_code(0xC000_0005), 0);
}

#[test]
fn log_is_rotated_at_one_mebibyte() {
    assert_eq!(MAX_LOG_SIZE, 1024 * 1024);
    assert_eq!(init(None), LogStart::Append);
    assert_eq!(init(Some(0)), LogStart::Append);
    assert_eq!(init(Some(1_048_575)), LogStart::Append);
    assert_eq!(init(Some(1_048_576)), LogStart::Rotate);
    assert_eq!(init(Some(u64::MAX)), LogStart::Rotate);
}

#[test]
fn log_lines_begin_with_the_time() {
    assert_eq!(
        log(Some(1_700_000_000), "worker 已正常退出"),
        "[1700000000] worker 已正常退出\n"
    );
    assert_eq!(log(None, ""), "[0] \n");
}

#[test]
fn log_files_lie_in_their_own_directory() {
    for (path, names) in [
        (app_dir(Some(())).map(log_dir), &["CapsLockRs", "logs"][..]),
        (
            app_dir(Some(())).map(current_log),
            &["CapsLockRs", "logs", "capslockrs.log"],
        ),
        (
            app_dir(Some(())).map(previous_log),
            &["CapsLockRs", "logs", "capslockrs.log.1"],
        ),
    ] {
        assert_eq!(path.map(|path| path.names), Ok(arguments(names)));
    }
}
