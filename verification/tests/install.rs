use capslockrs::install::{
    account_name, app_dir, autostart_enabled, deletion_needed, elevated_launch, image_path,
    installed_exe, mutex_acquired, pid_file, pid_text, same_path, set_autostart, task_definition,
    task_enabled, task_name, temporary_exe, toggle_autostart, worker_pid, AppPath, AutostartChange,
    ElevatedLaunch, InstallError, InstancePolicy, HRESULT_CANCELLED,
};

fn shown(path: Result<AppPath<&str>, InstallError>) -> Option<String> {
    path.ok()
        .map(|path| format!("{}\\{}", path.base, path.names.join("\\")))
}

#[test]
fn paths_lie_below_local_app_data() {
    let base = Some("C:\\Local");
    assert_eq!(shown(app_dir(base)).as_deref(), Some("C:\\Local\\CapsLockRs"));
    assert_eq!(
        shown(installed_exe(base)).as_deref(),
        Some("C:\\Local\\CapsLockRs\\capslockrs.exe")
    );
    assert_eq!(
        shown(temporary_exe(base)).as_deref(),
        Some("C:\\Local\\CapsLockRs\\capslockrs.new.exe")
    );
    assert_eq!(
        shown(pid_file(base)).as_deref(),
        Some("C:\\Local\\CapsLockRs\\worker.pid")
    );
}

#[test]
fn paths_need_local_app_data() {
    for path in [
        app_dir::<&str>(None),
        installed_exe(None),
        temporary_exe(None),
        pid_file(None),
    ] {
        assert_eq!(path.err(), Some(InstallError::NoLocalAppData));
    }
}

#[test]
fn errors_have_messages() {
    for (error, message) in [
        (InstallError::NoLocalAppData, "未找到 LOCALAPPDATA 环境变量"),
        (InstallError::InstallNeedsElevation, "安装更新必须在管理员权限下运行"),
        (InstallError::AutostartNeedsElevation, "修改开机启动需要管理员权限"),
        (InstallError::UpdateRunning, "另一个 CapsLockRs 更新操作仍在运行"),
        (InstallError::WorkerStuck, "旧 worker 未能释放单实例互斥量"),
        (InstallError::ElevationCancelled, "用户取消了管理员权限请求"),
        (InstallError::ElevatedProcessMissing, "管理员进程未能启动"),
    ] {
        assert_eq!(error.message(), message);
    }
}

#[test]
fn paths_are_compared_without_regard_to_case() {
    assert!(same_path("C:\\Users\\A.exe", "c:\\users\\a.EXE"));
    assert!(!same_path("C:\\Users\\A.exe", "C:\\Users\\B.exe"));
}

#[test]
fn image_path_is_decoded_up_to_its_length() {
    let mut buffer: Vec<u16> = "C:\\键😀.exe".encode_utf16().collect();
    let length = buffer.len() as u32;
    buffer.resize(64, 0);
    assert_eq!(image_path(buffer.clone(), length), "C:\\键😀.exe");
    assert_eq!(image_path(buffer, 2), "C:");
    assert_eq!(image_path(vec![0x41], 100), "A");
    assert_eq!(image_path(vec![], 0), "");
}

#[test]
fn unpaired_surrogates_become_replacement_characters() {
    assert_eq!(image_path(vec![0xD800, 0x41], 2), "\u{FFFD}A");
    assert_eq!(image_path(vec![0xDC00, 0xD800], 2), "\u{FFFD}\u{FFFD}");
    assert_eq!(
        image_path(vec![0xD800, 0xD83D, 0xDE00, 0xDE00], 4),
        "\u{FFFD}😀\u{FFFD}"
    );
}

#[test]
fn worker_pid_is_read_back() {
    for pid in [0, 4, 65_536, u32::MAX] {
        assert_eq!(worker_pid(Some(pid_text(pid))), Some(pid));
    }
    assert_eq!(pid_text(1234), "1234");
    assert_eq!(worker_pid(Some("  77\r\n".to_string())), Some(77));
    assert_eq!(worker_pid(Some("x".to_string())), None);
    assert_eq!(worker_pid(Some(String::new())), None);
    assert_eq!(worker_pid(Some("4294967296".to_string())), None);
    assert_eq!(worker_pid(None), None);
}

#[test]
fn abandoned_mutexes_count_as_acquired() {
    assert!(mutex_acquired(0));
    assert!(mutex_acquired(0x80));
    assert!(!mutex_acquired(258));
    assert!(!mutex_acquired(u32::MAX));
}

#[test]
fn declined_elevation_is_told_apart() {
    assert_eq!(HRESULT_CANCELLED as u32, 0x8007_04C7);
    assert_eq!(
        elevated_launch(Some(HRESULT_CANCELLED), false),
        ElevatedLaunch::Refused(InstallError::ElevationCancelled)
    );
    assert_eq!(elevated_launch(Some(-1), true), ElevatedLaunch::Failed);
    assert_eq!(elevated_launch(None, true), ElevatedLaunch::Started);
    assert_eq!(
        elevated_launch(None, false),
        ElevatedLaunch::Refused(InstallError::ElevatedProcessMissing)
    );
}

#[test]
fn account_has_its_domain_in_front() {
    assert_eq!(account_name("me", "HOME"), "HOME\\me");
    assert_eq!(account_name("me", ""), "me");
}

#[test]
fn task_runs_the_worker_with_highest_rights() {
    let task = task_definition("me", "HOME", "C:\\x\\capslockrs.exe", Some("C:\\x"));
    assert_eq!(task.name, "CapsLockRs");
    assert_eq!(task.name, task_name());
    assert_eq!(task.description, "CapsLockRs 管理员键盘重映射程序");
    assert_eq!(task.account, "HOME\\me");
    assert!(task.interactive_logon);
    assert!(task.highest_run_level);
    assert_eq!(task.executable, "C:\\x\\capslockrs.exe");
    assert_eq!(task.arguments, "--worker");
    assert_eq!(task.working_directory.as_deref(), Some("C:\\x"));
    assert!(task.enabled);
    assert!(task.hidden);
    assert!(task.allow_demand_start);
    assert!(task.start_when_available);
    assert!(!task.disallow_start_on_batteries);
    assert!(!task.stop_on_batteries);
    assert!(task.allow_hard_terminate);
    assert_eq!(task.execution_time_limit, "PT0S");
    assert_eq!(task.restart_interval, "PT1M");
    assert_eq!(task.restart_count, 10);
    assert_eq!(task.instances, InstancePolicy::StopExisting);
    let rootless = task_definition("me", "", "capslockrs.exe", None);
    assert_eq!(rootless.account, "me");
    assert_eq!(rootless.working_directory, None);
}

#[test]
fn autostart_needs_a_task_that_is_enabled() {
    assert!(task_enabled(Some(-1)));
    assert!(!task_enabled(Some(0)));
    assert!(!task_enabled(None));
    assert!(autostart_enabled(Some(Some(1))));
    assert!(!autostart_enabled(Some(Some(0))));
    assert!(!autostart_enabled(Some(None)));
    assert!(!autostart_enabled(None));
}

#[test]
fn autostart_is_changed_with_administrator_rights_alone() {
    assert_eq!(set_autostart(true, true), Ok(AutostartChange::Register));
    assert_eq!(set_autostart(false, true), Ok(AutostartChange::Delete));
    for enabled in [true, false] {
        assert_eq!(
            set_autostart(enabled, false),
            Err(InstallError::AutostartNeedsElevation)
        );
    }
}

#[test]
fn autostart_is_turned_over() {
    assert_eq!(
        toggle_autostart(Some(Some(-1)), true),
        Ok(AutostartChange::Delete)
    );
    assert_eq!(
        toggle_autostart(Some(None), true),
        Ok(AutostartChange::Register)
    );
    assert_eq!(toggle_autostart(None, true), Ok(AutostartChange::Register));
    assert_eq!(
        toggle_autostart(Some(Some(-1)), false),
        Err(InstallError::AutostartNeedsElevation)
    );
}

#[test]
fn a_task_is_deleted_where_there_is_one() {
    assert!(deletion_needed(Some(-1), true));
    assert!(deletion_needed(Some(0), true));
    assert!(deletion_needed(Some(-1), false));
    assert!(!deletion_needed(None, false));
}
