use capslockrs::install::InstallError;
use capslockrs::update::{InstallAction, InstallStage, Installer, Report, StopAction, StopStage};

const OK: Report = Report { ok: true, value: 0 };
const YES: Report = Report { ok: true, value: 1 };
const FAILED: Report = Report {
    ok: false,
    value: 0,
};
const TIMEOUT: Report = Report {
    ok: true,
    value: 258,
};
const ABANDONED: Report = Report {
    ok: true,
    value: 0x80,
};

/// Stops the old worker with the given reports and collects the actions.
fn stop(reports: &[Report]) -> (Vec<StopAction>, StopStage) {
    let mut stage = StopStage::start();
    let mut actions = Vec::new();
    for report in reports {
        if let StopStage::Perform(action) = stage {
            actions.push(action);
        }
        stage = stage.step(*report);
    }
    (actions, stage)
}

/// Installs with the given reports and collects the actions.
fn install(reports: &[Report]) -> (Vec<InstallAction>, InstallStage) {
    let mut installer = Installer::start();
    let mut actions = Vec::new();
    for report in reports {
        if let InstallStage::Perform(action) = installer.stage {
            actions.push(action);
        }
        installer.step(*report);
    }
    (actions, installer.stage)
}

#[test]
fn worker_that_ends_in_time_is_not_terminated() {
    let pid = Report {
        ok: true,
        value: 4321,
    };
    let (actions, stage) = stop(&[OK, pid, OK, YES, OK, OK, OK, OK, OK, OK]);
    assert_eq!(
        actions,
        [
            StopAction::LocatePidFile,
            StopAction::ReadPid,
            StopAction::OpenProcess { pid: 4321 },
            StopAction::ComparePath,
            StopAction::SignalStop { matched: true },
            StopAction::WaitProcess { millis: 3000 },
            StopAction::OpenMutex,
            StopAction::WaitMutex { millis: 3000 },
            StopAction::ReleaseMutex,
            StopAction::RemovePidFile,
        ]
    );
    assert_eq!(stage, StopStage::Done);
}

#[test]
fn worker_that_hangs_is_terminated() {
    let (actions, stage) = stop(&[OK, YES, OK, YES, FAILED, TIMEOUT, OK, TIMEOUT, OK, ABANDONED, FAILED, FAILED]);
    assert_eq!(actions[4], StopAction::SignalStop { matched: true });
    assert_eq!(
        actions[5..],
        [
            StopAction::WaitProcess { millis: 3000 },
            StopAction::Terminate,
            StopAction::WaitTerminated { millis: 3000 },
            StopAction::OpenMutex,
            StopAction::WaitMutex { millis: 3000 },
            StopAction::ReleaseMutex,
            StopAction::RemovePidFile,
        ]
    );
    assert_eq!(stage, StopStage::Done);
}

#[test]
fn process_of_another_executable_is_left_alone() {
    for compared in [OK, FAILED] {
        let (actions, stage) = stop(&[OK, YES, OK, compared, OK, OK, OK, OK, OK]);
        assert_eq!(actions[4], StopAction::SignalStop { matched: false });
        assert_eq!(actions[5], StopAction::OpenMutex);
        assert!(!actions.contains(&StopAction::Terminate));
        assert_eq!(stage, StopStage::Done);
    }
}

#[test]
fn missing_pid_file_and_missing_process_are_no_errors() {
    let (actions, stage) = stop(&[OK, FAILED, OK, OK, OK, OK, OK]);
    assert_eq!(actions[2], StopAction::SignalStop { matched: false });
    assert_eq!(stage, StopStage::Done);
    let (actions, stage) = stop(&[OK, YES, FAILED, OK, OK, OK, OK, OK]);
    assert_eq!(actions[3], StopAction::SignalStop { matched: false });
    assert_eq!(stage, StopStage::Done);
}

#[test]
fn task_is_stopped_when_the_mutex_stays_taken() {
    let start = [OK, FAILED, OK, OK, TIMEOUT, FAILED];
    let (actions, _) = stop(&[&start[..], &[ABANDONED, OK, OK]].concat());
    assert_eq!(
        actions[4..],
        [
            StopAction::WaitMutex { millis: 3000 },
            StopAction::StopTask,
            StopAction::WaitMutexAgain { millis: 3000 },
            StopAction::ReleaseMutex,
            StopAction::RemovePidFile,
        ]
    );
    let (_, stage) = stop(&[&start[..], &[TIMEOUT]].concat());
    assert_eq!(stage, StopStage::Refused(InstallError::WorkerStuck));
    assert_eq!(stage.step(OK), stage);
    let (_, stage) = stop(&[&start[..], &[FAILED]].concat());
    assert_eq!(stage, StopStage::Refused(InstallError::WorkerStuck));
    let (actions, _) = stop(&[OK, FAILED, OK, OK, FAILED, OK]);
    assert_eq!(actions[5], StopAction::StopTask);
}

#[test]
fn stopping_fails_where_it_has_to_succeed() {
    assert_eq!(
        stop(&[FAILED]).1,
        StopStage::Failed(StopAction::LocatePidFile)
    );
    assert_eq!(
        stop(&[OK, YES, OK, YES, OK, TIMEOUT, FAILED]).1,
        StopStage::Failed(StopAction::Terminate)
    );
    assert_eq!(
        stop(&[OK, FAILED, OK, FAILED]).1,
        StopStage::Failed(StopAction::OpenMutex)
    );
}

#[test]
fn first_installation_registers_the_task() {
    let (actions, stage) = install(&[YES, OK, OK, OK, OK, OK, OK, OK, OK, OK, OK, OK, OK, OK]);
    assert_eq!(
        actions,
        [
            InstallAction::CheckElevation,
            InstallAction::LocateAppDir,
            InstallAction::CreateAppDir,
            InstallAction::OpenUpdateMutex,
            InstallAction::WaitUpdateMutex { millis: 30_000 },
            InstallAction::CheckInstalled,
            InstallAction::ConnectTasks,
            InstallAction::StopOldWorker,
            InstallAction::ComparePaths,
            InstallAction::CopyCurrent,
            InstallAction::ReplaceInstalled,
            InstallAction::RegisterTask,
            InstallAction::RunTask,
            InstallAction::ReleaseUpdateMutex,
        ]
    );
    assert_eq!(stage, InstallStage::Done);
}

#[test]
fn update_keeps_autostart_off() {
    for answer in [OK, FAILED] {
        let (actions, stage) = install(&[
            YES, OK, OK, OK, ABANDONED, YES, OK, answer, OK, OK, OK, OK, OK, FAILED,
        ]);
        assert!(!actions.contains(&InstallAction::RegisterTask));
        assert!(!actions.contains(&InstallAction::RunTask));
        assert_eq!(
            actions[12..],
            [InstallAction::SpawnWorker, InstallAction::ReleaseUpdateMutex]
        );
        assert_eq!(stage, InstallStage::Done);
    }
}

#[test]
fn update_keeps_autostart_on() {
    let (actions, stage) = install(&[
        YES, OK, OK, OK, OK, YES, OK, YES, OK, OK, OK, OK, OK, OK, OK,
    ]);
    assert_eq!(
        actions[12..],
        [
            InstallAction::RegisterTask,
            InstallAction::RunTask,
            InstallAction::ReleaseUpdateMutex,
        ]
    );
    assert_eq!(stage, InstallStage::Done);
}

#[test]
fn installed_copy_is_not_copied_onto_itself() {
    let (actions, stage) = install(&[YES, OK, OK, OK, OK, YES, OK, YES, OK, YES, OK, OK, OK]);
    assert_eq!(actions[9], InstallAction::ComparePaths);
    assert_eq!(actions[10], InstallAction::RegisterTask);
    assert!(!actions.contains(&InstallAction::CopyCurrent));
    assert_eq!(stage, InstallStage::Done);
}

#[test]
fn installation_needs_administrator_rights() {
    assert_eq!(
        install(&[OK]).1,
        InstallStage::Refused(InstallError::InstallNeedsElevation)
    );
    assert_eq!(
        install(&[FAILED]).1,
        InstallStage::Failed(InstallAction::CheckElevation)
    );
}

#[test]
fn second_update_is_refused() {
    assert_eq!(
        install(&[YES, OK, OK, OK, TIMEOUT]).1,
        InstallStage::Refused(InstallError::UpdateRunning)
    );
    assert_eq!(
        install(&[YES, OK, OK, OK, FAILED]).1,
        InstallStage::Refused(InstallError::UpdateRunning)
    );
}

#[test]
fn installation_fails_where_it_has_to_succeed() {
    let all = [YES, OK, OK, OK, OK, OK, OK, OK, OK, OK, OK, OK, OK];
    let needed = [
        InstallAction::LocateAppDir,
        InstallAction::CreateAppDir,
        InstallAction::OpenUpdateMutex,
        InstallAction::CheckInstalled,
        InstallAction::ConnectTasks,
        InstallAction::StopOldWorker,
        InstallAction::ComparePaths,
        InstallAction::CopyCurrent,
        InstallAction::ReplaceInstalled,
        InstallAction::RegisterTask,
        InstallAction::RunTask,
    ];
    let (actions, _) = install(&all);
    for action in needed {
        let Some(at) = actions.iter().position(|performed| *performed == action) else {
            panic!("{action:?}");
        };
        let mut reports = all[..at].to_vec();
        reports.push(FAILED);
        assert_eq!(install(&reports).1, InstallStage::Failed(action));
    }
}

#[test]
fn worker_that_cannot_be_spawned_fails_the_update() {
    assert_eq!(
        install(&[YES, OK, OK, OK, OK, YES, OK, OK, OK, YES, FAILED]).1,
        InstallStage::Failed(InstallAction::SpawnWorker)
    );
}
