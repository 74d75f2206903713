use capslockrs::launch::LaunchError;
use capslockrs::update::Report;
use capslockrs::worker::{WorkerAction, WorkerEnd, WorkerStage};

const OK: Report = Report { ok: true, value: 0 };
const YES: Report = Report { ok: true, value: 1 };
const FAILED: Report = Report {
    ok: false,
    value: 0,
};

/// Runs a worker with the given reports and collects the actions.
fn work(reports: &[Report]) -> (Vec<WorkerAction>, WorkerStage) {
    let mut stage = WorkerStage::start();
    let mut actions = Vec::new();
    for report in reports {
        if let WorkerStage::Perform(action) = stage {
            actions.push(action);
        }
        stage = stage.step(*report);
    }
    (actions, stage)
}

#[test]
fn worker_runs_to_its_end() {
    let (actions, stage) = work(&[YES, OK, OK, OK, OK, OK, OK, OK, OK, OK, OK]);
    assert_eq!(
        actions,
        [
            WorkerAction::CheckElevation,
            WorkerAction::CreateAppDir,
            WorkerAction::OpenMutex,
            WorkerAction::WaitMutex { millis: 0 },
            WorkerAction::CreateStopEvent,
            WorkerAction::WritePid,
            WorkerAction::StartInput,
            WorkerAction::RunTray,
            WorkerAction::ShutDownInput { tray_ok: true },
            WorkerAction::RemovePid {
                end: WorkerEnd::Regular
            },
            WorkerAction::ReleaseMutex {
                end: WorkerEnd::Regular
            },
        ]
    );
    assert_eq!(stage, WorkerStage::Done);
    assert_eq!(stage.step(FAILED), WorkerStage::Done);
}

#[test]
fn worker_needs_administrator_rights() {
    assert_eq!(
        work(&[OK]).1,
        WorkerStage::Refused(LaunchError::WorkerNeedsElevation)
    );
}

#[test]
fn second_worker_ends_at_once() {
    let taken = Report {
        ok: true,
        value: 258,
    };
    assert_eq!(work(&[YES, OK, OK, taken]).1, WorkerStage::AlreadyRunning);
    let abandoned = Report {
        ok: true,
        value: 0x80,
    };
    assert_eq!(
        work(&[YES, OK, OK, abandoned]).1,
        WorkerStage::Perform(WorkerAction::CreateStopEvent)
    );
}

#[test]
fn input_is_shut_down_after_a_tray_error() {
    let (actions, stage) = work(&[
        YES, OK, OK, OK, OK, OK, OK, FAILED, FAILED, FAILED, FAILED,
    ]);
    assert_eq!(
        actions[8..],
        [
            WorkerAction::ShutDownInput { tray_ok: false },
            WorkerAction::RemovePid {
                end: WorkerEnd::TrayFailed
            },
            WorkerAction::ReleaseMutex {
                end: WorkerEnd::TrayFailed
            },
        ]
    );
    assert_eq!(stage, WorkerStage::Failed(WorkerAction::RunTray));
}

#[test]
fn worker_fails_where_it_has_to_succeed() {
    let all = [YES, OK, OK, OK, OK, OK];
    let (actions, _) = work(&all);
    for (at, action) in actions.into_iter().enumerate() {
        let mut reports = all[..at].to_vec();
        reports.push(FAILED);
        assert_eq!(work(&reports).1, WorkerStage::Failed(action));
    }
}

#[test]
fn place_is_given_back_when_the_input_does_not_start() {
    let (actions, stage) = work(&[YES, OK, OK, OK, OK, OK, FAILED, OK, OK]);
    assert_eq!(
        actions[7..],
        [
            WorkerAction::RemovePid {
                end: WorkerEnd::InputFailed
            },
            WorkerAction::ReleaseMutex {
                end: WorkerEnd::InputFailed
            },
        ]
    );
    assert_eq!(stage, WorkerStage::Failed(WorkerAction::StartInput));
}
