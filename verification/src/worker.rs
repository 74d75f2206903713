//! The life of a worker: how a process becomes the one that remaps keys, and how it ends.

use vstd::prelude::*;

use crate::install;
use crate::launch::LaunchError;
use crate::update::Report;

verus! {

/// How the work of a worker came to its end.
#[derive(Clone, Copy, Debug, Eq, PartialEq, Structural)]
pub enum WorkerEnd {
    /// The worker was asked to end.
    Regular,
    /// The icon failed.
    TrayFailed,
    /// The input threads could not be started.
    InputFailed,
}

/// The actions of a worker.
#[derive(Clone, Copy, Debug, Eq, PartialEq, Structural)]
pub enum WorkerAction {
    /// Ask whether this process has administrator rights.
    CheckElevation,
    /// Create the directory of the program and begin the log in it.
    CreateAppDir,
    /// Open the mutex that every worker holds.
    OpenMutex,
    /// Wait for that mutex.
    WaitMutex { millis: u32 },
    /// Create the event by which the worker is asked to end.
    CreateStopEvent,
    /// Leave the process number behind for an update to find.
    WritePid,
    /// Start the input threads.
    StartInput,
    /// Show the icon until the worker is asked to end.
    RunTray,
    /// End the input threads. `tray_ok` is whether the icon was shown to a regular end.
    ShutDownInput { tray_ok: bool },
    /// Remove the process number.
    RemovePid { end: WorkerEnd },
    /// Give the mutex back.
    ReleaseMutex { end: WorkerEnd },
}

/// How far a worker has come.
#[derive(Clone, Copy, Debug, Eq, PartialEq, Structural)]
pub enum WorkerStage {
    Perform(WorkerAction),
    Done,
    /// There is a worker already, so this process has nothing to do.
    AlreadyRunning,
    /// An action failed that has to succeed.
    Failed(WorkerAction),
    Refused(LaunchError),
}

impl WorkerStage {
    pub open spec fn initial() -> WorkerStage {
        WorkerStage::Perform(WorkerAction::CheckElevation)
    }

    /// What follows an action that succeeded.
    pub open spec fn following(action: WorkerAction, value: u32) -> WorkerStage {
        match action {
            WorkerAction::CheckElevation => if value != 0 {
                WorkerStage::Perform(WorkerAction::CreateAppDir)
            } else {
                WorkerStage::Refused(LaunchError::WorkerNeedsElevation)
            },
            WorkerAction::CreateAppDir => WorkerStage::Perform(WorkerAction::OpenMutex),
            WorkerAction::OpenMutex => WorkerStage::Perform(WorkerAction::WaitMutex { millis: 0 }),
            WorkerAction::WaitMutex { .. } => if install::acquired(value) {
                WorkerStage::Perform(WorkerAction::CreateStopEvent)
            } else {
                WorkerStage::AlreadyRunning
            },
            WorkerAction::CreateStopEvent => WorkerStage::Perform(WorkerAction::WritePid),
            WorkerAction::WritePid => WorkerStage::Perform(WorkerAction::StartInput),
            WorkerAction::StartInput => WorkerStage::Perform(WorkerAction::RunTray),
            WorkerAction::RunTray => WorkerStage::Perform(
                WorkerAction::ShutDownInput { tray_ok: true },
            ),
            WorkerAction::ShutDownInput { tray_ok } => WorkerStage::Perform(
                WorkerAction::RemovePid {
                    end: if tray_ok {
                        WorkerEnd::Regular
                    } else {
                        WorkerEnd::TrayFailed
                    },
                },
            ),
            WorkerAction::RemovePid { end } => WorkerStage::Perform(
                WorkerAction::ReleaseMutex { end },
            ),
            WorkerAction::ReleaseMutex { end } => match end {
                WorkerEnd::Regular => WorkerStage::Done,
                WorkerEnd::TrayFailed => WorkerStage::Failed(WorkerAction::RunTray),
                WorkerEnd::InputFailed => WorkerStage::Failed(WorkerAction::StartInput),
            },
        }
    }

    /// What follows an action that failed. Once the process number is left behind, the worker
    /// cleans up before it ends; nothing stops it from that.
    pub open spec fn following_failure(action: WorkerAction) -> WorkerStage {
        match action {
            WorkerAction::StartInput => WorkerStage::Perform(
                WorkerAction::RemovePid { end: WorkerEnd::InputFailed },
            ),
            WorkerAction::RunTray => WorkerStage::Perform(
                WorkerAction::ShutDownInput { tray_ok: false },
            ),
            WorkerAction::ShutDownInput { .. }
            | WorkerAction::RemovePid { .. }
            | WorkerAction::ReleaseMutex { .. } => Self::following(action, 0),
            _ => WorkerStage::Failed(action),
        }
    }

    /// The stage after a report; an end is final.
    pub open spec fn next(self, report: Report) -> WorkerStage {
        match self {
            WorkerStage::Perform(action) => if report.ok {
                Self::following(action, report.value)
            } else {
                Self::following_failure(action)
            },
            _ => self,
        }
    }

    /// The stage after a sequence of reports.
    pub open spec fn after_all(self, reports: Seq<Report>) -> WorkerStage
        decreases reports.len(),
    {
        if reports.len() == 0 {
            self
        } else {
            self.after_all(reports.drop_last()).next(reports.last())
        }
    }

    /// Begins a worker.
    pub fn start() -> (stage: WorkerStage)
        ensures
            stage == WorkerStage::initial(),
    {
        WorkerStage::Perform(WorkerAction::CheckElevation)
    }

    /// Decides what follows a report on the action under way.
    pub fn step(self, report: Report) -> (next: WorkerStage)
        ensures
            next == self.next(report),
    {
        let action = match self {
            WorkerStage::Perform(action) => action,
            _ => return self,
        };
        let chosen = match action {
            WorkerAction::CheckElevation => {
                if !report.ok {
                    return WorkerStage::Failed(action);
                }
                if report.value == 0 {
                    return WorkerStage::Refused(LaunchError::WorkerNeedsElevation);
                }
                WorkerAction::CreateAppDir
            },
            WorkerAction::CreateAppDir => {
                if !report.ok {
                    return WorkerStage::Failed(action);
                }
                WorkerAction::OpenMutex
            },
            WorkerAction::OpenMutex => {
                if !report.ok {
                    return WorkerStage::Failed(action);
                }
                WorkerAction::WaitMutex { millis: 0 }
            },
            WorkerAction::WaitMutex { .. } => {
                if !report.ok {
                    return WorkerStage::Failed(action);
                }
                if !install::mutex_acquired(report.value) {
                    return WorkerStage::AlreadyRunning;
                }
                WorkerAction::CreateStopEvent
            },
            WorkerAction::CreateStopEvent => {
                if !report.ok {
                    return WorkerStage::Failed(action);
                }
                WorkerAction::WritePid
            },
            WorkerAction::WritePid => {
                if !report.ok {
                    return WorkerStage::Failed(action);
                }
                WorkerAction::StartInput
            },
            WorkerAction::StartInput => if report.ok {
                WorkerAction::RunTray
            } else {
                WorkerAction::RemovePid { end: WorkerEnd::InputFailed }
            },
            WorkerAction::RunTray => WorkerAction::ShutDownInput { tray_ok: report.ok },
            WorkerAction::ShutDownInput { tray_ok } => WorkerAction::RemovePid {
                end: if tray_ok {
                    WorkerEnd::Regular
                } else {
                    WorkerEnd::TrayFailed
                },
            },
            WorkerAction::RemovePid { end } => WorkerAction::ReleaseMutex { end },
            WorkerAction::ReleaseMutex { end } => {
                return match end {
                    WorkerEnd::Regular => WorkerStage::Done,
                    WorkerEnd::TrayFailed => WorkerStage::Failed(WorkerAction::RunTray),
                    WorkerEnd::InputFailed => WorkerStage::Failed(WorkerAction::StartInput),
                };
            },
        };
        WorkerStage::Perform(chosen)
    }
}

/// The stage after the first `count` reports.
pub open spec fn worker_at(reports: Seq<Report>, count: int) -> WorkerStage {
    WorkerStage::initial().after_all(reports.take(count))
}

/// Report `i` is on `action`.
pub open spec fn reported_at(reports: Seq<Report>, action: WorkerAction, i: int) -> bool {
    0 <= i < reports.len() && worker_at(reports, i) == WorkerStage::Perform(action)
}

/// The worker has got as far as the start of its input threads, or has come to a regular end.
pub open spec fn has_worked(stage: WorkerStage) -> bool {
    match stage {
        WorkerStage::Perform(action) => {
            ||| action is StartInput
            ||| action is RunTray
            ||| action is ShutDownInput
            ||| action is RemovePid
            ||| action is ReleaseMutex
        },
        WorkerStage::Done => true,
        _ => false,
    }
}

/// Keys are remapped only by a process that has administrator rights and that has acquired the
/// mutex that every worker holds, so there is one worker at a time.
pub proof fn law_one_elevated_worker(reports: Seq<Report>)
    requires
        has_worked(WorkerStage::initial().after_all(reports)),
    ensures
        reported_at(reports, WorkerAction::CheckElevation, 0),
        reports[0].yes(),
        reported_at(reports, WorkerAction::WaitMutex { millis: 0 }, 3),
        reports[3].gave_mutex(),
{
    lemma_worker_path(reports);
    assert(reports.take(0) =~= Seq::<Report>::empty());
}

/// The reports so far let this process become the worker.
spec fn admitted(reports: Seq<Report>) -> bool {
    &&& reports.len() > 3
    &&& reports[0].yes()
    &&& reported_at(reports, WorkerAction::WaitMutex { millis: 0 }, 3)
    &&& reports[3].gave_mutex()
}

/// The icon was shown, and the input threads were ended after that.
spec fn input_ended(reports: Seq<Report>) -> bool {
    &&& reports.len() > 8
    &&& reported_at(reports, WorkerAction::StartInput, 6)
    &&& reports[6].ok
    &&& reported_at(reports, WorkerAction::RunTray, 7)
    &&& reported_at(reports, WorkerAction::ShutDownInput { tray_ok: reports[7].ok }, 8)
}

/// What the reports were when the work has come to the given end.
spec fn ended(reports: Seq<Report>, end: WorkerEnd) -> bool {
    match end {
        WorkerEnd::Regular => input_ended(reports) && reports[7].ok,
        WorkerEnd::TrayFailed => input_ended(reports) && !reports[7].ok,
        WorkerEnd::InputFailed => {
            &&& reports.len() > 6
            &&& reported_at(reports, WorkerAction::StartInput, 6)
            &&& !reports[6].ok
        },
    }
}

proof fn lemma_known_earlier(reports: Seq<Report>)
    requires
        reports.len() > 0,
    ensures
        admitted(reports.drop_last()) ==> admitted(reports),
        forall|end: WorkerEnd| #[trigger] ended(reports.drop_last(), end) ==> ended(reports, end),
{
    let before = reports.drop_last();
    assert forall|i: int| 0 <= i < before.len() implies #[trigger] reports.take(i) == before.take(
        i,
    ) by {
        assert(reports.take(i) =~= before.take(i));
    }
    if before.len() > 3 {
        assert(reports.take(3) == before.take(3));
    }
    if before.len() > 6 {
        assert(reports.take(6) == before.take(6));
    }
    if before.len() > 8 {
        assert(reports.take(7) == before.take(7));
        assert(reports.take(8) == before.take(8));
    }
}

/// What the reports were when a worker has come as far as it has.
proof fn lemma_worker_path(reports: Seq<Report>)
    ensures
        match WorkerStage::initial().after_all(reports) {
            WorkerStage::Perform(action) => match action {
                WorkerAction::CheckElevation => reports.len() == 0,
                WorkerAction::CreateAppDir => reports.len() == 1 && reports[0].yes(),
                WorkerAction::OpenMutex => reports.len() == 2 && reports[0].yes(),
                WorkerAction::WaitMutex { millis } => millis == 0 && reports.len() == 3
                    && reports[0].yes(),
                WorkerAction::CreateStopEvent => reports.len() == 4 && admitted(reports),
                WorkerAction::WritePid => reports.len() == 5 && admitted(reports),
                WorkerAction::StartInput => reports.len() == 6 && admitted(reports),
                WorkerAction::RunTray => {
                    &&& reports.len() == 7
                    &&& admitted(reports)
                    &&& reported_at(reports, WorkerAction::StartInput, 6)
                    &&& reports[6].ok
                },
                WorkerAction::ShutDownInput { tray_ok } => {
                    &&& reports.len() == 8
                    &&& admitted(reports)
                    &&& reported_at(reports, WorkerAction::StartInput, 6)
                    &&& reports[6].ok
                    &&& reported_at(reports, WorkerAction::RunTray, 7)
                    &&& tray_ok == reports[7].ok
                },
                WorkerAction::RemovePid { end } | WorkerAction::ReleaseMutex { end } => admitted(
                    reports,
                ) && ended(reports, end),
            },
            WorkerStage::Done => admitted(reports) && ended(reports, WorkerEnd::Regular),
            WorkerStage::Failed(WorkerAction::RunTray) => ended(reports, WorkerEnd::TrayFailed),
            WorkerStage::Failed(WorkerAction::StartInput) => ended(reports, WorkerEnd::InputFailed),
            _ => true,
        },
    decreases reports.len(),
{
    if reports.len() > 0 {
        let before = reports.drop_last();
        lemma_worker_path(before);
        lemma_known_earlier(reports);
        assert(reports.take(reports.len() - 1) =~= before);
        if reports.len() == 8 {
            assert(before.take(6) =~= reports.take(6));
        }
        if reports.len() == 9 {
            assert(before.take(6) =~= reports.take(6));
            assert(before.take(7) =~= reports.take(7));
        }
    }
}

/// Nothing but the question for administrator rights is done without them.
pub proof fn law_rights_come_first(reports: Seq<Report>)
    requires
        reports.len() > 0,
        WorkerStage::initial().after_all(reports) is Perform,
    ensures
        reports[0].yes(),
{
    lemma_worker_path(reports);
}

/// A worker that is refused, or that finds another one, has started no input threads.
pub proof fn law_refused_worker_starts_nothing(reports: Seq<Report>, i: int)
    requires
        ({
            let stage = WorkerStage::initial().after_all(reports);
            stage is Refused || stage is AlreadyRunning
        }),
    ensures
        !reported_at(reports, WorkerAction::StartInput, i),
{
    if reported_at(reports, WorkerAction::StartInput, i) {
        lemma_start_is_not_refused(reports, i);
    }
}

proof fn lemma_start_is_not_refused(reports: Seq<Report>, i: int)
    requires
        reported_at(reports, WorkerAction::StartInput, i),
    ensures
        ({
            let stage = WorkerStage::initial().after_all(reports);
            has_worked(stage) || stage is Failed
        }),
    decreases reports.len(),
{
    let before = reports.drop_last();
    assert(reports.take(reports.len() - 1) =~= before);
    if i < before.len() {
        assert(before.take(i) =~= reports.take(i));
        lemma_start_is_not_refused(before, i);
    }
}

/// The input threads are ended before the worker gives its place back: when the process number
/// is removed or the mutex released, either the input threads were never started, or the action
/// that ends them has been performed, after the icon.
pub proof fn law_input_ends_before_release(reports: Seq<Report>)
    requires
        ({
            let stage = WorkerStage::initial().after_all(reports);
            stage matches WorkerStage::Perform(action) && (action is RemovePid
                || action is ReleaseMutex)
        }),
    ensures
        reported_at(reports, WorkerAction::StartInput, 6),
        reports[6].ok ==> {
            &&& reported_at(reports, WorkerAction::RunTray, 7)
            &&& reported_at(reports, WorkerAction::ShutDownInput { tray_ok: reports[7].ok }, 8)
        },
{
    lemma_worker_path(reports);
}

/// A worker that has got as far as the start of its input threads ends only by giving the mutex
/// back, right after its process number was removed.
pub proof fn law_place_is_given_back(stage: WorkerStage, report: Report)
    requires
        stage is Perform,
        has_worked(stage),
    ensures
        !(stage.next(report) is Perform) <==> stage->Perform_0 is ReleaseMutex,
        stage.next(report) matches WorkerStage::Perform(WorkerAction::ReleaseMutex { end }) ==> stage
            == WorkerStage::Perform(WorkerAction::RemovePid { end }),
{
}

/// A worker that has shown its icon ends well exactly when the icon did.
pub proof fn law_result_is_that_of_the_tray(reports: Seq<Report>)
    requires
        reported_at(reports, WorkerAction::RunTray, 7),
        !(WorkerStage::initial().after_all(reports) is Perform),
    ensures
        WorkerStage::initial().after_all(reports) == if reports[7].ok {
            WorkerStage::Done
        } else {
            WorkerStage::Failed(WorkerAction::RunTray)
        },
{
    lemma_after_the_tray(reports);
}

/// How a worker goes on once its icon was shown.
proof fn lemma_after_the_tray(reports: Seq<Report>)
    requires
        reported_at(reports, WorkerAction::RunTray, 7),
    ensures
        ({
            let tray_ok = reports[7].ok;
            let end = if tray_ok {
                WorkerEnd::Regular
            } else {
                WorkerEnd::TrayFailed
            };
            let stage = WorkerStage::initial().after_all(reports);
            ||| stage == WorkerStage::Perform(WorkerAction::ShutDownInput { tray_ok })
            ||| stage == WorkerStage::Perform(WorkerAction::RemovePid { end })
            ||| stage == WorkerStage::Perform(WorkerAction::ReleaseMutex { end })
            ||| tray_ok && stage == WorkerStage::Done
            ||| !tray_ok && stage == WorkerStage::Failed(WorkerAction::RunTray)
        }),
    decreases reports.len(),
{
    let before = reports.drop_last();
    assert(reports.take(reports.len() - 1) =~= before);
    if reports.len() > 8 {
        assert(before.take(7) =~= reports.take(7));
        lemma_after_the_tray(before);
    }
}

/// How much is left to do at most.
pub open spec fn worker_steps_left(stage: WorkerStage) -> nat {
    match stage {
        WorkerStage::Perform(action) => match action {
            WorkerAction::CheckElevation => 11,
            WorkerAction::CreateAppDir => 10,
            WorkerAction::OpenMutex => 9,
            WorkerAction::WaitMutex { .. } => 8,
            WorkerAction::CreateStopEvent => 7,
            WorkerAction::WritePid => 6,
            WorkerAction::StartInput => 5,
            WorkerAction::RunTray => 4,
            WorkerAction::ShutDownInput { .. } => 3,
            WorkerAction::RemovePid { .. } => 2,
            WorkerAction::ReleaseMutex { .. } => 1,
        },
        _ => 0,
    }
}

/// A worker comes to an end as soon as its icon does: each action brings it closer.
pub proof fn law_worker_ends(stage: WorkerStage, report: Report)
    requires
        stage is Perform,
    ensures
        worker_steps_left(stage.next(report)) < worker_steps_left(stage),
        !(stage.next(report) is Perform) <==> worker_steps_left(stage.next(report)) == 0,
{
}

/// With administrator rights and the mutex, a process becomes the worker: it leaves its process
/// number behind and starts the input threads. The mutex is not waited for.
pub proof fn law_how_a_process_becomes_the_worker(reports: Seq<Report>)
    requires
        reports.len() == 6,
        reports[0].ok && reports[0].value != 0,
        reports[1].ok,
        reports[2].ok,
        reports[3].ok && (reports[3].value == 0 || reports[3].value == 0x80),
        reports[4].ok,
        reports[5].ok,
    ensures
        worker_at(reports, 1) == WorkerStage::Perform(WorkerAction::CreateAppDir),
        worker_at(reports, 2) == WorkerStage::Perform(WorkerAction::OpenMutex),
        worker_at(reports, 3) == WorkerStage::Perform(WorkerAction::WaitMutex { millis: 0 }),
        worker_at(reports, 4) == WorkerStage::Perform(WorkerAction::CreateStopEvent),
        worker_at(reports, 5) == WorkerStage::Perform(WorkerAction::WritePid),
        WorkerStage::initial().after_all(reports) == WorkerStage::Perform(WorkerAction::StartInput),
{
    reveal_with_fuel(WorkerStage::after_all, 7);
    assert(reports.take(5) =~= reports.drop_last());
    assert(reports.take(4) =~= reports.drop_last().drop_last());
    assert(reports.take(3) =~= reports.drop_last().drop_last().drop_last());
    assert(reports.take(2) =~= reports.take(3).drop_last());
    assert(reports.take(1) =~= reports.take(2).drop_last());
    assert(reports.take(1).drop_last().len() == 0);
}

/// From the start of the input threads to the end: the icon is shown as long as they run, then
/// they are ended, the process number goes, and the mutex is given back, in this order and however
/// each of these goes. The worker ends well exactly if the icon did.
pub proof fn law_how_a_worker_ends(reports: Seq<Report>)
    requires
        reports.len() == 5,
    ensures
        ({
            let start = WorkerStage::Perform(WorkerAction::StartInput);
            if reports[0].ok {
                let tray_ok = reports[1].ok;
                let end = if tray_ok {
                    WorkerEnd::Regular
                } else {
                    WorkerEnd::TrayFailed
                };
                &&& start.after_all(reports.take(1)) == WorkerStage::Perform(WorkerAction::RunTray)
                &&& start.after_all(reports.take(2)) == WorkerStage::Perform(
                    WorkerAction::ShutDownInput { tray_ok },
                )
                &&& start.after_all(reports.take(3)) == WorkerStage::Perform(
                    WorkerAction::RemovePid { end },
                )
                &&& start.after_all(reports.take(4)) == WorkerStage::Perform(
                    WorkerAction::ReleaseMutex { end },
                )
                &&& start.after_all(reports) == if tray_ok {
                    WorkerStage::Done
                } else {
                    WorkerStage::Failed(WorkerAction::RunTray)
                }
            } else {
                let end = WorkerEnd::InputFailed;
                &&& start.after_all(reports.take(1)) == WorkerStage::Perform(
                    WorkerAction::RemovePid { end },
                )
                &&& start.after_all(reports.take(2)) == WorkerStage::Perform(
                    WorkerAction::ReleaseMutex { end },
                )
                &&& start.after_all(reports.take(3)) == WorkerStage::Failed(
                    WorkerAction::StartInput,
                )
            }
        }),
{
    reveal_with_fuel(WorkerStage::after_all, 6);
    assert(reports.take(4) =~= reports.drop_last());
    assert(reports.take(3) =~= reports.drop_last().drop_last());
    assert(reports.take(2) =~= reports.take(3).drop_last());
    assert(reports.take(1) =~= reports.take(2).drop_last());
    assert(reports.take(1).drop_last().len() == 0);
}

/// Before the input threads are started, a worker ends exactly where an action fails, where it
/// lacks administrator rights, and where another worker holds the mutex.
pub proof fn law_who_is_no_worker(action: WorkerAction, report: Report)
    requires
        !has_worked(WorkerStage::Perform(action)),
    ensures
        ({
            let next = WorkerStage::Perform(action).next(report);
            &&& next == WorkerStage::Failed(action) <==> !report.ok
            &&& next is Failed ==> next == WorkerStage::Failed(action)
            &&& next is Refused <==> action is CheckElevation && report.ok && report.value == 0
            &&& next is Refused ==> next == WorkerStage::Refused(LaunchError::WorkerNeedsElevation)
            &&& next is AlreadyRunning <==> action is WaitMutex && report.ok && report.value != 0
                && report.value != 0x80
        }),
{
}

} // verus!
