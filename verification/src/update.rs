//! How an update replaces a running copy: step by step, each step decided by what came of the
//! one before.

use vstd::prelude::*;

use crate::install;
use crate::install::{InstallError, UPDATE_WAIT_MS, WAIT_TIMEOUT, WORKER_WAIT_MS};

verus! {

/// What came of an action.
#[derive(Clone, Copy, Debug, Eq, PartialEq, Structural)]
pub struct Report {
    /// Whether the action succeeded.
    pub ok: bool,
    /// The answer to a question (zero for no), what a wait returned, or the process number that
    /// was read. Zero for the other actions.
    pub value: u32,
}

impl Report {
    /// The action succeeded and the answer is yes.
    pub open spec fn yes(self) -> bool {
        self.ok && self.value != 0
    }

    /// A wait for a mutex succeeded and has acquired it.
    pub open spec fn gave_mutex(self) -> bool {
        self.ok && install::acquired(self.value)
    }
}

// ---------------------------------------------------------------------------------------
// Stopping the old worker
// ---------------------------------------------------------------------------------------

/// The actions that end the worker of the copy that is installed.
#[derive(Clone, Copy, Debug, Eq, PartialEq, Structural)]
pub enum StopAction {
    /// Find the place of the process number file.
    LocatePidFile,
    /// Read the process number that the worker has left.
    ReadPid,
    /// Open that process.
    OpenProcess { pid: u32 },
    /// Ask whether that process runs the installed executable.
    ComparePath,
    /// Set the event by which a worker is asked to end, where there is one. `matched` is whether
    /// the process of the installed executable was found.
    SignalStop { matched: bool },
    /// Wait for the process to end.
    WaitProcess { millis: u32 },
    /// End the process by force.
    Terminate,
    /// Wait for the process that was ended by force.
    WaitTerminated { millis: u32 },
    /// Open the mutex that every worker holds.
    OpenMutex,
    /// Wait for that mutex.
    WaitMutex { millis: u32 },
    /// Have the task service end the task, where it can be reached.
    StopTask,
    /// Wait for the mutex once more.
    WaitMutexAgain { millis: u32 },
    /// Give the mutex back.
    ReleaseMutex,
    /// Remove the process number file.
    RemovePidFile,
}

/// How far stopping the old worker has come.
#[derive(Clone, Copy, Debug, Eq, PartialEq, Structural)]
pub enum StopStage {
    Perform(StopAction),
    Done,
    /// An action failed that has to succeed.
    Failed(StopAction),
    Refused(InstallError),
}

impl StopStage {
    pub open spec fn initial() -> StopStage {
        StopStage::Perform(StopAction::LocatePidFile)
    }

    /// What follows a report on an action.
    pub open spec fn following(action: StopAction, report: Report) -> StopStage {
        match action {
            StopAction::LocatePidFile => if report.ok {
                StopStage::Perform(StopAction::ReadPid)
            } else {
                StopStage::Failed(action)
            },
            StopAction::ReadPid => StopStage::Perform(
                if report.ok {
                    StopAction::OpenProcess { pid: report.value }
                } else {
                    StopAction::SignalStop { matched: false }
                },
            ),
            StopAction::OpenProcess { .. } => StopStage::Perform(
                if report.ok {
                    StopAction::ComparePath
                } else {
                    StopAction::SignalStop { matched: false }
                },
            ),
            StopAction::ComparePath => StopStage::Perform(
                StopAction::SignalStop { matched: report.yes() },
            ),
            StopAction::SignalStop { matched } => StopStage::Perform(
                if matched {
                    StopAction::WaitProcess { millis: WORKER_WAIT_MS }
                } else {
                    StopAction::OpenMutex
                },
            ),
            StopAction::WaitProcess { .. } => StopStage::Perform(
                if report.ok && report.value == WAIT_TIMEOUT {
                    StopAction::Terminate
                } else {
                    StopAction::OpenMutex
                },
            ),
            StopAction::Terminate => if report.ok {
                StopStage::Perform(StopAction::WaitTerminated { millis: WORKER_WAIT_MS })
            } else {
                StopStage::Failed(action)
            },
            StopAction::WaitTerminated { .. } => StopStage::Perform(StopAction::OpenMutex),
            StopAction::OpenMutex => if report.ok {
                StopStage::Perform(StopAction::WaitMutex { millis: WORKER_WAIT_MS })
            } else {
                StopStage::Failed(action)
            },
            StopAction::WaitMutex { .. } => StopStage::Perform(
                if report.gave_mutex() {
                    StopAction::ReleaseMutex
                } else {
                    StopAction::StopTask
                },
            ),
            StopAction::StopTask => StopStage::Perform(
                StopAction::WaitMutexAgain { millis: WORKER_WAIT_MS },
            ),
            StopAction::WaitMutexAgain { .. } => if report.gave_mutex() {
                StopStage::Perform(StopAction::ReleaseMutex)
            } else {
                StopStage::Refused(InstallError::WorkerStuck)
            },
            StopAction::ReleaseMutex => StopStage::Perform(StopAction::RemovePidFile),
            StopAction::RemovePidFile => StopStage::Done,
        }
    }

    /// The stage after a report; an end is final.
    pub open spec fn next(self, report: Report) -> StopStage {
        match self {
            StopStage::Perform(action) => Self::following(action, report),
            _ => self,
        }
    }

    /// The stage after a sequence of reports.
    pub open spec fn after_all(self, reports: Seq<Report>) -> StopStage
        decreases reports.len(),
    {
        if reports.len() == 0 {
            self
        } else {
            self.after_all(reports.drop_last()).next(reports.last())
        }
    }

    /// Begins to stop the old worker.
    pub fn start() -> (stage: StopStage)
        ensures
            stage == StopStage::initial(),
    {
        StopStage::Perform(StopAction::LocatePidFile)
    }

    /// Decides what follows a report on the action under way.
    pub fn step(self, report: Report) -> (next: StopStage)
        ensures
            next == self.next(report),
    {
        let action = match self {
            StopStage::Perform(action) => action,
            _ => return self,
        };
        let chosen = match action {
            StopAction::LocatePidFile => {
                if !report.ok {
                    return StopStage::Failed(action);
                }
                StopAction::ReadPid
            },
            StopAction::ReadPid => if report.ok {
                StopAction::OpenProcess { pid: report.value }
            } else {
                StopAction::SignalStop { matched: false }
            },
            StopAction::OpenProcess { .. } => if report.ok {
                StopAction::ComparePath
            } else {
                StopAction::SignalStop { matched: false }
            },
            StopAction::ComparePath => StopAction::SignalStop {
                matched: report.ok && report.value != 0,
            },
            StopAction::SignalStop { matched } => if matched {
                StopAction::WaitProcess { millis: WORKER_WAIT_MS }
            } else {
                StopAction::OpenMutex
            },
            StopAction::WaitProcess { .. } => if report.ok && report.value == WAIT_TIMEOUT {
                StopAction::Terminate
            } else {
                StopAction::OpenMutex
            },
            StopAction::Terminate => {
                if !report.ok {
                    return StopStage::Failed(action);
                }
                StopAction::WaitTerminated { millis: WORKER_WAIT_MS }
            },
            StopAction::WaitTerminated { .. } => StopAction::OpenMutex,
            StopAction::OpenMutex => {
                if !report.ok {
                    return StopStage::Failed(action);
                }
                StopAction::WaitMutex { millis: WORKER_WAIT_MS }
            },
            StopAction::WaitMutex { .. } => if report.ok && install::mutex_acquired(report.value) {
                StopAction::ReleaseMutex
            } else {
                StopAction::StopTask
            },
            StopAction::StopTask => StopAction::WaitMutexAgain { millis: WORKER_WAIT_MS },
            StopAction::WaitMutexAgain { .. } => {
                if !report.ok || !install::mutex_acquired(report.value) {
                    return StopStage::Refused(InstallError::WorkerStuck);
                }
                StopAction::ReleaseMutex
            },
            StopAction::ReleaseMutex => StopAction::RemovePidFile,
            StopAction::RemovePidFile => return StopStage::Done,
        };
        StopStage::Perform(chosen)
    }
}

/// The action under way after the first `count` reports.
pub open spec fn stop_action_at(reports: Seq<Report>, count: int) -> StopStage {
    StopStage::initial().after_all(reports.take(count))
}

/// The old worker was found: its process number was read and its executable is the installed
/// one.
pub open spec fn worker_found(reports: Seq<Report>) -> bool {
    &&& reports.len() >= 4
    &&& reports[0].ok
    &&& reports[1].ok
    &&& stop_action_at(reports, 2) == StopStage::Perform(
        StopAction::OpenProcess { pid: reports[1].value },
    )
    &&& reports[2].ok
    &&& stop_action_at(reports, 3) == StopStage::Perform(StopAction::ComparePath)
    &&& reports[3].yes()
}

proof fn lemma_worker_found_earlier(reports: Seq<Report>)
    requires
        reports.len() > 0,
        worker_found(reports.drop_last()),
    ensures
        worker_found(reports),
{
    let before = reports.drop_last();
    assert(before.take(2) =~= reports.take(2));
    assert(before.take(3) =~= reports.take(3));
}

proof fn lemma_stop_invariant(reports: Seq<Report>)
    ensures
        match StopStage::initial().after_all(reports) {
            StopStage::Perform(StopAction::LocatePidFile) => reports.len() == 0,
            StopStage::Perform(StopAction::ReadPid) => reports.len() == 1 && reports[0].ok,
            StopStage::Perform(StopAction::OpenProcess { pid }) => {
                &&& reports.len() == 2
                &&& reports[0].ok
                &&& reports[1].ok
                &&& pid == reports[1].value
            },
            StopStage::Perform(StopAction::ComparePath) => {
                &&& reports.len() == 3
                &&& reports[0].ok
                &&& reports[1].ok
                &&& stop_action_at(reports, 2) == StopStage::Perform(
                    StopAction::OpenProcess { pid: reports[1].value },
                )
                &&& reports[2].ok
            },
            StopStage::Perform(StopAction::SignalStop { matched }) => matched ==> worker_found(
                reports,
            ),
            StopStage::Perform(StopAction::WaitProcess { millis }) => millis == WORKER_WAIT_MS
                && worker_found(reports),
            StopStage::Perform(StopAction::Terminate) => {
                &&& worker_found(reports)
                &&& reports.last().ok
                &&& reports.last().value == WAIT_TIMEOUT
                &&& stop_action_at(reports, reports.len() - 1) == StopStage::Perform(
                    StopAction::WaitProcess { millis: WORKER_WAIT_MS },
                )
            },
            _ => true,
        },
    decreases reports.len(),
{
    if reports.len() > 0 {
        let before = reports.drop_last();
        lemma_stop_invariant(before);
        assert(reports.take(reports.len() - 1) =~= before);
        assert(reports.len() > 2 ==> before.take(2) =~= reports.take(2));
        assert(reports.len() > 3 ==> before.take(3) =~= reports.take(3));
        if worker_found(before) {
            lemma_worker_found_earlier(reports);
        }
    }
}

/// A process is ended by force only when its number came from the process number file, its
/// executable was found to be the installed one, it was asked to end, and after that it had not
/// ended in the time given to it.
pub proof fn law_force_only_against_the_old_worker(reports: Seq<Report>)
    requires
        StopStage::initial().after_all(reports) == StopStage::Perform(StopAction::Terminate),
    ensures
        worker_found(reports),
        reports.len() > 5,
        stop_action_at(reports, 4) == StopStage::Perform(StopAction::SignalStop { matched: true }),
        stop_action_at(reports, reports.len() - 1) == StopStage::Perform(
            StopAction::WaitProcess { millis: WORKER_WAIT_MS },
        ),
        reports.last().ok,
        reports.last().value == WAIT_TIMEOUT,
{
    lemma_stop_invariant(reports);
    assert(reports.take(4).drop_last() =~= reports.take(3));
    assert(reports.take(4).last() == reports[3]);
    if reports.len() == 4 {
        assert(reports.take(4) =~= reports);
    }
}

/// The wait for the mutex of the workers, the first or the second one, that report `i` is on.
pub open spec fn mutex_wait_at(reports: Seq<Report>, i: int) -> bool {
    &&& 0 <= i < reports.len()
    &&& stop_action_at(reports, i) matches StopStage::Perform(action) && (action is WaitMutex
        || action is WaitMutexAgain)
}

/// Some wait for the mutex of the workers has acquired it.
pub open spec fn mutex_was_acquired(reports: Seq<Report>) -> bool {
    exists|i: int| #[trigger] mutex_wait_at(reports, i) && reports[i].gave_mutex()
}

proof fn lemma_mutex_was_acquired(reports: Seq<Report>)
    ensures
        match StopStage::initial().after_all(reports) {
            StopStage::Perform(StopAction::ReleaseMutex)
            | StopStage::Perform(StopAction::RemovePidFile)
            | StopStage::Done => mutex_was_acquired(reports),
            _ => true,
        },
    decreases reports.len(),
{
    if reports.len() > 0 {
        let before = reports.drop_last();
        let last = reports.len() - 1;
        lemma_mutex_was_acquired(before);
        assert(reports.take(last) =~= before);
        if mutex_was_acquired(before) {
            let i = choose|i: int| #[trigger]
                mutex_wait_at(before, i) && before[i].gave_mutex();
            assert(before.take(i) =~= reports.take(i));
            assert(mutex_wait_at(reports, i));
        }
        if mutex_wait_at(reports, last) && reports[last].gave_mutex() {
            assert(mutex_was_acquired(reports));
        }
    }
}

/// Stopping the old worker succeeds only when the mutex that every worker holds was acquired:
/// no worker is left running.
pub proof fn law_stopped_means_mutex_acquired(reports: Seq<Report>)
    requires
        StopStage::initial().after_all(reports) == StopStage::Done,
    ensures
        mutex_was_acquired(reports),
{
    lemma_mutex_was_acquired(reports);
}

/// How much is left to do at most.
pub open spec fn stop_steps_left(stage: StopStage) -> nat {
    match stage {
        StopStage::Perform(action) => match action {
            StopAction::LocatePidFile => 14,
            StopAction::ReadPid => 13,
            StopAction::OpenProcess { .. } => 12,
            StopAction::ComparePath => 11,
            StopAction::SignalStop { .. } => 10,
            StopAction::WaitProcess { .. } => 9,
            StopAction::Terminate => 8,
            StopAction::WaitTerminated { .. } => 7,
            StopAction::OpenMutex => 6,
            StopAction::WaitMutex { .. } => 5,
            StopAction::StopTask => 4,
            StopAction::WaitMutexAgain { .. } => 3,
            StopAction::ReleaseMutex => 2,
            StopAction::RemovePidFile => 1,
        },
        _ => 0,
    }
}

/// Stopping the old worker comes to an end, whatever the reports say: each action brings it
/// closer.
pub proof fn law_stopping_ends(stage: StopStage, report: Report)
    requires
        stage is Perform,
    ensures
        stop_steps_left(stage.next(report)) < stop_steps_left(stage),
        !(stage.next(report) is Perform) <==> stop_steps_left(stage.next(report)) == 0,
{
}

/// A process number that the worker has left is followed up, whatever it is: the process with
/// exactly that number is opened.
pub proof fn law_process_of_the_worker_is_opened(reports: Seq<Report>)
    requires
        reports.len() == 2,
        reports[0].ok,
        reports[1].ok,
    ensures
        StopStage::initial().after_all(reports) == StopStage::Perform(
            StopAction::OpenProcess { pid: reports[1].value },
        ),
{
    reveal_with_fuel(StopStage::after_all, 3);
}

/// A worker that runs the installed executable is asked to end and given three seconds for it; if
/// it takes longer, it is ended by force. Whether it could be asked makes no difference.
pub proof fn law_hanging_worker_is_terminated(reports: Seq<Report>)
    requires
        reports.len() == 6,
        reports[0].ok,
        reports[1].ok,
        reports[2].ok,
        reports[3].ok && reports[3].value != 0,
    ensures
        stop_action_at(reports, 3) == StopStage::Perform(StopAction::ComparePath),
        stop_action_at(reports, 4) == StopStage::Perform(StopAction::SignalStop { matched: true }),
        stop_action_at(reports, 5) == StopStage::Perform(StopAction::WaitProcess { millis: 3000 }),
        StopStage::initial().after_all(reports) == StopStage::Perform(
            if reports[5].ok && reports[5].value == 258 {
                StopAction::Terminate
            } else {
                StopAction::OpenMutex
            },
        ),
{
    reveal_with_fuel(StopStage::after_all, 7);
    assert(reports.take(5) =~= reports.drop_last());
    assert(reports.take(4) =~= reports.drop_last().drop_last());
    assert(reports.take(3) =~= reports.drop_last().drop_last().drop_last());
}

/// Where no process number is found, or its process cannot be opened or runs another executable,
/// the request to end is still made, but no process is waited for or ended.
pub proof fn law_other_processes_are_left_alone(reports: Seq<Report>)
    requires
        reports.len() == 5,
        reports[0].ok,
        !(reports[1].ok && reports[2].ok && reports[3].ok && reports[3].value != 0),
    ensures
        ({
            let signal = StopStage::Perform(StopAction::SignalStop { matched: false });
            let mutex = StopStage::Perform(StopAction::OpenMutex);
            if !reports[1].ok {
                stop_action_at(reports, 2) == signal && stop_action_at(reports, 3) == mutex
            } else if !reports[2].ok {
                stop_action_at(reports, 3) == signal && stop_action_at(reports, 4) == mutex
            } else {
                stop_action_at(reports, 4) == signal && StopStage::initial().after_all(reports)
                    == mutex
            }
        }),
{
    reveal_with_fuel(StopStage::after_all, 6);
    assert(reports.take(4) =~= reports.drop_last());
    assert(reports.take(3) =~= reports.drop_last().drop_last());
    assert(reports.take(2) =~= reports.drop_last().drop_last().drop_last());
}

/// A worker that was ended by force is given three seconds to be gone.
pub proof fn law_terminated_worker_is_waited_for(report: Report, last: Report)
    requires
        report.ok,
    ensures
        StopStage::Perform(StopAction::Terminate).next(report) == StopStage::Perform(
            StopAction::WaitTerminated { millis: 3000 },
        ),
        StopStage::Perform(StopAction::Terminate).next(report).next(last) == StopStage::Perform(
            StopAction::OpenMutex,
        ),
{
}

/// A wait has given the mutex over, be it that its last owner ended without releasing it.
pub open spec fn mutex_obtained(report: Report) -> bool {
    report.ok && (report.value == 0 || report.value == 0x80)
}

/// Once the mutex of the workers is open, it is waited for three seconds. Where it comes, it is
/// given back, the process number file goes, and the old worker is stopped, however these two go.
/// Where it does not, the task is ended and the mutex waited for once more; where that fails, too,
/// the worker is stuck.
pub proof fn law_mutex_decides(reports: Seq<Report>)
    requires
        reports.len() == 6,
        reports[0].ok,
    ensures
        ({
            let open = StopStage::Perform(StopAction::OpenMutex);
            let release = StopStage::Perform(StopAction::ReleaseMutex);
            let remove = StopStage::Perform(StopAction::RemovePidFile);
            &&& open.after_all(reports.take(1)) == StopStage::Perform(
                StopAction::WaitMutex { millis: 3000 },
            )
            &&& if mutex_obtained(reports[1]) {
                &&& open.after_all(reports.take(2)) == release
                &&& open.after_all(reports.take(3)) == remove
                &&& open.after_all(reports.take(4)) == StopStage::Done
            } else {
                &&& open.after_all(reports.take(2)) == StopStage::Perform(StopAction::StopTask)
                &&& open.after_all(reports.take(3)) == StopStage::Perform(
                    StopAction::WaitMutexAgain { millis: 3000 },
                )
                &&& if mutex_obtained(reports[3]) {
                    &&& open.after_all(reports.take(4)) == release
                    &&& open.after_all(reports.take(5)) == remove
                    &&& open.after_all(reports) == StopStage::Done
                } else {
                    open.after_all(reports.take(4)) == StopStage::Refused(InstallError::WorkerStuck)
                }
            }
        }),
{
    reveal_with_fuel(StopStage::after_all, 7);
    assert(reports.take(5) =~= reports.drop_last());
    assert(reports.take(4) =~= reports.drop_last().drop_last());
    assert(reports.take(3) =~= reports.drop_last().drop_last().drop_last());
    assert(reports.take(2) =~= reports.drop_last().drop_last().drop_last().drop_last());
    assert(reports.take(1) =~= reports.take(2).drop_last());
    assert(reports.take(1).drop_last().len() == 0);
}

/// Stopping the old worker goes wrong in four ways alone: the process number file has no place,
/// the process cannot be ended by force, the mutex cannot be opened, or it is not given over.
pub proof fn law_how_stopping_fails(stage: StopStage, report: Report)
    requires
        stage is Perform,
    ensures
        stage.next(report) is Failed <==> !report.ok && {
            ||| stage == StopStage::Perform(StopAction::LocatePidFile)
            ||| stage == StopStage::Perform(StopAction::Terminate)
            ||| stage == StopStage::Perform(StopAction::OpenMutex)
        },
        stage.next(report) matches StopStage::Failed(action) ==> stage == StopStage::Perform(
            action,
        ),
        stage.next(report) is Refused <==> stage->Perform_0 is WaitMutexAgain && !mutex_obtained(
            report,
        ),
        stage.next(report) is Done <==> stage == StopStage::Perform(StopAction::RemovePidFile),
{
}

// ---------------------------------------------------------------------------------------
// Installing
// ---------------------------------------------------------------------------------------

/// The actions of an installation or an update.
#[derive(Clone, Copy, Debug, Eq, PartialEq, Structural)]
pub enum InstallAction {
    /// Ask whether this process has administrator rights.
    CheckElevation,
    /// Find the directory of the program.
    LocateAppDir,
    /// Create that directory and begin the log in it.
    CreateAppDir,
    /// Open the mutex that every update holds.
    OpenUpdateMutex,
    /// Wait for that mutex.
    WaitUpdateMutex { millis: u32 },
    /// Ask whether a copy is installed already.
    CheckInstalled,
    /// Connect to the task service.
    ConnectTasks,
    /// Ask whether the worker starts at logon.
    QueryAutostart,
    /// Stop the old worker.
    StopOldWorker,
    /// Ask whether this process runs the installed copy.
    ComparePaths,
    /// Copy this executable next to the installed one.
    CopyCurrent,
    /// Have the copy take the place of the installed one.
    ReplaceInstalled,
    /// Register the scheduled task.
    RegisterTask,
    /// Start the worker by way of the task.
    RunTask,
    /// Start the worker directly.
    SpawnWorker,
    /// Give the mutex back.
    ReleaseUpdateMutex,
}

/// How far an installation has come.
#[derive(Clone, Copy, Debug, Eq, PartialEq, Structural)]
pub enum InstallStage {
    Perform(InstallAction),
    Done,
    /// An action failed that has to succeed.
    Failed(InstallAction),
    Refused(InstallError),
}

/// An installation or an update.
#[derive(Clone, Copy, Debug, Eq, PartialEq, Structural)]
pub struct Installer {
    pub stage: InstallStage,
    /// Whether a copy was installed before.
    pub was_installed: bool,
    /// Whether the worker is to start at logon.
    pub keep_autostart: bool,
}

/// The installation cannot go on without the action's success.
pub open spec fn must_succeed(action: InstallAction) -> bool {
    !(action is WaitUpdateMutex || action is QueryAutostart || action is ReleaseUpdateMutex)
}

impl Installer {
    pub open spec fn initial() -> Installer {
        Installer {
            stage: InstallStage::Perform(InstallAction::CheckElevation),
            was_installed: false,
            keep_autostart: false,
        }
    }

    pub open spec fn performing(self, action: InstallAction) -> Installer {
        Installer { stage: InstallStage::Perform(action), ..self }
    }

    /// The worker is started by the task if it is to start at logon anyway, otherwise directly.
    pub open spec fn starting_worker(self) -> Installer {
        self.performing(
            if self.keep_autostart {
                InstallAction::RegisterTask
            } else {
                InstallAction::SpawnWorker
            },
        )
    }

    /// What follows an action that went as it has to.
    pub open spec fn following(self, action: InstallAction, report: Report) -> Installer {
        match action {
            InstallAction::CheckElevation => if report.value != 0 {
                self.performing(InstallAction::LocateAppDir)
            } else {
                Installer {
                    stage: InstallStage::Refused(InstallError::InstallNeedsElevation),
                    ..self
                }
            },
            InstallAction::LocateAppDir => self.performing(InstallAction::CreateAppDir),
            InstallAction::CreateAppDir => self.performing(InstallAction::OpenUpdateMutex),
            InstallAction::OpenUpdateMutex => self.performing(
                InstallAction::WaitUpdateMutex { millis: UPDATE_WAIT_MS },
            ),
            InstallAction::WaitUpdateMutex { .. } => if report.gave_mutex() {
                self.performing(InstallAction::CheckInstalled)
            } else {
                Installer { stage: InstallStage::Refused(InstallError::UpdateRunning), ..self }
            },
            InstallAction::CheckInstalled => Installer {
                stage: InstallStage::Perform(InstallAction::ConnectTasks),
                was_installed: report.value != 0,
                ..self
            },
            InstallAction::ConnectTasks => if self.was_installed {
                self.performing(InstallAction::QueryAutostart)
            } else {
                Installer {
                    stage: InstallStage::Perform(InstallAction::StopOldWorker),
                    keep_autostart: true,
                    ..self
                }
            },
            InstallAction::QueryAutostart => Installer {
                stage: InstallStage::Perform(InstallAction::StopOldWorker),
                keep_autostart: report.yes(),
                ..self
            },
            InstallAction::StopOldWorker => self.performing(InstallAction::ComparePaths),
            InstallAction::ComparePaths => if report.value != 0 {
                self.starting_worker()
            } else {
                self.performing(InstallAction::CopyCurrent)
            },
            InstallAction::CopyCurrent => self.performing(InstallAction::ReplaceInstalled),
            InstallAction::ReplaceInstalled => self.starting_worker(),
            InstallAction::RegisterTask => self.performing(InstallAction::RunTask),
            InstallAction::RunTask | InstallAction::SpawnWorker => self.performing(
                InstallAction::ReleaseUpdateMutex,
            ),
            InstallAction::ReleaseUpdateMutex => Installer { stage: InstallStage::Done, ..self },
        }
    }

    /// The installation after a report; an end is final.
    pub open spec fn next(self, report: Report) -> Installer {
        match self.stage {
            InstallStage::Perform(action) => if !report.ok && must_succeed(action) {
                Installer { stage: InstallStage::Failed(action), ..self }
            } else {
                self.following(action, report)
            },
            _ => self,
        }
    }

    /// The installation after a sequence of reports.
    pub open spec fn after_all(self, reports: Seq<Report>) -> Installer
        decreases reports.len(),
    {
        if reports.len() == 0 {
            self
        } else {
            self.after_all(reports.drop_last()).next(reports.last())
        }
    }

    /// Begins an installation.
    pub fn start() -> (installer: Installer)
        ensures
            installer == Installer::initial(),
    {
        Installer {
            stage: InstallStage::Perform(InstallAction::CheckElevation),
            was_installed: false,
            keep_autostart: false,
        }
    }

    /// Decides what follows a report on the action under way.
    pub fn step(&mut self, report: Report) -> (stage: InstallStage)
        ensures
            *final(self) == old(self).next(report),
            stage == final(self).stage,
    {
        let action = match self.stage {
            InstallStage::Perform(action) => action,
            _ => return self.stage,
        };
        let optional = match action {
            InstallAction::WaitUpdateMutex { .. }
            | InstallAction::QueryAutostart
            | InstallAction::ReleaseUpdateMutex => true,
            _ => false,
        };
        if !report.ok && !optional {
            self.stage = InstallStage::Failed(action);
            return self.stage;
        }
        let yes = report.ok && report.value != 0;
        self.stage = match action {
            InstallAction::CheckElevation => if yes {
                InstallStage::Perform(InstallAction::LocateAppDir)
            } else {
                InstallStage::Refused(InstallError::InstallNeedsElevation)
            },
            InstallAction::LocateAppDir => InstallStage::Perform(InstallAction::CreateAppDir),
            InstallAction::CreateAppDir => InstallStage::Perform(InstallAction::OpenUpdateMutex),
            InstallAction::OpenUpdateMutex => InstallStage::Perform(
                InstallAction::WaitUpdateMutex { millis: UPDATE_WAIT_MS },
            ),
            InstallAction::WaitUpdateMutex { .. } => if report.ok && install::mutex_acquired(
                report.value,
            ) {
                InstallStage::Perform(InstallAction::CheckInstalled)
            } else {
                InstallStage::Refused(InstallError::UpdateRunning)
            },
            InstallAction::CheckInstalled => {
                self.was_installed = yes;
                InstallStage::Perform(InstallAction::ConnectTasks)
            },
            InstallAction::ConnectTasks => if self.was_installed {
                InstallStage::Perform(InstallAction::QueryAutostart)
            } else {
                self.keep_autostart = true;
                InstallStage::Perform(InstallAction::StopOldWorker)
            },
            InstallAction::QueryAutostart => {
                self.keep_autostart = yes;
                InstallStage::Perform(InstallAction::StopOldWorker)
            },
            InstallAction::StopOldWorker => InstallStage::Perform(InstallAction::ComparePaths),
            InstallAction::ComparePaths => if yes {
                self.worker_start()
            } else {
                InstallStage::Perform(InstallAction::CopyCurrent)
            },
            InstallAction::CopyCurrent => InstallStage::Perform(InstallAction::ReplaceInstalled),
            InstallAction::ReplaceInstalled => self.worker_start(),
            InstallAction::RegisterTask => InstallStage::Perform(InstallAction::RunTask),
            InstallAction::RunTask | InstallAction::SpawnWorker => InstallStage::Perform(
                InstallAction::ReleaseUpdateMutex,
            ),
            InstallAction::ReleaseUpdateMutex => InstallStage::Done,
        };
        self.stage
    }

    fn worker_start(&self) -> (stage: InstallStage)
        ensures
            stage == self.starting_worker().stage,
    {
        if self.keep_autostart {
            InstallStage::Perform(InstallAction::RegisterTask)
        } else {
            InstallStage::Perform(InstallAction::SpawnWorker)
        }
    }
}

/// The installation after the first `count` reports.
pub open spec fn install_at(reports: Seq<Report>, count: int) -> Installer {
    Installer::initial().after_all(reports.take(count))
}

/// Report `i` is on `action`, which succeeded.
pub open spec fn performed_at(reports: Seq<Report>, action: InstallAction, i: int) -> bool {
    &&& 0 <= i < reports.len()
    &&& install_at(reports, i).stage == InstallStage::Perform(action)
    &&& reports[i].ok
}

/// An action has been performed with success.
pub open spec fn performed(reports: Seq<Report>, action: InstallAction) -> bool {
    exists|i: int| #[trigger] performed_at(reports, action, i)
}

/// The actions in an order in which they are performed.
pub open spec fn rank(action: InstallAction) -> nat {
    match action {
        InstallAction::CheckElevation => 0,
        InstallAction::LocateAppDir => 1,
        InstallAction::CreateAppDir => 2,
        InstallAction::OpenUpdateMutex => 3,
        InstallAction::WaitUpdateMutex { .. } => 4,
        InstallAction::CheckInstalled => 5,
        InstallAction::ConnectTasks => 6,
        InstallAction::QueryAutostart => 7,
        InstallAction::StopOldWorker => 8,
        InstallAction::ComparePaths => 9,
        InstallAction::CopyCurrent => 10,
        InstallAction::ReplaceInstalled => 11,
        InstallAction::RegisterTask => 12,
        InstallAction::RunTask => 13,
        InstallAction::SpawnWorker => 14,
        InstallAction::ReleaseUpdateMutex => 15,
    }
}

/// How far an installation has come, as a number; an end comes last.
pub open spec fn progress(installer: Installer) -> nat {
    match installer.stage {
        InstallStage::Perform(action) => rank(action),
        _ => 16,
    }
}

/// An installation comes to an end, whatever the reports say: each action leads to a later one.
pub proof fn law_installation_ends(installer: Installer, report: Report)
    requires
        installer.stage is Perform,
    ensures
        progress(installer) < progress(installer.next(report)) <= 16,
        progress(installer.next(report)) == 16 <==> !(installer.next(report).stage is Perform),
{
}

proof fn lemma_performed_earlier(reports: Seq<Report>, action: InstallAction)
    requires
        reports.len() > 0,
    ensures
        performed(reports.drop_last(), action) ==> performed(reports, action),
        Installer::initial().after_all(reports.drop_last()).stage == InstallStage::Perform(action)
            && reports.last().ok ==> performed(reports, action),
{
    let before = reports.drop_last();
    let last = reports.len() - 1;
    assert(reports.take(last) =~= before);
    if performed(before, action) {
        let i = choose|i: int| #[trigger] performed_at(before, action, i);
        assert(before.take(i) =~= reports.take(i));
        assert(performed_at(reports, action, i));
    }
    if Installer::initial().after_all(before).stage == InstallStage::Perform(action)
        && reports.last().ok {
        assert(performed_at(reports, action, last));
    }
}

/// Nothing is done before this process is known to have administrator rights.
pub proof fn law_elevation_comes_first(reports: Seq<Report>)
    requires
        reports.len() > 0,
        Installer::initial().after_all(reports).stage matches InstallStage::Perform(_)
            || Installer::initial().after_all(reports).stage is Done,
    ensures
        reports[0].yes(),
    decreases reports.len(),
{
    let before = reports.drop_last();
    if before.len() > 0 {
        law_elevation_comes_first(before);
    } else {
        reveal_with_fuel(Installer::after_all, 2);
    }
}

proof fn lemma_old_worker_stopped(reports: Seq<Report>)
    ensures
        ({
            let reached = Installer::initial().after_all(reports);
            (reached.stage is Done || (reached.stage matches InstallStage::Perform(action)
                && rank(action) > rank(InstallAction::StopOldWorker))) ==> performed(
                reports,
                InstallAction::StopOldWorker,
            )
        }),
    decreases reports.len(),
{
    if reports.len() > 0 {
        lemma_old_worker_stopped(reports.drop_last());
        lemma_performed_earlier(reports, InstallAction::StopOldWorker);
    }
}

/// The old worker has been stopped before anything of the installed copy is replaced and
/// before a new worker is started.
pub proof fn law_old_worker_is_stopped_first(reports: Seq<Report>)
    requires
        ({
            let stage = Installer::initial().after_all(reports).stage;
            ||| stage == InstallStage::Perform(InstallAction::CopyCurrent)
            ||| stage == InstallStage::Perform(InstallAction::ReplaceInstalled)
            ||| stage == InstallStage::Perform(InstallAction::RunTask)
            ||| stage == InstallStage::Perform(InstallAction::SpawnWorker)
        }),
    ensures
        performed(reports, InstallAction::StopOldWorker),
{
    lemma_old_worker_stopped(reports);
}

/// An installation that is done has started a worker.
pub proof fn law_done_means_worker_started(reports: Seq<Report>)
    requires
        Installer::initial().after_all(reports).stage is Done,
    ensures
        performed(reports, InstallAction::RunTask) || performed(
            reports,
            InstallAction::SpawnWorker,
        ),
{
    lemma_worker_started(reports);
}

proof fn lemma_worker_started(reports: Seq<Report>)
    ensures
        ({
            let stage = Installer::initial().after_all(reports).stage;
            stage is Done || stage == InstallStage::Perform(InstallAction::ReleaseUpdateMutex)
                ==> performed(reports, InstallAction::RunTask) || performed(
                reports,
                InstallAction::SpawnWorker,
            )
        }),
    decreases reports.len(),
{
    if reports.len() > 0 {
        lemma_worker_started(reports.drop_last());
        lemma_performed_earlier(reports, InstallAction::RunTask);
        lemma_performed_earlier(reports, InstallAction::SpawnWorker);
    }
}

/// Report `i` found that this process runs the installed copy.
pub open spec fn runs_installed_copy_at(reports: Seq<Report>, i: int) -> bool {
    performed_at(reports, InstallAction::ComparePaths, i) && reports[i].value != 0
}

/// An installation that is done has put this executable in its place, unless this process runs
/// the installed copy anyway.
pub proof fn law_done_means_copy_installed(reports: Seq<Report>)
    requires
        Installer::initial().after_all(reports).stage is Done,
    ensures
        performed(reports, InstallAction::ReplaceInstalled) || exists|i: int| #[trigger]
            runs_installed_copy_at(reports, i),
{
    lemma_copy_installed(reports);
}

proof fn lemma_copy_installed(reports: Seq<Report>)
    ensures
        ({
            let stage = Installer::initial().after_all(reports).stage;
            stage is Done || (stage matches InstallStage::Perform(action) && rank(action) > rank(
                InstallAction::ReplaceInstalled,
            )) ==> performed(reports, InstallAction::ReplaceInstalled) || exists|i: int| #[trigger]
                runs_installed_copy_at(reports, i)
        }),
    decreases reports.len(),
{
    if reports.len() > 0 {
        let before = reports.drop_last();
        let last = reports.len() - 1;
        lemma_copy_installed(before);
        lemma_performed_earlier(reports, InstallAction::ReplaceInstalled);
        assert(reports.take(last) =~= before);
        if exists|i: int| #[trigger] runs_installed_copy_at(before, i) {
            let i = choose|i: int| #[trigger] runs_installed_copy_at(before, i);
            assert(before.take(i) =~= reports.take(i));
            assert(runs_installed_copy_at(reports, i));
        }
        if Installer::initial().after_all(before).stage == InstallStage::Perform(
            InstallAction::ComparePaths,
        ) && reports.last().yes() {
            assert(runs_installed_copy_at(reports, last));
        }
    }
}

/// Report `i` is on the wait for the mutex of the updates, and the wait has acquired it.
pub open spec fn update_mutex_acquired_at(reports: Seq<Report>, i: int) -> bool {
    &&& 0 <= i < reports.len()
    &&& install_at(reports, i).stage matches InstallStage::Perform(action) && action is WaitUpdateMutex
    &&& reports[i].gave_mutex()
}

/// From the question for an installed copy on, an installation holds the mutex that every
/// update holds, so there is one update at a time.
pub proof fn law_one_update_at_a_time(reports: Seq<Report>)
    requires
        ({
            let stage = Installer::initial().after_all(reports).stage;
            stage is Done || (stage matches InstallStage::Perform(action) && rank(action) >= rank(
                InstallAction::CheckInstalled,
            ))
        }),
    ensures
        exists|i: int| #[trigger] update_mutex_acquired_at(reports, i),
    decreases reports.len(),
{
    let before = reports.drop_last();
    let last = reports.len() - 1;
    let earlier = Installer::initial().after_all(before).stage;
    assert(reports.take(last) =~= before);
    if earlier matches InstallStage::Perform(action) && action is WaitUpdateMutex {
        assert(update_mutex_acquired_at(reports, last));
    } else {
        law_one_update_at_a_time(before);
        let i = choose|i: int| #[trigger] update_mutex_acquired_at(before, i);
        assert(before.take(i) =~= reports.take(i));
        assert(update_mutex_acquired_at(reports, i));
    }
}

/// The automatic start that the user has turned off stays off: where a copy is installed and
/// does not start at logon, an update never registers the task.
pub proof fn law_update_keeps_autostart_off(reports: Seq<Report>, asked: int)
    requires
        0 <= asked < reports.len(),
        install_at(reports, asked).stage == InstallStage::Perform(InstallAction::QueryAutostart),
        !reports[asked].yes(),
    ensures
        ({
            let stage = Installer::initial().after_all(reports).stage;
            &&& stage != InstallStage::Perform(InstallAction::RegisterTask)
            &&& stage != InstallStage::Perform(InstallAction::RunTask)
        }),
{
    lemma_autostart_stays_off(reports, asked);
}

proof fn lemma_autostart_stays_off(reports: Seq<Report>, asked: int)
    requires
        0 <= asked < reports.len(),
        install_at(reports, asked).stage == InstallStage::Perform(InstallAction::QueryAutostart),
        !reports[asked].yes(),
    ensures
        ({
            let reached = Installer::initial().after_all(reports);
            &&& !reached.keep_autostart
            &&& progress(reached) >= rank(InstallAction::StopOldWorker)
            &&& reached.stage != InstallStage::Perform(InstallAction::RegisterTask)
            &&& reached.stage != InstallStage::Perform(InstallAction::RunTask)
        }),
    decreases reports.len(),
{
    let before = reports.drop_last();
    assert(reports.take(reports.len() - 1) =~= before);
    if asked < before.len() {
        assert(before.take(asked) =~= reports.take(asked));
        lemma_autostart_stays_off(before, asked);
    }
}

/// A first installation has the worker start at logon.
pub proof fn law_first_installation_starts_at_logon(reports: Seq<Report>, asked: int)
    requires
        0 <= asked < reports.len(),
        install_at(reports, asked).stage == InstallStage::Perform(InstallAction::CheckInstalled),
        !reports[asked].yes(),
        Installer::initial().after_all(reports).stage is Done,
    ensures
        performed(reports, InstallAction::RegisterTask),
        performed(reports, InstallAction::RunTask),
{
    lemma_first_installation(reports, asked);
}

proof fn lemma_first_installation(reports: Seq<Report>, asked: int)
    requires
        0 <= asked < reports.len(),
        install_at(reports, asked).stage == InstallStage::Perform(InstallAction::CheckInstalled),
        !reports[asked].yes(),
    ensures
        ({
            let reached = Installer::initial().after_all(reports);
            let far = progress(reached);
            &&& far >= rank(InstallAction::ConnectTasks)
            &&& reached.stage is Perform ==> !reached.was_installed
            &&& reached.stage != InstallStage::Perform(InstallAction::QueryAutostart)
            &&& reached.stage != InstallStage::Perform(InstallAction::SpawnWorker)
            &&& far >= rank(InstallAction::StopOldWorker) && reached.stage is Perform
                ==> reached.keep_autostart
            &&& reached.stage is Done || reached.stage is Perform && far > rank(
                InstallAction::RegisterTask,
            ) ==> performed(reports, InstallAction::RegisterTask)
            &&& reached.stage is Done || reached.stage is Perform && far > rank(
                InstallAction::RunTask,
            ) ==> performed(reports, InstallAction::RunTask)
        }),
    decreases reports.len(),
{
    let before = reports.drop_last();
    assert(reports.take(reports.len() - 1) =~= before);
    lemma_performed_earlier(reports, InstallAction::RegisterTask);
    lemma_performed_earlier(reports, InstallAction::RunTask);
    if asked < before.len() {
        assert(before.take(asked) =~= reports.take(asked));
        lemma_first_installation(before, asked);
    }
}

/// An installation gets under way with administrator rights: the directory of the program comes
/// first, then the mutex of the updates, which is waited for half a minute. Where it is obtained,
/// the installation goes on.
pub proof fn law_installation_gets_under_way(reports: Seq<Report>)
    requires
        reports.len() == 5,
        reports[0].ok && reports[0].value != 0,
        reports[1].ok,
        reports[2].ok,
        reports[3].ok,
        mutex_obtained(reports[4]),
    ensures
        install_at(reports, 1).stage == InstallStage::Perform(InstallAction::LocateAppDir),
        install_at(reports, 2).stage == InstallStage::Perform(InstallAction::CreateAppDir),
        install_at(reports, 3).stage == InstallStage::Perform(InstallAction::OpenUpdateMutex),
        install_at(reports, 4).stage == InstallStage::Perform(
            InstallAction::WaitUpdateMutex { millis: 30000 },
        ),
        Installer::initial().after_all(reports).stage == InstallStage::Perform(
            InstallAction::CheckInstalled,
        ),
{
    reveal_with_fuel(Installer::after_all, 6);
    assert(reports.take(4) =~= reports.drop_last());
    assert(reports.take(3) =~= reports.drop_last().drop_last());
    assert(reports.take(2) =~= reports.drop_last().drop_last().drop_last());
    assert(reports.take(1) =~= reports.take(2).drop_last());
    assert(reports.take(1).drop_last().len() == 0);
}

/// The worker is to start at logon after a first installation, and after an update exactly if it
/// did so before. Either way the old worker is stopped next.
pub proof fn law_what_decides_the_autostart(installer: Installer, reports: Seq<Report>)
    requires
        installer.stage == InstallStage::Perform(InstallAction::CheckInstalled),
        reports.len() == 3,
        reports[0].ok,
        reports[1].ok,
    ensures
        installer.after_all(reports.take(1)).stage == InstallStage::Perform(
            InstallAction::ConnectTasks,
        ),
        ({
            let stop = InstallStage::Perform(InstallAction::StopOldWorker);
            let connected = installer.after_all(reports.take(2));
            let asked = installer.after_all(reports);
            if reports[0].value == 0 {
                connected.stage == stop && connected.keep_autostart
            } else {
                &&& connected.stage == InstallStage::Perform(InstallAction::QueryAutostart)
                &&& asked.stage == stop
                &&& asked.keep_autostart == (reports[2].ok && reports[2].value != 0)
            }
        }),
{
    reveal_with_fuel(Installer::after_all, 4);
    assert(reports.take(2) =~= reports.drop_last());
    assert(reports.take(1) =~= reports.drop_last().drop_last());
    assert(reports.take(1).drop_last().len() == 0);
}

/// After the old worker is stopped, this executable is copied and put in its place, unless this
/// process runs the installed copy; then the worker is started, by the task if it is to start at
/// logon and directly otherwise.
pub proof fn law_copy_is_replaced_and_the_worker_started(
    installer: Installer,
    reports: Seq<Report>,
)
    requires
        installer.stage == InstallStage::Perform(InstallAction::StopOldWorker),
        reports.len() == 4,
        forall|i: int| 0 <= i < 4 ==> (#[trigger] reports[i]).ok,
    ensures
        ({
            let worker = InstallStage::Perform(
                if installer.keep_autostart {
                    InstallAction::RegisterTask
                } else {
                    InstallAction::SpawnWorker
                },
            );
            &&& installer.after_all(reports.take(1)).stage == InstallStage::Perform(
                InstallAction::ComparePaths,
            )
            &&& if reports[1].value != 0 {
                installer.after_all(reports.take(2)).stage == worker
            } else {
                &&& installer.after_all(reports.take(2)).stage == InstallStage::Perform(
                    InstallAction::CopyCurrent,
                )
                &&& installer.after_all(reports.take(3)).stage == InstallStage::Perform(
                    InstallAction::ReplaceInstalled,
                )
                &&& installer.after_all(reports).stage == worker
            }
        }),
{
    reveal_with_fuel(Installer::after_all, 5);
    assert(reports.take(3) =~= reports.drop_last());
    assert(reports.take(2) =~= reports.drop_last().drop_last());
    assert(reports.take(1) =~= reports.take(2).drop_last());
    assert(reports.take(1).drop_last().len() == 0);
    assert(reports[0].ok && reports[1].ok && reports[2].ok && reports[3].ok);
}

/// A task that is registered is run, and once a worker is started, the installation is done,
/// whether or not the mutex could be given back.
pub proof fn law_started_worker_completes_the_installation(
    installer: Installer,
    report: Report,
    started: Report,
    last: Report,
)
    requires
        report.ok,
        started.ok,
    ensures
        ({
            let release = InstallStage::Perform(InstallAction::ReleaseUpdateMutex);
            let registering = Installer {
                stage: InstallStage::Perform(InstallAction::RegisterTask),
                ..installer
            };
            let spawning = Installer {
                stage: InstallStage::Perform(InstallAction::SpawnWorker),
                ..installer
            };
            &&& registering.next(report).stage == InstallStage::Perform(InstallAction::RunTask)
            &&& registering.next(report).next(started).stage == release
            &&& registering.next(report).next(started).next(last).stage == InstallStage::Done
            &&& spawning.next(started).stage == release
            &&& spawning.next(started).next(last).stage == InstallStage::Done
        }),
{
}

/// An installation goes wrong exactly where an action fails that it cannot do without: all but the
/// wait for the mutex, the question for the automatic start and giving the mutex back. It is
/// refused exactly without administrator rights and while another update runs.
pub proof fn law_how_an_installation_fails(
    installer: Installer,
    action: InstallAction,
    report: Report,
)
    requires
        installer.stage == InstallStage::Perform(action),
    ensures
        installer.next(report).stage is Failed <==> {
            &&& !report.ok
            &&& !(action is WaitUpdateMutex)
            &&& !(action is QueryAutostart)
            &&& !(action is ReleaseUpdateMutex)
        },
        installer.next(report).stage matches InstallStage::Failed(failed) ==> failed == action,
        installer.next(report).stage == InstallStage::Refused(InstallError::InstallNeedsElevation)
            <==> action is CheckElevation && report.ok && report.value == 0,
        installer.next(report).stage == InstallStage::Refused(InstallError::UpdateRunning)
            <==> action is WaitUpdateMutex && !mutex_obtained(report),
        installer.next(report).stage is Refused ==> action is CheckElevation
            || action is WaitUpdateMutex,
{
}

} // verus!
