//! The decisions of the input threads: the clicker, the hook thread, the injector and the
//! watchdog.
//!
//! A thread performs the action that it is given and reports what came of it; the report and
//! the phase that the thread is in decide what it does next.

use vstd::prelude::*;

use crate::input::{MSG_INJECT, MSG_REHOOK, MSG_RESET};

verus! {

// ---------------------------------------------------------------------------------------
// The clicker
// ---------------------------------------------------------------------------------------

/// Milliseconds between two clicks of a button that is held.
pub const CLICK_INTERVAL_MS: u32 = 10;

/// The timeout of a wait that ends with its event alone.
pub const WAIT_FOREVER: u32 = 0xFFFF_FFFF;

/// The thread that clicks the mouse buttons.
#[derive(Clone, Copy, Debug, Eq, PartialEq, Structural)]
pub struct Clicker {
    /// Whether a button was clicked in the last round.
    pub clicking: bool,
}

/// The buttons to click, given their flags.
pub open spec fn buttons(active: Seq<bool>) -> Seq<usize> {
    (if active[0] {
        seq![0usize]
    } else {
        seq![]
    }) + (if active[1] {
        seq![1usize]
    } else {
        seq![]
    }) + (if active[2] {
        seq![2usize]
    } else {
        seq![]
    })
}

impl Clicker {
    /// How long the thread waits for the click event.
    pub open spec fn patience(self) -> u32 {
        if self.clicking {
            CLICK_INTERVAL_MS
        } else {
            WAIT_FOREVER
        }
    }

    /// The buttons to click after a wait, or nothing at all if the thread ends.
    pub open spec fn round(self, shutdown: bool, active: Seq<bool>) -> Option<Seq<usize>> {
        if !self.clicking && shutdown {
            None
        } else {
            Some(buttons(active))
        }
    }

    /// What follows a round, or nothing if the thread ends.
    pub open spec fn following(self, count: nat, shutdown: bool) -> Option<Clicker> {
        if shutdown {
            None
        } else {
            Some(Clicker { clicking: count > 0 })
        }
    }

    pub fn new() -> (clicker: Clicker)
        ensures
            clicker == (Clicker { clicking: false }),
    {
        Clicker { clicking: false }
    }

    /// How long to wait for the click event: in between two clicks for the length of the
    /// interval, otherwise until something changes.
    pub fn timeout(self) -> (millis: u32)
        ensures
            millis == self.patience(),
    {
        if self.clicking {
            CLICK_INTERVAL_MS
        } else {
            WAIT_FOREVER
        }
    }

    /// The buttons to click after a wait, or nothing at all if the thread ends. A round that
    /// follows another one is finished in any case.
    pub fn woken(self, shutdown: bool, active: [bool; 3]) -> (clicks: Option<Vec<usize>>)
        ensures
            match clicks {
                Some(clicks) => self.round(shutdown, active@) == Some(clicks@),
                None => self.round(shutdown, active@) is None,
            },
    {
        if !self.clicking && shutdown {
            return None;
        }
        let mut clicks: Vec<usize> = Vec::new();
        if active[0] {
            clicks.push(0);
        }
        if active[1] {
            clicks.push(1);
        }
        if active[2] {
            clicks.push(2);
        }
        assert(clicks@ =~= buttons(active@));
        Some(clicks)
    }

    /// What follows a round in which `count` buttons were clicked, or nothing if the thread
    /// ends.
    pub fn clicked(self, count: usize, shutdown: bool) -> (next: Option<Clicker>)
        ensures
            next == self.following(count as nat, shutdown),
    {
        if shutdown {
            None
        } else {
            Some(Clicker { clicking: count > 0 })
        }
    }
}

/// A button is among those to click exactly when its flag is set, and no button is clicked
/// twice in a round; they come in the order of their numbers.
pub proof fn law_clicked_buttons_are_the_active_ones(active: Seq<bool>, index: usize)
    requires
        active.len() == 3,
    ensures
        buttons(active).contains(index) <==> index < 3 && active[index as int],
        buttons(active).no_duplicates(),
        forall|i: int, j: int|
            0 <= i < j < buttons(active).len() ==> (#[trigger] buttons(active)[i]) < (
            #[trigger] buttons(active)[j]),
{
    let first = if active[0] {
        seq![0usize]
    } else {
        seq![]
    };
    let second = if active[1] {
        seq![1usize]
    } else {
        seq![]
    };
    let third = if active[2] {
        seq![2usize]
    } else {
        seq![]
    };
    if active[0] {
        assert(buttons(active)[0] == 0);
    }
    if active[1] {
        assert(buttons(active)[first.len() as int] == 1);
    }
    if active[2] {
        assert(buttons(active)[(first + second).len() as int] == 2);
    }
}

/// As long as the flag of some button is set, a round of clicks follows another after 10 ms; once
/// none is set, the thread waits until something changes. Only the shutdown of the program ends
/// it.
pub proof fn law_clicks_go_on_while_held(clicker: Clicker, active: Seq<bool>)
    requires
        active.len() == 3,
    ensures
        clicker.round(false, active) == Some(buttons(active)),
        ({
            let next = clicker.following(buttons(active).len(), false);
            &&& next is Some
            &&& next->0.patience() == if active[0] || active[1] || active[2] {
                10u32
            } else {
                0xFFFF_FFFFu32
            }
        }),
{
}

/// The shutdown of the program ends the thread: at once where it was not clicking, otherwise after
/// the round that is under way.
pub proof fn law_clicker_ends_at_shutdown(
    clicker: Clicker,
    active: Seq<bool>,
    count: nat,
    shutdown: bool,
)
    ensures
        clicker.following(count, shutdown) is None <==> shutdown,
        clicker.round(shutdown, active) is None <==> shutdown && !clicker.clicking,
        clicker.round(shutdown, active) matches Some(clicks) ==> clicks == buttons(active),
{
}

// ---------------------------------------------------------------------------------------
// The injector
// ---------------------------------------------------------------------------------------

/// What the injector thread does with a message.
#[derive(Clone, Copy, Debug, Eq, PartialEq, Structural)]
pub enum InjectorStep {
    Stop,
    Inject,
    Ignore,
}

/// What the injector thread does with what came out of its message queue.
pub open spec fn injector_answer(result: i32, message: u32) -> InjectorStep {
    if result <= 0 {
        InjectorStep::Stop
    } else if message == MSG_INJECT {
        InjectorStep::Inject
    } else {
        InjectorStep::Ignore
    }
}

/// The injector thread goes on until the message to quit or an error comes, and types exactly on
/// the message that carries an action.
pub proof fn law_injector_types_what_it_is_sent(result: i32, message: u32)
    ensures
        injector_answer(result, message) == InjectorStep::Stop <==> result <= 0,
        injector_answer(result, message) == InjectorStep::Inject <==> result > 0 && message
            == 0x8001,
{
}

/// Decides on what came out of the message queue; `result` is zero for the message to quit and
/// negative for an error.
pub fn injector_step(result: i32, message: u32) -> (step: InjectorStep)
    ensures
        step == injector_answer(result, message),
{
    if result <= 0 {
        InjectorStep::Stop
    } else if message == MSG_INJECT {
        InjectorStep::Inject
    } else {
        InjectorStep::Ignore
    }
}

// ---------------------------------------------------------------------------------------
// The hook thread
// ---------------------------------------------------------------------------------------

/// How often installing the hook anew is tried.
pub const REINSTALL_ATTEMPTS: u32 = 20;

/// Milliseconds between two attempts.
pub const REINSTALL_PAUSE_MS: u32 = 250;

/// The exit code of a process that has lost its hook; the scheduled task starts it anew.
pub const EXIT_HOOK_LOST: i32 = 2;

/// What the hook thread waits to hear of.
#[derive(Clone, Copy, Debug, Eq, PartialEq, Structural)]
pub enum HookPhase {
    /// The first installation of the hook.
    Installing,
    /// The report to the thread that started this one.
    Announcing,
    /// Nothing: it is about to wait for a message.
    Idle,
    /// A message.
    Waiting,
    /// An attempt to install the hook anew.
    Reinstalling { attempt: u32 },
    /// The end of the pause after a failed attempt.
    Pausing { attempt: u32 },
    /// Nothing any more.
    Ended,
}

/// What the hook thread does next.
#[derive(Clone, Copy, Debug, Eq, PartialEq, Structural)]
pub enum HookAction {
    /// Install the hook.
    Install,
    /// Remove the hook and install it anew.
    Reinstall,
    /// Tell the starting thread that the hook is in place.
    AnnounceReady,
    /// Tell the starting thread that it is not, and end.
    AnnounceFailure,
    /// Wait for a message.
    Wait,
    /// Take over the physical state of the keyboard.
    Resynchronize,
    /// Sleep after a failed attempt.
    Pause { attempt: u32, millis: u32 },
    /// Remove the hook and end.
    Unhook,
    /// End the whole process.
    Exit { code: i32 },
    /// Nothing.
    Continue,
}

/// What came of an action of the hook thread.
#[derive(Clone, Copy, Debug, Eq, PartialEq, Structural)]
pub struct HookReport {
    /// Whether an installation or an announcement succeeded.
    pub ok: bool,
    /// Whether the program is shutting down.
    pub shutdown: bool,
    /// What waiting for a message returned.
    pub result: i32,
    /// The message.
    pub message: u32,
}

impl HookPhase {
    /// The phase and the action that follow a report.
    pub open spec fn next(self, report: HookReport) -> (HookPhase, HookAction) {
        match self {
            HookPhase::Installing => if report.ok {
                (HookPhase::Announcing, HookAction::AnnounceReady)
            } else {
                (HookPhase::Ended, HookAction::AnnounceFailure)
            },
            HookPhase::Announcing => if report.ok {
                (HookPhase::Idle, HookAction::Continue)
            } else {
                (HookPhase::Ended, HookAction::Unhook)
            },
            HookPhase::Idle => if report.shutdown {
                (HookPhase::Ended, HookAction::Unhook)
            } else {
                (HookPhase::Waiting, HookAction::Wait)
            },
            HookPhase::Waiting => if report.result <= 0 {
                (HookPhase::Ended, HookAction::Unhook)
            } else if report.message == MSG_REHOOK {
                (HookPhase::Reinstalling { attempt: 1 }, HookAction::Reinstall)
            } else if report.message == MSG_RESET {
                (HookPhase::Idle, HookAction::Resynchronize)
            } else {
                (HookPhase::Idle, HookAction::Continue)
            },
            HookPhase::Reinstalling { attempt } => if report.ok {
                (HookPhase::Idle, HookAction::Resynchronize)
            } else {
                (
                    HookPhase::Pausing { attempt },
                    HookAction::Pause { attempt, millis: REINSTALL_PAUSE_MS },
                )
            },
            HookPhase::Pausing { attempt } => if attempt < REINSTALL_ATTEMPTS {
                (HookPhase::Reinstalling { attempt: (attempt + 1) as u32 }, HookAction::Install)
            } else {
                (HookPhase::Ended, HookAction::Exit { code: EXIT_HOOK_LOST })
            },
            HookPhase::Ended => (HookPhase::Ended, HookAction::Continue),
        }
    }

    /// The phase that the hook thread begins in and what it does first, in this order: it takes
    /// over the physical state of the keyboard and installs the hook. Its first report is on that
    /// installation.
    pub fn start() -> (first: (HookPhase, [HookAction; 2]))
        ensures
            first.0 == HookPhase::Installing,
            first.1@ == seq![HookAction::Resynchronize, HookAction::Install],
    {
        let actions: [HookAction; 2] = [HookAction::Resynchronize, HookAction::Install];
        assert(actions@ =~= seq![HookAction::Resynchronize, HookAction::Install]);
        (HookPhase::Installing, actions)
    }

    /// Decides what the hook thread does after a report, the first one being on what
    /// [`HookPhase::start`] says.
    pub fn step(self, report: HookReport) -> (next: (HookPhase, HookAction))
        ensures
            next == self.next(report),
    {
        match self {
            HookPhase::Installing => if report.ok {
                (HookPhase::Announcing, HookAction::AnnounceReady)
            } else {
                (HookPhase::Ended, HookAction::AnnounceFailure)
            },
            HookPhase::Announcing => if report.ok {
                (HookPhase::Idle, HookAction::Continue)
            } else {
                (HookPhase::Ended, HookAction::Unhook)
            },
            HookPhase::Idle => if report.shutdown {
                (HookPhase::Ended, HookAction::Unhook)
            } else {
                (HookPhase::Waiting, HookAction::Wait)
            },
            HookPhase::Waiting => if report.result <= 0 {
                (HookPhase::Ended, HookAction::Unhook)
            } else {
                match report.message {
                    MSG_REHOOK => (HookPhase::Reinstalling { attempt: 1 }, HookAction::Reinstall),
                    MSG_RESET => (HookPhase::Idle, HookAction::Resynchronize),
                    _ => (HookPhase::Idle, HookAction::Continue),
                }
            },
            HookPhase::Reinstalling { attempt } => if report.ok {
                (HookPhase::Idle, HookAction::Resynchronize)
            } else {
                (
                    HookPhase::Pausing { attempt },
                    HookAction::Pause { attempt, millis: REINSTALL_PAUSE_MS },
                )
            },
            HookPhase::Pausing { attempt } => if attempt < REINSTALL_ATTEMPTS {
                (HookPhase::Reinstalling { attempt: attempt + 1 }, HookAction::Install)
            } else {
                (HookPhase::Ended, HookAction::Exit { code: EXIT_HOOK_LOST })
            },
            HookPhase::Ended => (HookPhase::Ended, HookAction::Continue),
        }
    }

    /// The phase after a sequence of reports.
    pub open spec fn after_all(self, reports: Seq<HookReport>) -> HookPhase
        decreases reports.len(),
    {
        if reports.len() == 0 {
            self
        } else {
            self.after_all(reports.drop_last()).next(reports.last()).0
        }
    }
}

/// Once the hook is to be installed anew, the attempts go on as long as they fail, twenty of
/// them, and then the process ends; the first one that succeeds is followed by taking over the
/// physical state of the keyboard. `failures` is the number of attempts that failed so far.
pub proof fn law_reinstallation(reports: Seq<HookReport>, failures: nat, last: HookReport)
    requires
        failures < REINSTALL_ATTEMPTS,
        reports.len() == 2 * failures,
        forall|i: int| 0 <= i < failures ==> !(#[trigger] reports[2 * i]).ok,
    ensures
        ({
            let start = HookPhase::Reinstalling { attempt: 1 };
            let phase = start.after_all(reports);
            let (next, action) = phase.next(last);
            &&& phase == HookPhase::Reinstalling { attempt: (failures + 1) as u32 }
            &&& last.ok ==> next == HookPhase::Idle && action == HookAction::Resynchronize
            &&& !last.ok ==> action == HookAction::Pause {
                attempt: (failures + 1) as u32,
                millis: REINSTALL_PAUSE_MS,
            }
            &&& !last.ok ==> forall|woken: HookReport|
                (#[trigger] next.next(woken)).1 == if failures + 1 < REINSTALL_ATTEMPTS {
                    HookAction::Install
                } else {
                    HookAction::Exit { code: EXIT_HOOK_LOST }
                }
        }),
    decreases failures,
{
    if failures > 0 {
        let before = reports.drop_last().drop_last();
        let fewer = (failures - 1) as nat;
        assert forall|i: int| 0 <= i < fewer implies !(#[trigger] before[2 * i]).ok by {
            assert(before[2 * i] == reports[2 * i]);
        }
        law_reinstallation(before, fewer, last);
        assert(reports.drop_last().last() == reports[2 * (failures - 1)]);
        reveal_with_fuel(HookPhase::after_all, 3);
    }
}

/// The reports before the one at `end`, every second one of them, are of failures.
pub open spec fn failed_before(reports: Seq<HookReport>, end: int, count: int) -> bool {
    &&& 2 * count <= end + 1
    &&& forall|k: int| 0 <= k < count ==> !(#[trigger] reports[end - 2 * k]).ok
}

proof fn lemma_attempts_failed(reports: Seq<HookReport>)
    ensures
        HookPhase::Installing.after_all(reports) matches HookPhase::Reinstalling { attempt } ==> {
            &&& 1 <= attempt <= REINSTALL_ATTEMPTS
            &&& failed_before(reports, reports.len() - 2, attempt - 1)
        },
        HookPhase::Installing.after_all(reports) matches HookPhase::Pausing { attempt } ==> {
            &&& 1 <= attempt <= REINSTALL_ATTEMPTS
            &&& failed_before(reports, reports.len() - 1, attempt as int)
        },
    decreases reports.len(),
{
    if reports.len() > 0 {
        let before = reports.drop_last();
        lemma_attempts_failed(before);
        match HookPhase::Installing.after_all(before) {
            HookPhase::Reinstalling { attempt } => {
                if !reports.last().ok {
                    let end = reports.len() - 1;
                    assert forall|k: int| 0 <= k < attempt implies !(#[trigger] reports[end - 2
                        * k]).ok by {
                        if k > 0 {
                            assert(!before[(before.len() - 2) - 2 * (k - 1)].ok);
                        }
                    }
                }
            },
            HookPhase::Pausing { attempt } => {
                if attempt < REINSTALL_ATTEMPTS {
                    let end = reports.len() - 2;
                    assert forall|k: int| 0 <= k < attempt implies !(#[trigger] reports[end - 2
                        * k]).ok by {
                        assert(!before[(before.len() - 1) - 2 * k].ok);
                    }
                }
            },
            _ => {},
        }
    }
}

/// The process gives up only when twenty attempts in a row have failed.
pub proof fn law_exit_only_when_all_attempts_failed(reports: Seq<HookReport>, report: HookReport)
    requires
        HookPhase::Installing.after_all(reports).next(report).1 is Exit,
    ensures
        HookPhase::Installing.after_all(reports).next(report).1 == (HookAction::Exit {
            code: EXIT_HOOK_LOST,
        }),
        failed_before(reports, reports.len() - 1, REINSTALL_ATTEMPTS as int),
{
    lemma_attempts_failed(reports);
}

/// Report `i` is on a wait that has brought `message`.
pub open spec fn message_at(reports: Seq<HookReport>, message: u32, i: int) -> bool {
    &&& 0 <= i < reports.len()
    &&& HookPhase::Installing.after_all(reports.take(i)) == HookPhase::Waiting
    &&& reports[i].result > 0
    &&& reports[i].message == message
}

/// All that the hook thread has done since report `i` is to install the hook anew.
pub open spec fn reinstalling_since(reports: Seq<HookReport>, i: int) -> bool {
    forall|k: int|
        i < k <= reports.len() ==> {
            let phase = #[trigger] HookPhase::Installing.after_all(reports.take(k));
            phase is Reinstalling || phase is Pausing
        }
}

/// What is held is not forgotten for no reason: the hook thread takes over the physical state of
/// the keyboard only when the message to do so has just come, or when the hook has just been
/// installed anew, as the message asked for that began this reinstallation.
pub proof fn law_held_keys_are_kept_unless_asked(reports: Seq<HookReport>, report: HookReport)
    requires
        HookPhase::Installing.after_all(reports).next(report).1 == HookAction::Resynchronize,
    ensures
        ({
            ||| HookPhase::Installing.after_all(reports) == HookPhase::Waiting && report.result > 0
                && report.message == MSG_RESET
            ||| report.ok && exists|i: int| #[trigger]
                message_at(reports, MSG_REHOOK, i) && reinstalling_since(reports, i)
        }),
{
    lemma_reinstallation_was_asked_for(reports);
}

proof fn lemma_reinstallation_was_asked_for(reports: Seq<HookReport>)
    ensures
        ({
            let phase = HookPhase::Installing.after_all(reports);
            phase is Reinstalling || phase is Pausing ==> exists|i: int| #[trigger]
                message_at(reports, MSG_REHOOK, i) && reinstalling_since(reports, i)
        }),
    decreases reports.len(),
{
    if reports.len() > 0 {
        let before = reports.drop_last();
        let last = reports.len() - 1;
        let earlier = HookPhase::Installing.after_all(before);
        lemma_reinstallation_was_asked_for(before);
        assert(reports.take(last) =~= before);
        assert(reports.take(reports.len() as int) =~= reports);
        let phase = HookPhase::Installing.after_all(reports);
        if phase is Reinstalling || phase is Pausing {
            if earlier is Reinstalling || earlier is Pausing {
                let i = choose|i: int| #[trigger]
                    message_at(before, MSG_REHOOK, i) && reinstalling_since(before, i);
                assert(before.take(i) =~= reports.take(i));
                assert(message_at(reports, MSG_REHOOK, i));
                assert forall|k: int| i < k <= reports.len() implies ({
                    let reached = #[trigger] HookPhase::Installing.after_all(reports.take(k));
                    reached is Reinstalling || reached is Pausing
                }) by {
                    if k < reports.len() {
                        assert(before.take(k) =~= reports.take(k));
                        let reached = HookPhase::Installing.after_all(before.take(k));
                        assert(reached is Reinstalling || reached is Pausing);
                    }
                }
                assert(reinstalling_since(reports, i));
            } else {
                assert(message_at(reports, MSG_REHOOK, last));
                assert(reinstalling_since(reports, last));
            }
        }
    }
}

/// Once the hook is in place and announced, the thread waits for messages until the program shuts
/// down. The message to install the hook anew and the message to take over the keyboard are
/// followed, all others ignored; after each of them it goes on waiting.
pub proof fn law_hook_thread_serves_its_messages(report: HookReport)
    ensures
        report.ok ==> HookPhase::Installing.next(report) == (
            HookPhase::Announcing,
            HookAction::AnnounceReady,
        ),
        report.ok ==> HookPhase::Announcing.next(report) == (
            HookPhase::Idle,
            HookAction::Continue,
        ),
        HookPhase::Idle.next(report).1 == HookAction::Wait <==> !report.shutdown,
        !report.shutdown ==> HookPhase::Idle.next(report).0 == HookPhase::Waiting,
        report.result > 0 ==> {
            let (phase, action) = HookPhase::Waiting.next(report);
            &&& action == HookAction::Reinstall <==> report.message == 0x8002
            &&& action == HookAction::Resynchronize <==> report.message == 0x8003
            &&& report.message != 0x8002 && report.message != 0x8003 ==> action
                == HookAction::Continue
            &&& report.message == 0x8002 ==> phase == HookPhase::Reinstalling { attempt: 1 }
            &&& report.message != 0x8002 ==> phase == HookPhase::Idle
        },
{
}

/// The hook thread ends for one of five reasons alone: the hook could not be installed or not be
/// announced, the program shuts down, the message queue is at its end, or twenty attempts to
/// install the hook anew have failed. Where the hook is in place by then, it is removed.
pub proof fn law_hook_thread_ends_for_a_reason(phase: HookPhase, report: HookReport)
    requires
        phase != HookPhase::Ended,
    ensures
        phase.next(report).0 == HookPhase::Ended <==> {
            ||| phase == HookPhase::Installing && !report.ok
            ||| phase == HookPhase::Announcing && !report.ok
            ||| phase == HookPhase::Idle && report.shutdown
            ||| phase == HookPhase::Waiting && report.result <= 0
            ||| phase matches HookPhase::Pausing { attempt } && attempt >= 20
        },
        phase.next(report).1 == HookAction::Unhook <==> {
            ||| phase == HookPhase::Announcing && !report.ok
            ||| phase == HookPhase::Idle && report.shutdown
            ||| phase == HookPhase::Waiting && report.result <= 0
        },
        phase.next(report).1 == HookAction::AnnounceFailure <==> phase == HookPhase::Installing
            && !report.ok,
        phase.next(report).1 is Exit ==> phase.next(report).1 == (HookAction::Exit { code: 2 }),
        phase.next(report).1 is Exit <==> (phase matches HookPhase::Pausing { attempt } && attempt
            >= 20),
{
}

/// Installing the hook anew: an attempt that fails is followed by a quarter of a second and the
/// next attempt, counted up to twenty; one that succeeds by taking over the keyboard.
pub proof fn law_attempts_are_counted(attempt: u32, report: HookReport)
    ensures
        ({
            let (phase, action) = HookPhase::Reinstalling { attempt }.next(report);
            if report.ok {
                phase == HookPhase::Idle && action == HookAction::Resynchronize
            } else {
                &&& phase == HookPhase::Pausing { attempt }
                &&& action == HookAction::Pause { attempt, millis: 250 }
            }
        }),
        attempt < 20 ==> {
            let (phase, action) = HookPhase::Pausing { attempt }.next(report);
            &&& action == HookAction::Install
            &&& phase matches HookPhase::Reinstalling { attempt: next } && next == attempt + 1
        },
{
}

// ---------------------------------------------------------------------------------------
// The watchdog
// ---------------------------------------------------------------------------------------

/// How many seconds the watchdog sleeps between two probes.
pub const REST_NAPS: u32 = 5;

pub const REST_NAP_MS: u32 = 1000;

/// How often the watchdog looks for the acknowledgement of a probe.
pub const PROBE_POLLS: u32 = 20;

pub const PROBE_POLL_MS: u32 = 100;

/// What the watchdog is doing.
#[derive(Clone, Copy, Debug, Eq, PartialEq, Structural)]
pub enum WatchdogPhase {
    /// Resting between two probes.
    Resting { naps: u32 },
    /// Sending a probe.
    Probing,
    /// Waiting for the acknowledgement.
    Polling { polls: u32 },
    /// Nothing any more.
    Stopped,
}

/// The thread that checks whether the hook still receives events.
#[derive(Clone, Copy, Debug, Eq, PartialEq, Structural)]
pub struct Watchdog {
    /// The number of the latest probe.
    pub generation: u32,
    /// Whether the latest probe that was decided on was acknowledged.
    pub confirmed: bool,
    pub phase: WatchdogPhase,
}

/// What the watchdog does next.
#[derive(Clone, Copy, Debug, Eq, PartialEq, Structural)]
pub enum WatchdogAction {
    Sleep { millis: u32 },
    /// Publish the number of the probe and inject it.
    Probe { generation: u32 },
    /// Note that the probe could not be injected.
    NoteNotSent,
    /// Note that the hook has answered, for the first time or after a failure.
    NoteConfirmed,
    /// Ask the hook thread to install the hook anew.
    Rehook,
    /// End.
    Stop,
    /// Nothing.
    Continue,
}

/// What came of an action of the watchdog.
#[derive(Clone, Copy, Debug, Eq, PartialEq, Structural)]
pub struct WatchdogReport {
    /// Whether the program is shutting down.
    pub shutdown: bool,
    /// Whether the probe was injected.
    pub sent: bool,
    /// The number of the probe that the hook acknowledged last, zero if none.
    pub acknowledged: u32,
}

/// The number of the probe after a given one: never zero, which stands for no probe at all.
pub open spec fn next_generation(generation: u32) -> u32 {
    if generation == u32::MAX {
        1
    } else {
        (generation + 1) as u32
    }
}

impl Watchdog {
    pub open spec fn initial() -> Watchdog {
        Watchdog { generation: 0, confirmed: false, phase: WatchdogPhase::Resting { naps: 0 } }
    }

    pub open spec fn with(self, phase: WatchdogPhase) -> Watchdog {
        Watchdog { phase, ..self }
    }

    /// The state and the action that follow a report.
    pub open spec fn next(self, report: WatchdogReport) -> (Watchdog, WatchdogAction) {
        let resting = WatchdogPhase::Resting { naps: 0 };
        match self.phase {
            WatchdogPhase::Resting { naps } => if naps >= REST_NAPS {
                let generation = next_generation(self.generation);
                (
                    Watchdog { generation, phase: WatchdogPhase::Probing, ..self },
                    WatchdogAction::Probe { generation },
                )
            } else if report.shutdown {
                (self.with(WatchdogPhase::Stopped), WatchdogAction::Stop)
            } else {
                (
                    self.with(WatchdogPhase::Resting { naps: (naps + 1) as u32 }),
                    WatchdogAction::Sleep { millis: REST_NAP_MS },
                )
            },
            WatchdogPhase::Probing => if report.sent {
                (self.with(WatchdogPhase::Polling { polls: 0 }), WatchdogAction::Continue)
            } else {
                (self.with(resting), WatchdogAction::NoteNotSent)
            },
            WatchdogPhase::Polling { polls } => if polls >= PROBE_POLLS {
                (Watchdog { confirmed: false, phase: resting, ..self }, WatchdogAction::Rehook)
            } else if report.shutdown {
                (self.with(WatchdogPhase::Stopped), WatchdogAction::Stop)
            } else if report.acknowledged == self.generation {
                (
                    Watchdog { confirmed: true, phase: resting, ..self },
                    if self.confirmed {
                        WatchdogAction::Continue
                    } else {
                        WatchdogAction::NoteConfirmed
                    },
                )
            } else {
                (
                    self.with(WatchdogPhase::Polling { polls: (polls + 1) as u32 }),
                    WatchdogAction::Sleep { millis: PROBE_POLL_MS },
                )
            },
            WatchdogPhase::Stopped => (self, WatchdogAction::Stop),
        }
    }

    /// The state after a sequence of reports.
    pub open spec fn after_all(self, reports: Seq<WatchdogReport>) -> Watchdog
        decreases reports.len(),
    {
        if reports.len() == 0 {
            self
        } else {
            self.after_all(reports.drop_last()).next(reports.last()).0
        }
    }

    pub fn new() -> (watchdog: Watchdog)
        ensures
            watchdog == Watchdog::initial(),
    {
        Watchdog { generation: 0, confirmed: false, phase: WatchdogPhase::Resting { naps: 0 } }
    }

    /// Decides what the watchdog does after a report; the first report only says whether the
    /// program is shutting down.
    pub fn step(&mut self, report: WatchdogReport) -> (action: WatchdogAction)
        ensures
            (*final(self), action) == old(self).next(report),
    {
        match self.phase {
            WatchdogPhase::Resting { naps } => {
                if naps < REST_NAPS {
                    if report.shutdown {
                        self.phase = WatchdogPhase::Stopped;
                        return WatchdogAction::Stop;
                    }
                    self.phase = WatchdogPhase::Resting { naps: naps + 1 };
                    return WatchdogAction::Sleep { millis: REST_NAP_MS };
                }
                let mut generation: u32 = self.generation.wrapping_add(1);
                if generation == 0 {
                    generation = 1;
                }
                self.generation = generation;
                self.phase = WatchdogPhase::Probing;
                WatchdogAction::Probe { generation }
            },
            WatchdogPhase::Probing => {
                if !report.sent {
                    self.phase = WatchdogPhase::Resting { naps: 0 };
                    return WatchdogAction::NoteNotSent;
                }
                self.phase = WatchdogPhase::Polling { polls: 0 };
                WatchdogAction::Continue
            },
            WatchdogPhase::Polling { polls } => {
                if polls < PROBE_POLLS {
                    if report.shutdown {
                        self.phase = WatchdogPhase::Stopped;
                        return WatchdogAction::Stop;
                    }
                    if report.acknowledged == self.generation {
                        self.phase = WatchdogPhase::Resting { naps: 0 };
                        if self.confirmed {
                            return WatchdogAction::Continue;
                        }
                        self.confirmed = true;
                        return WatchdogAction::NoteConfirmed;
                    }
                    self.phase = WatchdogPhase::Polling { polls: polls + 1 };
                    return WatchdogAction::Sleep { millis: PROBE_POLL_MS };
                }
                self.phase = WatchdogPhase::Resting { naps: 0 };
                self.confirmed = false;
                WatchdogAction::Rehook
            },
            WatchdogPhase::Stopped => WatchdogAction::Stop,
        }
    }
}

/// No two probes in a row have the same number, and none has the number zero, which stands for
/// no probe at all.
pub proof fn law_probe_numbers_differ(generation: u32)
    ensures
        next_generation(generation) != generation,
        next_generation(generation) != 0,
{
}

/// The last `count` reports found the latest probe unacknowledged.
pub open spec fn unacknowledged(
    reports: Seq<WatchdogReport>,
    generation: u32,
    count: int,
) -> bool {
    &&& count <= reports.len()
    &&& forall|k: int|
        reports.len() - count <= k < reports.len() ==> {
            &&& (#[trigger] reports[k]).acknowledged != generation
            &&& !reports[k].shutdown
        }
}

proof fn lemma_polls_found_nothing(reports: Seq<WatchdogReport>)
    ensures
        ({
            let reached = Watchdog::initial().after_all(reports);
            reached.phase matches WatchdogPhase::Polling { polls } ==> {
                &&& polls <= PROBE_POLLS
                &&& unacknowledged(reports, reached.generation, polls as int)
                &&& polls < reports.len()
                &&& reports[reports.len() - polls - 1].sent
            }
        }),
    decreases reports.len(),
{
    if reports.len() > 0 {
        let before = reports.drop_last();
        lemma_polls_found_nothing(before);
        let reached = Watchdog::initial().after_all(before);
        if let WatchdogPhase::Polling { polls } = reached.phase {
            let (next, _) = reached.next(reports.last());
            if let WatchdogPhase::Polling { polls: more } = next.phase {
                if !reports.last().shutdown {
                    assert forall|k: int|
                        reports.len() - more <= k < reports.len() implies (#[trigger] reports[k]).acknowledged
                        != next.generation && !reports[k].shutdown by {
                        if k < before.len() {
                            assert(before[k] == reports[k]);
                        }
                    }
                }
            }
        }
    }
}

/// The hook is installed anew only when a probe was sent and then stayed unacknowledged through
/// all twenty polls that followed.
pub proof fn law_rehook_only_after_a_timeout(reports: Seq<WatchdogReport>, report: WatchdogReport)
    requires
        Watchdog::initial().after_all(reports).next(report).1 is Rehook,
    ensures
        unacknowledged(
            reports,
            Watchdog::initial().after_all(reports).generation,
            PROBE_POLLS as int,
        ),
        reports.len() > PROBE_POLLS,
        reports[reports.len() - PROBE_POLLS - 1].sent,
{
    lemma_polls_found_nothing(reports);
}

/// A probe that is not acknowledged in twenty polls has the hook installed anew.
pub proof fn law_timeout_leads_to_rehook(
    watchdog: Watchdog,
    reports: Seq<WatchdogReport>,
    report: WatchdogReport,
)
    requires
        watchdog.phase == (WatchdogPhase::Polling { polls: 0 }),
        reports.len() == PROBE_POLLS,
        unacknowledged(reports, watchdog.generation, reports.len() as int),
    ensures
        watchdog.after_all(reports).next(report).1 is Rehook,
{
    lemma_polling_goes_on(watchdog, reports);
}

proof fn lemma_polling_goes_on(watchdog: Watchdog, reports: Seq<WatchdogReport>)
    requires
        watchdog.phase == (WatchdogPhase::Polling { polls: 0 }),
        reports.len() <= PROBE_POLLS,
        unacknowledged(reports, watchdog.generation, reports.len() as int),
    ensures
        watchdog.after_all(reports) == watchdog.with(
            WatchdogPhase::Polling { polls: reports.len() as u32 },
        ),
    decreases reports.len(),
{
    if reports.len() > 0 {
        let before = reports.drop_last();
        assert forall|k: int| 0 <= k < before.len() implies (#[trigger] before[k]).acknowledged
            != watchdog.generation && !before[k].shutdown by {
            assert(before[k] == reports[k]);
        }
        lemma_polling_goes_on(watchdog, before);
        assert(reports[reports.len() - 1].acknowledged != watchdog.generation);
    }
}

/// The watchdog ends at the shutdown of the program alone.
pub proof fn law_watchdog_stops_at_shutdown_alone(
    reports: Seq<WatchdogReport>,
    report: WatchdogReport,
)
    requires
        !report.shutdown,
        forall|i: int| 0 <= i < reports.len() ==> !(#[trigger] reports[i]).shutdown,
    ensures
        ({
            let (next, action) = Watchdog::initial().after_all(reports).next(report);
            &&& action != WatchdogAction::Stop
            &&& next.phase != WatchdogPhase::Stopped
        }),
    decreases reports.len(),
{
    if reports.len() > 0 {
        let before = reports.drop_last();
        assert forall|i: int| 0 <= i < before.len() implies !(#[trigger] before[i]).shutdown by {
            assert(before[i] == reports[i]);
        }
        assert(!reports[reports.len() - 1].shutdown);
        law_watchdog_stops_at_shutdown_alone(before, reports.last());
    }
}

/// A watchdog that rests or waits for an acknowledgement heeds the shutdown of the program, but
/// for the moment in which the rest or the wait is over.
pub proof fn law_watchdog_heeds_shutdown(watchdog: Watchdog, report: WatchdogReport)
    requires
        report.shutdown,
        ({
            ||| watchdog.phase matches WatchdogPhase::Resting { naps } && naps < 5
            ||| watchdog.phase matches WatchdogPhase::Polling { polls } && polls < 20
        }),
    ensures
        watchdog.next(report).1 == WatchdogAction::Stop,
        watchdog.next(report).0.phase == WatchdogPhase::Stopped,
{
}

/// The number of a probe is one more than that of the probe before, with one behind the largest.
pub open spec fn numbers_follow(earlier: u32, later: u32) -> bool {
    if earlier == 0xFFFF_FFFF {
        later == 1
    } else {
        later == earlier + 1
    }
}

/// Unless the program shuts down, five naps of a second are followed by the next probe.
pub proof fn law_rest_is_followed_by_a_probe(
    watchdog: Watchdog,
    reports: Seq<WatchdogReport>,
    report: WatchdogReport,
)
    requires
        watchdog.phase == (WatchdogPhase::Resting { naps: 0 }),
        reports.len() == 5,
        forall|i: int| 0 <= i < 5 ==> !(#[trigger] reports[i]).shutdown,
    ensures
        forall|i: int|
            0 <= i < 5 ==> (#[trigger] watchdog.after_all(reports.take(i)).next(reports[i])).1 == (
            WatchdogAction::Sleep { millis: 1000 }),
        ({
            let (next, action) = watchdog.after_all(reports).next(report);
            &&& next.phase == WatchdogPhase::Probing
            &&& next.confirmed == watchdog.confirmed
            &&& numbers_follow(watchdog.generation, next.generation)
            &&& action == WatchdogAction::Probe { generation: next.generation }
        }),
{
    lemma_naps(watchdog, reports, 5);
    assert forall|i: int| 0 <= i < 5 implies (#[trigger] watchdog.after_all(reports.take(i)).next(
        reports[i],
    )).1 == (WatchdogAction::Sleep { millis: 1000 }) by {
        lemma_naps(watchdog, reports, i);
        assert(!reports[i].shutdown);
    }
    assert(reports.take(5) =~= reports);
}

proof fn lemma_naps(watchdog: Watchdog, reports: Seq<WatchdogReport>, count: int)
    requires
        watchdog.phase == (WatchdogPhase::Resting { naps: 0 }),
        reports.len() == 5,
        forall|i: int| 0 <= i < 5 ==> !(#[trigger] reports[i]).shutdown,
        0 <= count <= 5,
    ensures
        watchdog.after_all(reports.take(count)) == (Watchdog {
            phase: WatchdogPhase::Resting { naps: count as u32 },
            ..watchdog
        }),
    decreases count,
{
    if count > 0 {
        lemma_naps(watchdog, reports, count - 1);
        assert(reports.take(count).drop_last() =~= reports.take(count - 1));
        assert(reports.take(count).last() == reports[count - 1]);
    }
}

/// A probe that could not be sent is noted and followed by a rest, not by a new hook; one that was
/// sent is waited for.
pub proof fn law_unsent_probe_has_no_consequence(watchdog: Watchdog, report: WatchdogReport)
    requires
        watchdog.phase == WatchdogPhase::Probing,
    ensures
        ({
            let (next, action) = watchdog.next(report);
            &&& next.generation == watchdog.generation
            &&& next.confirmed == watchdog.confirmed
            &&& report.sent ==> next.phase == (WatchdogPhase::Polling { polls: 0 }) && action
                == WatchdogAction::Continue
            &&& !report.sent ==> next.phase == (WatchdogPhase::Resting { naps: 0 }) && action
                == WatchdogAction::NoteNotSent
        }),
{
}

/// Waiting for the acknowledgement of a probe: while there is none, the watchdog looks again after
/// a tenth of a second, twenty times; after that the hook is installed anew and the watchdog
/// rests. The acknowledgement ends the wait and lets it rest as well. It is noted if the hook had
/// not been confirmed before.
pub proof fn law_waiting_for_the_acknowledgement(
    watchdog: Watchdog,
    polls: u32,
    report: WatchdogReport,
)
    requires
        watchdog.phase == (WatchdogPhase::Polling { polls }),
        polls < 20 ==> !report.shutdown,
    ensures
        ({
            let (next, action) = watchdog.next(report);
            let acknowledged = report.acknowledged == watchdog.generation;
            &&& next.generation == watchdog.generation
            &&& polls < 20 && acknowledged ==> {
                &&& next.phase == (WatchdogPhase::Resting { naps: 0 })
                &&& next.confirmed
                &&& action == WatchdogAction::NoteConfirmed <==> !watchdog.confirmed
                &&& action == WatchdogAction::Continue <==> watchdog.confirmed
            }
            &&& polls < 20 && !acknowledged ==> {
                &&& next.phase matches WatchdogPhase::Polling { polls: more } && more == polls + 1
                &&& next.confirmed == watchdog.confirmed
                &&& action == WatchdogAction::Sleep { millis: 100 }
            }
            &&& polls >= 20 ==> {
                &&& next.phase == (WatchdogPhase::Resting { naps: 0 })
                &&& !next.confirmed
                &&& action == WatchdogAction::Rehook
            }
        }),
{
}

/// The watch goes on: a probe that is acknowledged in time is followed, after a rest of five naps,
/// by the next probe.
pub proof fn law_acknowledged_probe_is_followed_by_the_next(
    watchdog: Watchdog,
    polls: u32,
    acknowledgement: WatchdogReport,
    naps: Seq<WatchdogReport>,
    report: WatchdogReport,
)
    requires
        watchdog.phase == (WatchdogPhase::Polling { polls }),
        polls < 20,
        acknowledgement.acknowledged == watchdog.generation,
        !acknowledgement.shutdown,
        naps.len() == 5,
        forall|i: int| 0 <= i < 5 ==> !(#[trigger] naps[i]).shutdown,
    ensures
        ({
            let resting = watchdog.next(acknowledgement).0;
            let (next, action) = resting.after_all(naps).next(report);
            &&& resting.phase == (WatchdogPhase::Resting { naps: 0 })
            &&& next.phase == WatchdogPhase::Probing
            &&& numbers_follow(watchdog.generation, next.generation)
            &&& action == WatchdogAction::Probe { generation: next.generation }
        }),
{
    law_rest_is_followed_by_a_probe(watchdog.next(acknowledgement).0, naps, report);
}

/// The watchdog begins with a rest, before the first probe, which has the number one.
pub proof fn law_watchdog_begins_with_a_rest()
    ensures
        Watchdog::initial().phase == (WatchdogPhase::Resting { naps: 0 }),
        !Watchdog::initial().confirmed,
        numbers_follow(Watchdog::initial().generation, 1),
{
}

} // verus!
