use capslockrs::input::{MSG_INJECT, MSG_REHOOK, MSG_RESET};
use capslockrs::runtime::{
    injector_step, Clicker, HookAction, HookPhase, HookReport, InjectorStep, Watchdog,
    WatchdogAction, WatchdogReport, CLICK_INTERVAL_MS, EXIT_HOOK_LOST, WAIT_FOREVER,
};

const QUIET: HookReport = HookReport {
    ok: true,
    shutdown: false,
    result: 1,
    message: 0,
};

const FAILED: HookReport = HookReport { ok: false, ..QUIET };

fn message(message: u32) -> HookReport {
    HookReport { message, ..QUIET }
}

fn report(shutdown: bool, sent: bool, acknowledged: u32) -> WatchdogReport {
    WatchdogReport {
        shutdown,
        sent,
        acknowledged,
    }
}

/// Lets the watchdog rest and returns the number of the probe that follows.
fn rest(watchdog: &mut Watchdog) -> u32 {
    for _ in 0..5 {
        assert_eq!(
            watchdog.step(report(false, true, 0)),
            WatchdogAction::Sleep { millis: 1000 }
        );
    }
    match watchdog.step(report(false, true, 0)) {
        WatchdogAction::Probe { generation } => generation,
        other => panic!("{other:?}"),
    }
}

#[test]
fn clicker_waits_until_something_changes() {
    assert_eq!(Clicker::new().timeout(), WAIT_FOREVER);
    assert_eq!(Clicker::new().timeout(), u32::MAX);
    assert_eq!(CLICK_INTERVAL_MS, 10);
}

#[test]
fn clicker_clicks_the_active_buttons_every_interval() {
    let clicker = Clicker::new();
    let Some(clicks) = clicker.woken(false, [true, false, true]) else {
        panic!("the clicker has ended");
    };
    assert_eq!(clicks, [0, 2]);
    let Some(clicker) = clicker.clicked(clicks.len(), false) else {
        panic!("the clicker has ended");
    };
    assert_eq!(clicker.timeout(), 10);
    assert_eq!(clicker.woken(false, [false; 3]), Some(vec![]));
    assert_eq!(clicker.clicked(0, false), Some(Clicker { clicking: false }));
    assert_eq!(clicker.woken(false, [true; 3]), Some(vec![0, 1, 2]));
}

#[test]
fn clicker_ends_at_shutdown() {
    assert_eq!(Clicker::new().woken(true, [true; 3]), None);
    let clicking = Clicker { clicking: true };
    assert_eq!(clicking.woken(true, [false, true, false]), Some(vec![1]));
    assert_eq!(clicking.clicked(1, true), None);
}

#[test]
fn injector_types_on_its_message_alone() {
    assert_eq!(injector_step(1, MSG_INJECT), InjectorStep::Inject);
    assert_eq!(injector_step(1, MSG_RESET), InjectorStep::Ignore);
    assert_eq!(injector_step(0, MSG_INJECT), InjectorStep::Stop);
    assert_eq!(injector_step(-1, MSG_INJECT), InjectorStep::Stop);
}

#[test]
fn hook_thread_takes_over_the_keyboard_before_it_installs_the_hook() {
    assert_eq!(
        HookPhase::start(),
        (
            HookPhase::Installing,
            [HookAction::Resynchronize, HookAction::Install]
        )
    );
}

#[test]
fn hook_thread_announces_the_installed_hook() {
    let (phase, _) = HookPhase::start();
    let (phase, action) = phase.step(QUIET);
    assert_eq!(action, HookAction::AnnounceReady);
    let (phase, action) = phase.step(QUIET);
    assert_eq!((phase, action), (HookPhase::Idle, HookAction::Continue));
    assert_eq!(
        phase.step(QUIET),
        (HookPhase::Waiting, HookAction::Wait)
    );
}

#[test]
fn hook_thread_ends_when_it_cannot_start() {
    assert_eq!(
        HookPhase::Installing.step(FAILED),
        (HookPhase::Ended, HookAction::AnnounceFailure)
    );
    assert_eq!(
        HookPhase::Announcing.step(FAILED),
        (HookPhase::Ended, HookAction::Unhook)
    );
}

#[test]
fn hook_thread_answers_messages() {
    assert_eq!(
        HookPhase::Waiting.step(message(MSG_RESET)),
        (HookPhase::Idle, HookAction::Resynchronize)
    );
    assert_eq!(
        HookPhase::Waiting.step(message(MSG_REHOOK)),
        (HookPhase::Reinstalling { attempt: 1 }, HookAction::Reinstall)
    );
    assert_eq!(
        HookPhase::Waiting.step(message(0x0400)),
        (HookPhase::Idle, HookAction::Continue)
    );
    for result in [0, -1] {
        assert_eq!(
            HookPhase::Waiting.step(HookReport {
                result,
                ..message(MSG_REHOOK)
            }),
            (HookPhase::Ended, HookAction::Unhook)
        );
    }
    assert_eq!(
        HookPhase::Idle.step(HookReport {
            shutdown: true,
            ..QUIET
        }),
        (HookPhase::Ended, HookAction::Unhook)
    );
    assert_eq!(
        HookPhase::Ended.step(QUIET),
        (HookPhase::Ended, HookAction::Continue)
    );
}

#[test]
fn reinstallation_stops_at_the_first_success() {
    let (phase, _) = HookPhase::Waiting.step(message(MSG_REHOOK));
    let (phase, action) = phase.step(FAILED);
    assert_eq!(
        action,
        HookAction::Pause {
            attempt: 1,
            millis: 250
        }
    );
    let (phase, action) = phase.step(QUIET);
    assert_eq!(action, HookAction::Install);
    assert_eq!(
        phase.step(QUIET),
        (HookPhase::Idle, HookAction::Resynchronize)
    );
}

#[test]
fn process_ends_after_twenty_failed_reinstallations() {
    let (mut phase, _) = HookPhase::Waiting.step(message(MSG_REHOOK));
    for attempt in 1..=20 {
        let (next, action) = phase.step(FAILED);
        assert_eq!(
            action,
            HookAction::Pause {
                attempt,
                millis: 250
            }
        );
        let (next, action) = next.step(QUIET);
        if attempt < 20 {
            assert_eq!(action, HookAction::Install);
        } else {
            assert_eq!(action, HookAction::Exit { code: 2 });
            assert_eq!(next, HookPhase::Ended);
        }
        phase = next;
    }
    assert_eq!(EXIT_HOOK_LOST, 2);
}

#[test]
fn watchdog_notes_the_first_confirmation() {
    let mut watchdog = Watchdog::new();
    assert_eq!(rest(&mut watchdog), 1);
    assert_eq!(watchdog.step(report(false, true, 0)), WatchdogAction::Continue);
    assert_eq!(
        watchdog.step(report(false, true, 1)),
        WatchdogAction::NoteConfirmed
    );
    assert_eq!(rest(&mut watchdog), 2);
    watchdog.step(report(false, true, 1));
    assert_eq!(
        watchdog.step(report(false, true, 1)),
        WatchdogAction::Sleep { millis: 100 }
    );
    assert_eq!(watchdog.step(report(false, true, 2)), WatchdogAction::Continue);
}

#[test]
fn watchdog_rehooks_after_twenty_polls() {
    let mut watchdog = Watchdog::new();
    rest(&mut watchdog);
    watchdog.step(report(false, true, 0));
    for _ in 0..20 {
        assert_eq!(
            watchdog.step(report(false, true, 0)),
            WatchdogAction::Sleep { millis: 100 }
        );
    }
    assert_eq!(watchdog.step(report(false, true, 1)), WatchdogAction::Rehook);
    assert_eq!(rest(&mut watchdog), 2);
}

#[test]
fn watchdog_does_not_rehook_when_the_probe_was_not_sent() {
    let mut watchdog = Watchdog::new();
    rest(&mut watchdog);
    assert_eq!(
        watchdog.step(report(false, false, 0)),
        WatchdogAction::NoteNotSent
    );
    assert_eq!(rest(&mut watchdog), 2);
}

#[test]
fn watchdog_notes_a_confirmation_after_a_failure_again() {
    let mut watchdog = Watchdog::new();
    rest(&mut watchdog);
    watchdog.step(report(false, true, 0));
    watchdog.step(report(false, true, 1));
    rest(&mut watchdog);
    for _ in 0..22 {
        watchdog.step(report(false, true, 1));
    }
    assert!(!watchdog.confirmed);
    rest(&mut watchdog);
    watchdog.step(report(false, true, 2));
    assert_eq!(
        watchdog.step(report(false, true, 3)),
        WatchdogAction::NoteConfirmed
    );
}

#[test]
fn watchdog_stops_at_shutdown() {
    let mut resting = Watchdog::new();
    assert_eq!(resting.step(report(true, true, 0)), WatchdogAction::Stop);
    assert_eq!(resting.step(report(false, true, 0)), WatchdogAction::Stop);
    let mut polling = Watchdog::new();
    rest(&mut polling);
    polling.step(report(false, true, 0));
    assert_eq!(polling.step(report(true, true, 1)), WatchdogAction::Stop);
}

#[test]
fn probe_number_never_is_zero() {
    let mut watchdog = Watchdog {
        generation: u32::MAX,
        ..Watchdog::new()
    };
    assert_eq!(rest(&mut watchdog), 1);
}

#[test]
fn held_keys_are_taken_over_on_request_alone() {
    for number in [0, MSG_INJECT, 0x0100] {
        let (phase, action) = HookPhase::Waiting.step(message(number));
        assert_eq!((phase, action), (HookPhase::Idle, HookAction::Continue));
    }
    assert_eq!(
        HookPhase::Waiting.step(message(MSG_RESET)).1,
        HookAction::Resynchronize
    );
}
