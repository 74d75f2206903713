use capslockrs::tray::{
    menu_command, menu_entries, menu_result, tooltip, window_answer, IconOccasion, MenuCommand,
    MenuEntry, MenuResult, Tray, TrayError, TrayReport, TrayStage, WindowAnswer, TRAY_CALLBACK,
};

fn report(ok: bool, wait: u32, menu: MenuResult) -> TrayReport {
    TrayReport { ok, wait, menu }
}

fn answer(ok: bool) -> TrayReport {
    report(ok, 0, MenuResult::Stay)
}

fn waited(wait: u32) -> TrayReport {
    report(true, wait, MenuResult::Stay)
}

fn chosen(menu: MenuResult) -> TrayReport {
    report(true, 0, menu)
}

/// A loop that waits, with the icon in place.
fn waiting() -> Tray {
    let mut tray = Tray::start();
    tray.step(answer(true));
    tray
}

#[test]
fn window_asks_for_the_menu_on_a_right_click() {
    assert_eq!(TRAY_CALLBACK, 0x8064);
    for lparam in [0x0205, 0x007B, 0x1_0205, -0x1_0000 + 0x7B] {
        assert_eq!(
            window_answer(TRAY_CALLBACK, lparam, 0xC123),
            WindowAnswer::RequestMenu
        );
    }
    for lparam in [0x0201, 0, -1] {
        assert_eq!(
            window_answer(TRAY_CALLBACK, lparam, 0xC123),
            WindowAnswer::Handled
        );
    }
}

#[test]
fn window_notices_a_new_taskbar_and_its_own_end() {
    assert_eq!(window_answer(0xC123, 0, 0xC123), WindowAnswer::NoteTaskbar);
    assert_eq!(window_answer(0, 0, 0), WindowAnswer::Default);
    assert_eq!(window_answer(0x0002, 0, 0xC123), WindowAnswer::Quit);
    assert_eq!(window_answer(0x0010, 0, 0xC123), WindowAnswer::Default);
}

#[test]
fn menu_shows_what_is_turned_on() {
    for (paused, autostart) in [(false, true), (true, false)] {
        let items: Vec<Option<(usize, &str, bool)>> = menu_entries(paused, autostart)
            .into_iter()
            .map(|entry| match entry {
                MenuEntry::Item {
                    command,
                    label,
                    checked,
                } => Some((command, label, checked)),
                MenuEntry::Separator => None,
            })
            .collect();
        assert_eq!(
            items,
            [
                Some((1001, "暂停", paused)),
                Some((1002, "开机启动", autostart)),
                None,
                Some((1003, "退出", false)),
            ]
        );
    }
}

#[test]
fn menu_commands() {
    assert_eq!(
        menu_command(1001, false),
        MenuCommand::SetPaused { paused: true }
    );
    assert_eq!(
        menu_command(1001, true),
        MenuCommand::SetPaused { paused: false }
    );
    assert_eq!(menu_command(1002, false), MenuCommand::ToggleAutostart);
    assert_eq!(menu_command(1003, false), MenuCommand::Exit);
    assert_eq!(menu_command(0, false), MenuCommand::Nothing);
}

#[test]
fn icon_is_missing_when_its_text_cannot_be_changed() {
    let pause = MenuCommand::SetPaused { paused: true };
    assert_eq!(menu_result(pause, true), MenuResult::Stay);
    assert_eq!(menu_result(pause, false), MenuResult::IconMissing);
    assert_eq!(
        menu_result(MenuCommand::ToggleAutostart, false),
        MenuResult::Stay
    );
    assert_eq!(menu_result(MenuCommand::Nothing, false), MenuResult::Stay);
    assert_eq!(menu_result(MenuCommand::Exit, true), MenuResult::Exit);
}

#[test]
fn icon_text_tells_whether_remapping_is_paused() {
    assert_eq!(tooltip(false), "CapsLockRs");
    assert_eq!(tooltip(true), "CapsLockRs（已暂停）");
}

#[test]
fn missing_icon_is_retried_every_second() {
    let mut tray = Tray::start();
    assert_eq!(
        tray.stage,
        TrayStage::AddIcon {
            occasion: IconOccasion::First
        }
    );
    assert_eq!(tray.step(answer(false)), TrayStage::Wait { millis: 1000 });
    assert_eq!(
        tray.step(waited(258)),
        TrayStage::AddIcon {
            occasion: IconOccasion::Retry
        }
    );
    assert_eq!(tray.step(answer(false)), TrayStage::Wait { millis: 1000 });
    tray.step(waited(258));
    assert_eq!(
        tray.step(answer(true)),
        TrayStage::Wait { millis: u32::MAX }
    );
}

#[test]
fn messages_without_consequence_lead_back_to_the_wait() {
    let mut tray = waiting();
    assert_eq!(tray.step(waited(1)), TrayStage::Drain);
    assert_eq!(tray.step(answer(false)), TrayStage::CheckMenu);
    assert_eq!(tray.step(answer(false)), TrayStage::CheckTaskbar);
    assert_eq!(
        tray.step(answer(false)),
        TrayStage::Wait { millis: u32::MAX }
    );
}

#[test]
fn new_taskbar_gets_the_icon_back() {
    let mut tray = waiting();
    tray.step(waited(1));
    tray.step(answer(false));
    tray.step(answer(false));
    assert_eq!(
        tray.step(answer(true)),
        TrayStage::AddIcon {
            occasion: IconOccasion::Restore
        }
    );
    assert!(!tray.icon_added);
    assert_eq!(
        tray.step(answer(true)),
        TrayStage::Wait { millis: u32::MAX }
    );
}

#[test]
fn lost_icon_is_deleted_and_restored() {
    let mut tray = waiting();
    tray.step(waited(1));
    tray.step(answer(false));
    assert_eq!(tray.step(answer(true)), TrayStage::ShowMenu);
    assert_eq!(
        tray.step(chosen(MenuResult::IconMissing)),
        TrayStage::DeleteIcon
    );
    assert_eq!(tray.step(answer(true)), TrayStage::CheckTaskbar);
    assert_eq!(
        tray.step(answer(false)),
        TrayStage::AddIcon {
            occasion: IconOccasion::Restore
        }
    );
}

#[test]
fn loop_ends_on_request() {
    let mut stopped = waiting();
    assert_eq!(stopped.step(waited(0)), TrayStage::Done);
    assert_eq!(stopped.step(waited(1)), TrayStage::Done);
    let mut quit = waiting();
    quit.step(waited(1));
    assert_eq!(quit.step(answer(true)), TrayStage::Done);
    let mut exited = waiting();
    exited.step(waited(1));
    exited.step(answer(false));
    exited.step(answer(true));
    assert_eq!(exited.step(chosen(MenuResult::Exit)), TrayStage::Done);
}

#[test]
fn menu_that_changes_nothing_goes_on() {
    let mut tray = waiting();
    tray.step(waited(1));
    tray.step(answer(false));
    tray.step(answer(true));
    assert_eq!(tray.step(chosen(MenuResult::Stay)), TrayStage::CheckTaskbar);
    assert!(tray.icon_added);
}

#[test]
fn failed_waits_end_the_loop_with_an_error() {
    assert_eq!(
        waiting().step(waited(u32::MAX)),
        TrayStage::Failed {
            error: TrayError::WaitFailed
        }
    );
    assert_eq!(
        waiting().step(waited(2)),
        TrayStage::Failed {
            error: TrayError::UnknownWait
        }
    );
}

#[test]
fn shown_icon_stays_when_a_retry_fails() {
    let mut tray = waiting();
    tray.step(waited(258));
    assert_eq!(
        tray.step(answer(false)),
        TrayStage::Wait { millis: u32::MAX }
    );
    assert!(tray.icon_added);
}
