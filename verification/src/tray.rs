//! The icon in the notification area: its menu, its messages and its loop.

use vstd::prelude::*;

use crate::input::WM_APP;
use crate::install::{WAIT_OBJECT_0, WAIT_TIMEOUT};
use crate::runtime::WAIT_FOREVER;

verus! {

/// The message by which the icon reports mouse events.
pub const TRAY_CALLBACK: u32 = WM_APP + 100;

pub const WM_DESTROY: u32 = 0x0002;

pub const WM_CONTEXTMENU: u32 = 0x007B;

pub const WM_RBUTTONUP: u32 = 0x0205;

pub const WAIT_FAILED: u32 = 0xFFFF_FFFF;

/// What a wait returns when a message has come: there is one handle to wait for beside the
/// messages.
pub const WAIT_MESSAGE: u32 = 1;

pub const CMD_PAUSE: usize = 1001;

pub const CMD_AUTOSTART: usize = 1002;

pub const CMD_EXIT: usize = 1003;

/// How often a missing icon is tried again, in milliseconds.
pub const TRAY_RETRY_INTERVAL_MS: u32 = 1_000;

// ---------------------------------------------------------------------------------------
// Window messages
// ---------------------------------------------------------------------------------------

/// What the window of the icon does with a message.
#[derive(Clone, Copy, Debug, Eq, PartialEq, Structural)]
pub enum WindowAnswer {
    /// Remember that the menu was asked for.
    RequestMenu,
    /// Nothing; the message has been dealt with.
    Handled,
    /// Remember that the taskbar was created anew.
    NoteTaskbar,
    /// End the message loop.
    Quit,
    /// Leave the message to the system.
    Default,
}

/// The answer to a message; `taskbar_created` is the number of the message that announces a
/// new taskbar, zero while it is unknown.
pub open spec fn answer(message: u32, lparam: isize, taskbar_created: u32) -> WindowAnswer {
    let event = lparam as int % 0x1_0000;
    if message == TRAY_CALLBACK {
        if event == WM_RBUTTONUP || event == WM_CONTEXTMENU {
            WindowAnswer::RequestMenu
        } else {
            WindowAnswer::Handled
        }
    } else if message == taskbar_created && message != 0 {
        WindowAnswer::NoteTaskbar
    } else if message == WM_DESTROY {
        WindowAnswer::Quit
    } else {
        WindowAnswer::Default
    }
}

pub fn window_answer(message: u32, lparam: isize, taskbar_created: u32) -> (answered: WindowAnswer)
    ensures
        answered == answer(message, lparam, taskbar_created),
{
    if message == TRAY_CALLBACK {
        let event: u32 = (lparam as u32) & 0xFFFF;
        assert((lparam as u32) & 0xFFFF == lparam % 0x1_0000) by (bit_vector);
        if event == WM_RBUTTONUP || event == WM_CONTEXTMENU {
            return WindowAnswer::RequestMenu;
        }
        return WindowAnswer::Handled;
    }
    if message == taskbar_created && message != 0 {
        return WindowAnswer::NoteTaskbar;
    }
    if message == WM_DESTROY {
        return WindowAnswer::Quit;
    }
    WindowAnswer::Default
}

// ---------------------------------------------------------------------------------------
// The menu
// ---------------------------------------------------------------------------------------

/// An entry of the menu.
#[derive(Clone, Copy, Debug)]
pub enum MenuEntry {
    Item { command: usize, label: &'static str, checked: bool },
    Separator,
}

impl MenuEntry {
    pub open spec fn is_item(self, command: usize, label: Seq<char>, checked: bool) -> bool {
        self matches MenuEntry::Item { command: c, label: l, checked: k } && c == command && l@
            == label && k == checked
    }
}

/// Whether an item of the menu shows a check mark.
pub open spec fn checked(command: usize, paused: bool, autostart: bool) -> bool {
    if command == CMD_PAUSE {
        paused
    } else {
        command == CMD_AUTOSTART && autostart
    }
}

/// The menu: pausing and the automatic start, each with its state, then the end.
pub fn menu_entries(paused: bool, autostart: bool) -> (entries: [MenuEntry; 4])
    ensures
        entries@[0].is_item(CMD_PAUSE, "暂停"@, checked(CMD_PAUSE, paused, autostart)),
        entries@[1].is_item(CMD_AUTOSTART, "开机启动"@, checked(CMD_AUTOSTART, paused, autostart)),
        entries@[2] is Separator,
        entries@[3].is_item(CMD_EXIT, "退出"@, checked(CMD_EXIT, paused, autostart)),
{
    [
        MenuEntry::Item { command: CMD_PAUSE, label: "暂停", checked: paused },
        MenuEntry::Item { command: CMD_AUTOSTART, label: "开机启动", checked: autostart },
        MenuEntry::Separator,
        MenuEntry::Item { command: CMD_EXIT, label: "退出", checked: false },
    ]
}

/// What the user has chosen.
#[derive(Clone, Copy, Debug, Eq, PartialEq, Structural)]
pub enum MenuCommand {
    Nothing,
    SetPaused { paused: bool },
    ToggleAutostart,
    Exit,
}

/// The command of a menu item: pausing is turned over.
pub open spec fn command_of(selected: usize, paused: bool) -> MenuCommand {
    if selected == CMD_PAUSE {
        MenuCommand::SetPaused { paused: !paused }
    } else if selected == CMD_AUTOSTART {
        MenuCommand::ToggleAutostart
    } else if selected == CMD_EXIT {
        MenuCommand::Exit
    } else {
        MenuCommand::Nothing
    }
}

/// Reads what the menu returned, which is zero where nothing was chosen.
pub fn menu_command(selected: usize, paused: bool) -> (command: MenuCommand)
    ensures
        command == command_of(selected, paused),
{
    match selected {
        CMD_PAUSE => MenuCommand::SetPaused { paused: !paused },
        CMD_AUTOSTART => MenuCommand::ToggleAutostart,
        CMD_EXIT => MenuCommand::Exit,
        _ => MenuCommand::Nothing,
    }
}

/// What the menu means for the loop.
#[derive(Clone, Copy, Debug, Eq, PartialEq, Structural)]
pub enum MenuResult {
    /// The loop goes on.
    Stay,
    /// The icon could not be changed, so it is gone.
    IconMissing,
    Exit,
}

/// What a command that was carried out means for the loop.
pub open spec fn result_of(command: MenuCommand, tooltip_updated: bool) -> MenuResult {
    match command {
        MenuCommand::SetPaused { .. } if !tooltip_updated => MenuResult::IconMissing,
        MenuCommand::Exit => MenuResult::Exit,
        _ => MenuResult::Stay,
    }
}

/// What a command that was carried out means for the loop; `tooltip_updated` is whether the
/// icon shows the new state, which matters after pausing alone.
pub fn menu_result(command: MenuCommand, tooltip_updated: bool) -> (result: MenuResult)
    ensures
        result == result_of(command, tooltip_updated),
{
    match command {
        MenuCommand::SetPaused { .. } => if tooltip_updated {
            MenuResult::Stay
        } else {
            MenuResult::IconMissing
        },
        MenuCommand::Exit => MenuResult::Exit,
        _ => MenuResult::Stay,
    }
}

/// The text that the icon shows.
pub fn tooltip(paused: bool) -> (tip: &'static str)
    ensures
        tip@ == if paused {
            "CapsLockRs（已暂停）"@
        } else {
            "CapsLockRs"@
        },
{
    if paused {
        "CapsLockRs（已暂停）"
    } else {
        "CapsLockRs"
    }
}

// ---------------------------------------------------------------------------------------
// The loop
// ---------------------------------------------------------------------------------------

/// Why the icon is added.
#[derive(Clone, Copy, Debug, Eq, PartialEq, Structural)]
pub enum IconOccasion {
    First,
    Retry,
    Restore,
}

/// Why the loop ends with an error.
#[derive(Clone, Copy, Debug, Eq, PartialEq, Structural)]
pub enum TrayError {
    WaitFailed,
    UnknownWait,
}

/// What the loop does next.
#[derive(Clone, Copy, Debug, Eq, PartialEq, Structural)]
pub enum TrayStage {
    AddIcon { occasion: IconOccasion },
    /// Wait for the stop event or a message.
    Wait { millis: u32 },
    /// Hand out all messages; the answer is whether the one to quit was among them.
    Drain,
    /// See whether the menu was asked for.
    CheckMenu,
    /// Show the menu and carry out what is chosen.
    ShowMenu,
    /// Remove what is left of the icon.
    DeleteIcon,
    /// See whether the taskbar was created anew.
    CheckTaskbar,
    Done,
    Failed { error: TrayError },
}

/// What came of the last stage.
#[derive(Clone, Copy, Debug, Eq, PartialEq, Structural)]
pub struct TrayReport {
    /// Whether the icon was added, or the answer to a question.
    pub ok: bool,
    /// What the wait returned.
    pub wait: u32,
    /// What the menu led to.
    pub menu: MenuResult,
}

/// The loop of the icon.
#[derive(Clone, Copy, Debug, Eq, PartialEq, Structural)]
pub struct Tray {
    pub icon_added: bool,
    pub stage: TrayStage,
}

impl Tray {
    pub open spec fn initial() -> Tray {
        Tray { icon_added: false, stage: TrayStage::AddIcon { occasion: IconOccasion::First } }
    }

    pub open spec fn at(self, stage: TrayStage) -> Tray {
        Tray { stage, ..self }
    }

    /// The loop waits: for as long as it takes, or until the icon is tried again.
    pub open spec fn waiting(icon_added: bool) -> Tray {
        Tray {
            icon_added,
            stage: TrayStage::Wait {
                millis: if icon_added {
                    WAIT_FOREVER
                } else {
                    TRAY_RETRY_INTERVAL_MS
                },
            },
        }
    }

    /// The loop after a report; an end is final.
    pub open spec fn next(self, report: TrayReport) -> Tray {
        match self.stage {
            TrayStage::AddIcon { occasion } => Tray::waiting(
                report.ok || (occasion is Retry && self.icon_added),
            ),
            TrayStage::Wait { .. } => self.at(
                if report.wait == WAIT_OBJECT_0 {
                    TrayStage::Done
                } else if report.wait == WAIT_TIMEOUT {
                    TrayStage::AddIcon { occasion: IconOccasion::Retry }
                } else if report.wait == WAIT_FAILED {
                    TrayStage::Failed { error: TrayError::WaitFailed }
                } else if report.wait == WAIT_MESSAGE {
                    TrayStage::Drain
                } else {
                    TrayStage::Failed { error: TrayError::UnknownWait }
                },
            ),
            TrayStage::Drain => self.at(
                if report.ok {
                    TrayStage::Done
                } else {
                    TrayStage::CheckMenu
                },
            ),
            TrayStage::CheckMenu => self.at(
                if report.ok {
                    TrayStage::ShowMenu
                } else {
                    TrayStage::CheckTaskbar
                },
            ),
            TrayStage::ShowMenu => match report.menu {
                MenuResult::Stay => self.at(TrayStage::CheckTaskbar),
                MenuResult::IconMissing => self.at(TrayStage::DeleteIcon),
                MenuResult::Exit => self.at(TrayStage::Done),
            },
            TrayStage::DeleteIcon => Tray { icon_added: false, stage: TrayStage::CheckTaskbar },
            TrayStage::CheckTaskbar => if self.icon_added && !report.ok {
                Tray::waiting(true)
            } else {
                Tray {
                    icon_added: false,
                    stage: TrayStage::AddIcon { occasion: IconOccasion::Restore },
                }
            },
            TrayStage::Done | TrayStage::Failed { .. } => self,
        }
    }

    /// The loop after a sequence of reports.
    pub open spec fn after_all(self, reports: Seq<TrayReport>) -> Tray
        decreases reports.len(),
    {
        if reports.len() == 0 {
            self
        } else {
            self.after_all(reports.drop_last()).next(reports.last())
        }
    }

    /// Begins the loop.
    pub fn start() -> (tray: Tray)
        ensures
            tray == Tray::initial(),
    {
        Tray { icon_added: false, stage: TrayStage::AddIcon { occasion: IconOccasion::First } }
    }

    /// Decides what the loop does after a report.
    pub fn step(&mut self, report: TrayReport) -> (stage: TrayStage)
        ensures
            *final(self) == old(self).next(report),
            stage == final(self).stage,
    {
        let next = match self.stage {
            TrayStage::AddIcon { occasion } => {
                let kept = match occasion {
                    IconOccasion::Retry => self.icon_added,
                    _ => false,
                };
                self.icon_added = report.ok || kept;
                self.wait()
            },
            TrayStage::Wait { .. } => match report.wait {
                WAIT_OBJECT_0 => TrayStage::Done,
                WAIT_TIMEOUT => TrayStage::AddIcon { occasion: IconOccasion::Retry },
                WAIT_FAILED => TrayStage::Failed { error: TrayError::WaitFailed },
                WAIT_MESSAGE => TrayStage::Drain,
                _ => TrayStage::Failed { error: TrayError::UnknownWait },
            },
            TrayStage::Drain => if report.ok {
                TrayStage::Done
            } else {
                TrayStage::CheckMenu
            },
            TrayStage::CheckMenu => if report.ok {
                TrayStage::ShowMenu
            } else {
                TrayStage::CheckTaskbar
            },
            TrayStage::ShowMenu => match report.menu {
                MenuResult::Stay => TrayStage::CheckTaskbar,
                MenuResult::IconMissing => TrayStage::DeleteIcon,
                MenuResult::Exit => TrayStage::Done,
            },
            TrayStage::DeleteIcon => {
                self.icon_added = false;
                TrayStage::CheckTaskbar
            },
            TrayStage::CheckTaskbar => {
                if report.ok {
                    self.icon_added = false;
                }
                if self.icon_added {
                    self.wait()
                } else {
                    TrayStage::AddIcon { occasion: IconOccasion::Restore }
                }
            },
            TrayStage::Done | TrayStage::Failed { .. } => self.stage,
        };
        self.stage = next;
        next
    }

    fn wait(&self) -> (stage: TrayStage)
        ensures
            stage == Tray::waiting(self.icon_added).stage,
    {
        if self.icon_added {
            TrayStage::Wait { millis: WAIT_FOREVER }
        } else {
            TrayStage::Wait { millis: TRAY_RETRY_INTERVAL_MS }
        }
    }
}

/// The loop never settles down without an icon: whenever it waits while the icon is missing,
/// it does so for a second at most, and where nothing else happens it then tries again.
pub proof fn law_missing_icon_is_retried(reports: Seq<TrayReport>, report: TrayReport)
    requires
        Tray::initial().after_all(reports).stage is Wait,
    ensures
        ({
            let tray = Tray::initial().after_all(reports);
            &&& tray == Tray::waiting(tray.icon_added)
            &&& report.wait == WAIT_TIMEOUT ==> tray.next(report).stage is AddIcon
        }),
{
}

/// A taskbar that is created anew gets its icon back before the loop waits again.
pub proof fn law_new_taskbar_gets_an_icon(tray: Tray, report: TrayReport)
    requires
        tray.stage is CheckTaskbar,
        report.ok,
    ensures
        tray.next(report).stage == (TrayStage::AddIcon { occasion: IconOccasion::Restore }),
{
}

/// The stop event ends the loop, as do the message to quit and the exit that the user chooses;
/// without one of these and without a failed wait it goes on.
pub proof fn law_loop_ends_on_request(tray: Tray, report: TrayReport)
    requires
        !(tray.stage is Done),
        !(tray.stage is Failed),
    ensures
        tray.next(report).stage is Done <==> {
            ||| tray.stage is Wait && report.wait == WAIT_OBJECT_0
            ||| tray.stage is Drain && report.ok
            ||| tray.stage is ShowMenu && report.menu is Exit
        },
        tray.next(report).stage is Failed ==> tray.stage is Wait,
{
}

/// Choosing to pause twice leaves the program as it was.
pub proof fn law_pausing_twice_changes_nothing(paused: bool)
    ensures
        command_of(CMD_PAUSE, paused) matches MenuCommand::SetPaused { paused: first }
            && command_of(CMD_PAUSE, first) == (MenuCommand::SetPaused { paused }),
{
}

/// The menu shows a check mark at the item that pauses exactly while paused, and at the item for
/// the automatic start exactly while the worker starts at logon.
pub proof fn law_check_marks(command: usize, paused: bool, autostart: bool)
    ensures
        checked(1001, paused, autostart) == paused,
        checked(1002, paused, autostart) == autostart,
        command != 1001 && command != 1002 ==> !checked(command, paused, autostart),
{
}

/// Each command comes from its own item of the menu, and pausing turns over whether remapping is
/// paused; anything else that the menu returns means nothing.
pub proof fn law_menu_items_and_commands(selected: usize, paused: bool)
    ensures
        command_of(selected, paused) == (MenuCommand::SetPaused { paused: !paused }) <==> selected
            == 1001,
        command_of(selected, paused) is SetPaused <==> selected == 1001,
        command_of(selected, paused) is ToggleAutostart <==> selected == 1002,
        command_of(selected, paused) is Exit <==> selected == 1003,
{
}

/// The loop ends when the user asks for it, and takes the icon for lost exactly when it could not
/// show that remapping was paused or resumed.
pub proof fn law_what_commands_lead_to(command: MenuCommand, tooltip_updated: bool)
    ensures
        result_of(command, tooltip_updated) == MenuResult::Exit <==> command is Exit,
        result_of(command, tooltip_updated) == MenuResult::IconMissing <==> command is SetPaused
            && !tooltip_updated,
{
}

/// The menu is asked for by the right mouse button on the icon and by the key for context menus:
/// the low 16 bits of the second parameter say so, whatever the others hold. A new taskbar is
/// announced by a message of its own, once its number is known.
pub proof fn law_window_messages(message: u32, event: int, rest: int, taskbar_created: u32)
    requires
        0 <= event < 65536,
        isize::MIN <= event + 65536 * rest <= isize::MAX,
    ensures
        ({
            let answered = answer(message, (event + 65536 * rest) as isize, taskbar_created);
            &&& answered == WindowAnswer::RequestMenu <==> message == 0x8064 && (event == 0x205
                || event == 0x7B)
            &&& answered == WindowAnswer::Handled <==> message == 0x8064 && event != 0x205 && event
                != 0x7B
            &&& answered == WindowAnswer::NoteTaskbar <==> message != 0x8064 && message != 0
                && message == taskbar_created
            &&& answered == WindowAnswer::Quit <==> message == 2 && taskbar_created != 2
            &&& answered == WindowAnswer::Default <==> message != 0x8064 && message != 2 && (message
                != taskbar_created || message == 0)
        }),
{
    assert((event + 65536 * rest) % 65536 == event);
}

/// The loop begins by adding the icon. After each attempt to add it, it waits: for as long as it
/// takes if the icon is there, otherwise for a second. A retry that fails does not make an icon
/// that is there count as missing.
pub proof fn law_waits_after_adding_the_icon(
    tray: Tray,
    occasion: IconOccasion,
    report: TrayReport,
)
    requires
        tray.stage == (TrayStage::AddIcon { occasion }),
    ensures
        Tray::initial().stage == (TrayStage::AddIcon { occasion: IconOccasion::First }),
        !Tray::initial().icon_added,
        ({
            let next = tray.next(report);
            &&& next.icon_added == (report.ok || (occasion == IconOccasion::Retry
                && tray.icon_added))
            &&& next.stage == TrayStage::Wait {
                millis: if next.icon_added {
                    0xFFFF_FFFFu32
                } else {
                    1000u32
                },
            }
        }),
{
}

/// What a wait leads to: the stop event ends the loop, a message has all messages handed out, the
/// end of the time has the icon tried again, and anything else is an error.
pub proof fn law_what_waits_lead_to(tray: Tray, report: TrayReport)
    requires
        tray.stage is Wait,
    ensures
        tray.next(report).icon_added == tray.icon_added,
        tray.next(report).stage == TrayStage::Done <==> report.wait == 0,
        tray.next(report).stage == TrayStage::Drain <==> report.wait == 1,
        tray.next(report).stage == (TrayStage::AddIcon { occasion: IconOccasion::Retry })
            <==> report.wait == 258,
        tray.next(report).stage == (TrayStage::Failed { error: TrayError::WaitFailed })
            <==> report.wait == 0xFFFF_FFFF,
        tray.next(report).stage is Failed <==> report.wait != 0 && report.wait != 1 && report.wait
            != 258,
{
}

/// After the messages are handed out, and unless the one to quit was among them: the menu is shown
/// exactly if it was asked for, after that comes the taskbar, and then the loop waits again if the
/// icon is there and adds it otherwise. Nothing of this makes the icon appear or disappear.
pub proof fn law_messages_are_followed_up(
    tray: Tray,
    drained: TrayReport,
    menu: TrayReport,
    shown: TrayReport,
    taskbar: TrayReport,
)
    requires
        tray.stage == TrayStage::Drain,
        shown.menu == MenuResult::Stay,
        !taskbar.ok,
    ensures
        drained.ok ==> tray.next(drained).stage == TrayStage::Done,
        !drained.ok ==> {
            let asked = tray.next(drained);
            let after_menu = if menu.ok {
                asked.next(menu).next(shown)
            } else {
                asked.next(menu)
            };
            &&& asked.stage == TrayStage::CheckMenu
            &&& asked.next(menu).stage == TrayStage::ShowMenu <==> menu.ok
            &&& after_menu.stage == TrayStage::CheckTaskbar
            &&& after_menu.icon_added == tray.icon_added
            &&& after_menu.next(taskbar).stage == if tray.icon_added {
                TrayStage::Wait { millis: 0xFFFF_FFFF }
            } else {
                TrayStage::AddIcon { occasion: IconOccasion::Restore }
            }
            &&& after_menu.next(taskbar).icon_added == tray.icon_added
        },
{
}

/// An icon that is found lost after the menu is removed and added anew before the loop waits
/// again, whatever the taskbar does.
pub proof fn law_lost_icon_is_restored(
    tray: Tray,
    shown: TrayReport,
    deleted: TrayReport,
    taskbar: TrayReport,
)
    requires
        tray.stage == TrayStage::ShowMenu,
        shown.menu == MenuResult::IconMissing,
    ensures
        tray.next(shown).stage == TrayStage::DeleteIcon,
        tray.next(shown).next(deleted).stage == TrayStage::CheckTaskbar,
        !tray.next(shown).next(deleted).icon_added,
        tray.next(shown).next(deleted).next(taskbar).stage == (TrayStage::AddIcon {
            occasion: IconOccasion::Restore,
        }),
{
}

/// Looking at the taskbar has the icon added anew exactly if it is missing or the taskbar is new.
pub proof fn law_when_the_icon_is_restored(tray: Tray, report: TrayReport)
    requires
        tray.stage == TrayStage::CheckTaskbar,
    ensures
        tray.next(report).stage == (TrayStage::AddIcon { occasion: IconOccasion::Restore })
            <==> report.ok || !tray.icon_added,
        tray.next(report).icon_added == (tray.icon_added && !report.ok),
        !(tray.next(report).stage is AddIcon) ==> tray.next(report).stage == (TrayStage::Wait {
            millis: 0xFFFF_FFFF,
        }),
{
}

/// What an item of the menu is: its command, its label and its check mark.
pub proof fn law_what_a_menu_item_is(
    entry: MenuEntry,
    command: usize,
    label: Seq<char>,
    checked: bool,
)
    requires
        entry.is_item(command, label, checked),
    ensures
        entry matches MenuEntry::Item { command: shown, label: text, checked: mark } && shown
            == command && text@ == label && mark == checked,
{
}

} // verus!
