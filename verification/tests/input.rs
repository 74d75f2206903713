use capslockrs::engine::{
    KeyAction, MOD_ALT, MOD_SHIFT, VK_CAPITAL, VK_E, VK_F13, VK_F14, VK_F15, VK_OEM_6, VK_SPACE,
    VK_UP,
};
use capslockrs::input::{
    cleared_clicks, click_key, current_modifier_mask, modifier_keys, pack_action, set_paused,
    unpack_action, update_modifier_mask, HookCommand, HookDecision, HookLocalState, KeyEvent,
    PackedAction, EXTRA_INFO_COOKIE, HEALTH_PROBE_COOKIE, MSG_RESET, VK_LSHIFT, VK_LWIN,
    VK_RCONTROL, VK_RWIN, WM_KEYDOWN, WM_KEYUP, WM_SYSKEYDOWN, WM_SYSKEYUP,
};

const PASS: HookDecision = HookDecision {
    swallow: false,
    command: None,
};

const SWALLOW: HookDecision = HookDecision {
    swallow: true,
    command: None,
};

const INJECTOR: u32 = 77;

fn event(message: usize, vk: u32, time: u32) -> KeyEvent {
    KeyEvent {
        message,
        vk,
        time,
        extra_info: 0,
    }
}

#[test]
fn cookies_spell_their_names() {
    assert_eq!(EXTRA_INFO_COOKIE.to_be_bytes()[2..], *b"CPSLRS");
    assert_eq!(HEALTH_PROBE_COOKIE.to_be_bytes()[2..], *b"CPSLHP");
}

#[test]
fn modifier_mask_follows_the_keys() {
    let mut mask = 0;
    update_modifier_mask(&mut mask, VK_LSHIFT, true);
    update_modifier_mask(&mut mask, VK_RWIN, true);
    assert_eq!(mask, 0b1000_0001);
    update_modifier_mask(&mut mask, VK_E, true);
    assert_eq!(mask, 0b1000_0001);
    update_modifier_mask(&mut mask, VK_LSHIFT, false);
    update_modifier_mask(&mut mask, VK_LSHIFT, false);
    assert_eq!(mask, 0b1000_0000);
}

#[test]
fn modifier_mask_has_one_bit_per_key() {
    for (i, vk) in modifier_keys().into_iter().enumerate() {
        let mut mask = 0;
        update_modifier_mask(&mut mask, vk, true);
        assert_eq!(mask, 1 << i);
        let mut down = [false; 8];
        down[i] = true;
        assert_eq!(current_modifier_mask(down), 1 << i);
    }
    assert_eq!(current_modifier_mask([false; 8]), 0);
    assert_eq!(current_modifier_mask([true; 8]), 0xFF);
    assert_eq!(
        current_modifier_mask([true, false, false, true, false, false, true, false]),
        0b0100_1001
    );
}

#[test]
fn click_keys_are_the_three_function_keys() {
    assert_eq!(
        [click_key(0), click_key(1), click_key(2)],
        [VK_F13, VK_F14, VK_F15]
    );
}

#[test]
fn packed_action_is_read_back() {
    let action = KeyAction::new(VK_OEM_6, MOD_ALT | MOD_SHIFT, 5);
    let message = pack_action(action);
    assert_eq!(
        message,
        PackedAction {
            wparam: 0xDD,
            lparam: 0x506
        }
    );
    assert_eq!(unpack_action(message), action);
    let extreme = KeyAction::new(u32::MAX, u8::MAX, u8::MAX);
    assert_eq!(unpack_action(pack_action(extreme)), extreme);
}

#[test]
fn unpacking_ignores_the_upper_bits() {
    let message = PackedAction {
        wparam: 0x25,
        lparam: -1,
    };
    assert_eq!(unpack_action(message), KeyAction::new(0x25, 0xFF, 0xFF));
}

#[test]
fn hotkey_is_posted_to_the_injector() {
    let mut state = HookLocalState::default();
    assert_eq!(
        state.handle(event(WM_KEYDOWN, VK_CAPITAL, 0), false, INJECTOR),
        SWALLOW
    );
    assert_eq!(
        state.handle(event(WM_SYSKEYDOWN, VK_E, 5), false, INJECTOR),
        HookDecision {
            swallow: true,
            command: Some(HookCommand::Post {
                thread: INJECTOR,
                message: PackedAction {
                    wparam: VK_UP as usize,
                    lparam: 0x100
                },
            }),
        }
    );
    assert_eq!(
        state.handle(event(WM_SYSKEYUP, VK_E, 6), false, INJECTOR),
        SWALLOW
    );
}

#[test]
fn action_without_injector_is_dropped_but_swallowed() {
    let mut state = HookLocalState::default();
    state.handle(event(WM_KEYDOWN, VK_CAPITAL, 0), false, 0);
    assert_eq!(state.handle(event(WM_KEYDOWN, VK_E, 5), false, 0), SWALLOW);
}

#[test]
fn held_modifier_lets_hotkeys_pass() {
    let mut state = HookLocalState::default();
    state.handle(event(WM_KEYDOWN, VK_RCONTROL, 0), false, INJECTOR);
    state.handle(event(WM_KEYDOWN, VK_CAPITAL, 1), false, INJECTOR);
    assert_eq!(
        state.handle(event(WM_KEYDOWN, VK_SPACE, 2), false, INJECTOR),
        PASS
    );
    state.handle(event(WM_KEYUP, VK_RCONTROL, 3), false, INJECTOR);
    assert!(
        state
            .handle(event(WM_KEYDOWN, VK_SPACE, 4), false, INJECTOR)
            .swallow
    );
}

#[test]
fn injected_keys_pass_and_leave_no_trace() {
    let mut state = HookLocalState::default();
    let injected = KeyEvent {
        extra_info: EXTRA_INFO_COOKIE,
        ..event(WM_KEYDOWN, VK_CAPITAL, 0)
    };
    assert_eq!(state.handle(injected, false, INJECTOR), PASS);
    assert_eq!(
        state.handle(event(WM_KEYDOWN, VK_E, 1), false, INJECTOR),
        PASS
    );
}

#[test]
fn probe_is_acknowledged_even_while_paused() {
    let mut state = HookLocalState::default();
    state.handle(event(WM_KEYDOWN, VK_CAPITAL, 0), false, INJECTOR);
    let probe = KeyEvent {
        extra_info: HEALTH_PROBE_COOKIE,
        ..event(WM_KEYDOWN, 0xFC, 1)
    };
    let acknowledged = HookDecision {
        swallow: true,
        command: Some(HookCommand::AcknowledgeProbe),
    };
    assert_eq!(state.handle(probe, false, INJECTOR), acknowledged);
    assert_eq!(state.handle(probe, true, INJECTOR), acknowledged);
    assert!(
        state
            .handle(event(WM_KEYDOWN, VK_E, 2), false, INJECTOR)
            .swallow
    );
}

#[test]
fn other_messages_pass() {
    let mut state = HookLocalState::default();
    assert_eq!(
        state.handle(event(0x0102, VK_CAPITAL, 0), false, INJECTOR),
        PASS
    );
}

#[test]
fn paused_keys_pass_and_modifiers_are_followed() {
    let mut state = HookLocalState::default();
    for vk in [VK_CAPITAL, VK_F13, VK_E, VK_LWIN] {
        assert_eq!(state.handle(event(WM_KEYDOWN, vk, 0), true, INJECTOR), PASS);
    }
    assert_eq!(
        state.handle(event(WM_KEYDOWN, VK_F13, 1), false, INJECTOR),
        PASS
    );
    state.handle(event(WM_KEYUP, VK_LWIN, 2), true, INJECTOR);
    assert_eq!(
        state.handle(event(WM_KEYDOWN, VK_F13, 3), false, INJECTOR),
        HookDecision {
            swallow: true,
            command: Some(HookCommand::SetClick {
                index: 0,
                active: true
            }),
        }
    );
}

#[test]
fn resynchronizing_takes_over_held_keys() {
    let mut state = HookLocalState::default();
    let clicks = state.resynchronize(
        false,
        true,
        [true, false, true],
        0x1_0000_0005,
        [false; 8],
    );
    assert_eq!(clicks, [true, false, true]);
    assert!(
        state
            .handle(event(WM_KEYDOWN, VK_E, 6), false, INJECTOR)
            .swallow
    );
    assert_eq!(
        state.handle(event(WM_KEYUP, VK_CAPITAL, 7), false, INJECTOR),
        SWALLOW
    );
    assert_eq!(
        state.handle(event(WM_KEYUP, VK_F15, 8), false, INJECTOR),
        HookDecision {
            swallow: true,
            command: Some(HookCommand::SetClick {
                index: 2,
                active: false
            }),
        }
    );
}

#[test]
fn resynchronizing_while_paused_clicks_nothing() {
    let mut state = HookLocalState::default();
    let clicks = state.resynchronize(true, true, [true; 3], 9, [false; 8]);
    assert_eq!(clicks, [false; 3]);
    assert_eq!(
        state.handle(event(WM_KEYDOWN, VK_E, 10), false, INJECTOR),
        PASS
    );
}

#[test]
fn resynchronizing_reads_the_modifiers() {
    let mut state = HookLocalState::default();
    let mut modifiers = [false; 8];
    modifiers[5] = true;
    state.resynchronize(false, true, [false; 3], 9, modifiers);
    assert_eq!(
        state.handle(event(WM_KEYDOWN, VK_E, 10), false, INJECTOR),
        PASS
    );
}

#[test]
fn pausing_stops_all_clicks() {
    for paused in [true, false] {
        let change = set_paused(paused);
        assert_eq!(change.paused, paused);
        assert_eq!(change.clicks, [false; 3]);
        assert_eq!(change.message, MSG_RESET);
        assert_eq!(change.message, 0x8003);
    }
    assert_eq!(cleared_clicks(), [false; 3]);
}
