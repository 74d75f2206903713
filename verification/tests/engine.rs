use capslockrs::engine::{
    click_index, mapping, Effect, Engine, KeyAction, Outcome, MOD_ALT, MOD_CTRL, MOD_SHIFT, VK_A,
    VK_B, VK_BACK, VK_CAPITAL, VK_D, VK_DELETE, VK_DOWN, VK_E, VK_END, VK_ESCAPE, VK_F, VK_F13,
    VK_F14, VK_F15, VK_G, VK_H, VK_HOME, VK_I, VK_J, VK_K, VK_L, VK_LEFT, VK_N, VK_O, VK_OEM_1,
    VK_OEM_2, VK_OEM_6, VK_OEM_PERIOD, VK_P, VK_Q, VK_R, VK_RIGHT, VK_S, VK_SPACE, VK_T, VK_U,
    VK_UP, VK_W, VK_Y,
};

const SWALLOW: Outcome = Outcome {
    suppress: true,
    effect: None,
};

fn typed(key: u32, modifiers: u8, repeat: u8) -> Outcome {
    Outcome {
        suppress: true,
        effect: Some(Effect::Key(KeyAction::new(key, modifiers, repeat))),
    }
}

#[test]
fn mapping_table_contains_every_reference_hotkey() {
    let expected = [
        (VK_E, KeyAction::new(VK_UP, 0, 1)),
        (VK_S, KeyAction::new(VK_LEFT, 0, 1)),
        (VK_D, KeyAction::new(VK_DOWN, 0, 1)),
        (VK_F, KeyAction::new(VK_RIGHT, 0, 1)),
        (VK_A, KeyAction::new(VK_LEFT, MOD_CTRL, 1)),
        (VK_G, KeyAction::new(VK_RIGHT, MOD_CTRL, 1)),
        (VK_W, KeyAction::new(VK_BACK, 0, 1)),
        (VK_R, KeyAction::new(VK_DELETE, 0, 1)),
        (VK_T, KeyAction::new(VK_UP, 0, 5)),
        (VK_B, KeyAction::new(VK_DOWN, 0, 5)),
        (VK_I, KeyAction::new(VK_UP, MOD_SHIFT, 1)),
        (VK_J, KeyAction::new(VK_LEFT, MOD_SHIFT, 1)),
        (VK_K, KeyAction::new(VK_DOWN, MOD_SHIFT, 1)),
        (VK_L, KeyAction::new(VK_RIGHT, MOD_SHIFT, 1)),
        (VK_H, KeyAction::new(VK_LEFT, MOD_CTRL | MOD_SHIFT, 1)),
        (
            VK_OEM_PERIOD,
            KeyAction::new(VK_RIGHT, MOD_CTRL | MOD_SHIFT, 1),
        ),
        (VK_U, KeyAction::new(VK_HOME, MOD_SHIFT, 1)),
        (VK_O, KeyAction::new(VK_END, MOD_SHIFT, 1)),
        (VK_P, KeyAction::new(VK_HOME, 0, 1)),
        (VK_OEM_1, KeyAction::new(VK_END, 0, 1)),
        (VK_Y, KeyAction::new(VK_UP, MOD_SHIFT, 5)),
        (VK_N, KeyAction::new(VK_DOWN, MOD_SHIFT, 5)),
        (VK_Q, KeyAction::new(VK_Q, MOD_ALT | MOD_SHIFT, 1)),
        (VK_OEM_2, KeyAction::new(VK_OEM_2, MOD_ALT | MOD_SHIFT, 1)),
        (VK_SPACE, KeyAction::new(VK_OEM_6, MOD_ALT | MOD_SHIFT, 1)),
    ];
    assert_eq!(expected.len(), 25);
    for (source, action) in expected {
        assert_eq!(mapping(source), Some(action));
    }
}

#[test]
fn short_caps_tap_sends_escape() {
    let mut engine = Engine::default();
    assert!(engine.process(VK_CAPITAL, true, 1000, false).suppress);
    assert_eq!(
        engine.process(VK_CAPITAL, false, 1299, false).effect,
        Some(Effect::Key(KeyAction::new(VK_ESCAPE, 0, 1)))
    );
}

#[test]
fn three_hundred_ms_is_a_hold() {
    let mut engine = Engine::default();
    engine.process(VK_CAPITAL, true, 1000, false);
    assert_eq!(engine.process(VK_CAPITAL, false, 1300, false).effect, None);
}

#[test]
fn mapped_key_cancels_escape_and_pairs_suppression() {
    let mut engine = Engine::default();
    engine.process(VK_CAPITAL, true, 100, false);
    let down = engine.process(VK_E, true, 110, false);
    assert_eq!(down.effect, mapping(VK_E).map(Effect::Key));
    assert!(engine.process(VK_E, false, 120, false).suppress);
    assert_eq!(engine.process(VK_CAPITAL, false, 130, false).effect, None);
}

#[test]
fn key_repeat_emits_repeated_actions() {
    let mut engine = Engine::default();
    engine.process(VK_CAPITAL, true, 100, false);
    assert!(engine.process(VK_T, true, 110, false).effect.is_some());
    assert!(engine.process(VK_T, true, 140, false).effect.is_some());
}

#[test]
fn unmapped_key_passes_and_does_not_cancel_escape() {
    let mut engine = Engine::default();
    engine.process(VK_CAPITAL, true, 100, false);
    assert_eq!(engine.process(0x5A, true, 110, false), Outcome::default());
    assert!(engine
        .process(VK_CAPITAL, false, 120, false)
        .effect
        .is_some());
}

#[test]
fn modifier_prevents_plain_hotkey() {
    let mut engine = Engine::default();
    engine.process(VK_CAPITAL, true, 100, false);
    assert_eq!(engine.process(VK_E, true, 110, true), Outcome::default());
}

#[test]
fn clickers_start_once_and_stop_on_release() {
    let mut engine = Engine::default();
    assert_eq!(
        engine.process(VK_F13, true, 1, false).effect,
        Some(Effect::Click {
            index: 0,
            active: true
        })
    );
    assert_eq!(engine.process(VK_F13, true, 2, false).effect, None);
    assert_eq!(
        engine.process(VK_F13, false, 3, false).effect,
        Some(Effect::Click {
            index: 0,
            active: false
        })
    );
}

#[test]
fn timestamp_wraparound_is_handled() {
    let mut engine = Engine::default();
    engine.process(VK_CAPITAL, true, u32::MAX - 10, false);
    assert!(engine.process(VK_CAPITAL, false, 5, false).effect.is_some());
}

#[test]
fn default_outcome_passes_the_event_on() {
    assert_eq!(
        Outcome::default(),
        Outcome {
            suppress: false,
            effect: None
        }
    );
}

#[test]
fn hotkey_table_has_twenty_five_keys() {
    let count = (0..=0x1_0000_u32)
        .filter(|vk| mapping(*vk).is_some())
        .count();
    assert_eq!(count, 25);
    assert_eq!(mapping(VK_CAPITAL), None);
    assert_eq!(mapping(u32::MAX), None);
    assert_eq!(mapping(VK_E + 256), None);
}

#[test]
fn click_keys_are_numbered_in_order() {
    assert_eq!(click_index(VK_F13), Some(0));
    assert_eq!(click_index(VK_F14), Some(1));
    assert_eq!(click_index(VK_F15), Some(2));
    assert_eq!(click_index(VK_E), None);
}

#[test]
fn stray_caps_release_is_swallowed() {
    let mut engine = Engine::default();
    assert_eq!(engine.process(VK_CAPITAL, false, 10, false), SWALLOW);
}

#[test]
fn caps_repeat_keeps_the_first_timestamp() {
    let mut engine = Engine::default();
    engine.process(VK_CAPITAL, true, 1000, false);
    assert_eq!(engine.process(VK_CAPITAL, true, 1250, false), SWALLOW);
    assert_eq!(engine.process(VK_CAPITAL, false, 1310, false), SWALLOW);
}

#[test]
fn caps_repeats_do_not_make_an_unobserved_press_a_tap() {
    let mut engine = Engine::default();
    engine.synchronize_physical(true, [false, false, false], 500);
    for time in [530, 560, 590] {
        assert_eq!(engine.process(VK_CAPITAL, true, time, false), SWALLOW);
    }
    assert_eq!(engine.process(VK_CAPITAL, false, 600, false), SWALLOW);
}

#[test]
fn caps_repeat_does_not_undo_the_use_as_a_layer() {
    let mut engine = Engine::default();
    engine.process(VK_CAPITAL, true, 0, false);
    engine.process(VK_E, true, 10, false);
    engine.process(VK_E, false, 20, false);
    assert_eq!(engine.process(VK_CAPITAL, true, 30, false), SWALLOW);
    assert_eq!(engine.process(VK_CAPITAL, false, 40, false), SWALLOW);
}

#[test]
fn only_swallowed_hotkeys_are_suppressed() {
    let mut engine = Engine::default();
    for vk in [VK_F13, 0x5A, VK_CAPITAL, VK_OEM_1, 0x100 + VK_OEM_1] {
        engine.process(vk, true, 0, false);
    }
    let suppressed: Vec<u32> = (0..0x400).filter(|vk| engine.is_suppressed(*vk)).collect();
    assert_eq!(suppressed, [VK_OEM_1]);
    assert!(!engine.is_suppressed(u32::MAX));
    engine.process(VK_OEM_1, false, 1, false);
    assert!(!engine.is_suppressed(VK_OEM_1));
}

#[test]
fn caps_tap_with_a_modifier_still_sends_escape() {
    let mut engine = Engine::default();
    engine.process(VK_CAPITAL, true, 0, true);
    assert_eq!(
        engine.process(VK_CAPITAL, false, 20, true),
        typed(VK_ESCAPE, 0, 1)
    );
}

#[test]
fn unobserved_press_acts_as_layer_and_sends_no_escape() {
    let mut engine = Engine::default();
    engine.synchronize_physical(true, [false, false, false], 500);
    assert_eq!(engine.process(VK_A, true, 505, false), typed(VK_LEFT, MOD_CTRL, 1));
    assert_eq!(engine.process(VK_A, false, 506, false), SWALLOW);
    assert_eq!(engine.process(VK_CAPITAL, false, 510, false), SWALLOW);
    engine.process(VK_CAPITAL, true, 520, false);
    assert_eq!(
        engine.process(VK_CAPITAL, false, 530, false),
        typed(VK_ESCAPE, 0, 1)
    );
}

#[test]
fn held_click_key_is_taken_over() {
    let mut engine = Engine::default();
    engine.synchronize_physical(false, [false, true, false], 0);
    assert_eq!(engine.process(VK_F14, true, 1, false), SWALLOW);
    assert_eq!(
        engine.process(VK_F14, false, 2, false),
        Outcome {
            suppress: true,
            effect: Some(Effect::Click {
                index: 1,
                active: false
            }),
        }
    );
    assert_eq!(engine.process(VK_F14, false, 3, false), Outcome::default());
}

#[test]
fn modified_click_key_passes_but_its_release_stops_clicking() {
    let mut engine = Engine::default();
    assert_eq!(engine.process(VK_F15, true, 1, true), Outcome::default());
    engine.process(VK_F15, true, 2, false);
    assert_eq!(engine.process(VK_F15, true, 3, true), Outcome::default());
    assert_eq!(
        engine.process(VK_F15, false, 4, true).effect,
        Some(Effect::Click {
            index: 2,
            active: false
        })
    );
}

#[test]
fn held_hotkey_stays_swallowed_after_caps_is_released() {
    let mut engine = Engine::default();
    engine.process(VK_CAPITAL, true, 0, false);
    assert_eq!(engine.process(VK_SPACE, true, 1, false), typed(VK_OEM_6, MOD_ALT | MOD_SHIFT, 1));
    assert_eq!(engine.process(VK_CAPITAL, false, 2, false), SWALLOW);
    assert_eq!(engine.process(VK_SPACE, true, 3, false), SWALLOW);
    assert_eq!(engine.process(VK_SPACE, false, 4, false), SWALLOW);
    assert_eq!(engine.process(VK_SPACE, true, 5, false), Outcome::default());
    assert_eq!(engine.process(VK_SPACE, false, 6, false), Outcome::default());
}

#[test]
fn held_hotkey_is_swallowed_without_typing_while_a_modifier_is_down() {
    let mut engine = Engine::default();
    engine.process(VK_CAPITAL, true, 0, false);
    engine.process(VK_OEM_2, true, 1, false);
    assert_eq!(engine.process(VK_OEM_2, true, 2, true), SWALLOW);
}

#[test]
fn release_of_a_key_that_the_system_saw_passes() {
    let mut engine = Engine::default();
    assert_eq!(engine.process(VK_E, true, 0, false), Outcome::default());
    engine.process(VK_CAPITAL, true, 1, false);
    assert_eq!(engine.process(VK_E, false, 2, false), Outcome::default());
}

#[test]
fn keys_beyond_the_byte_range_pass() {
    let mut engine = Engine::default();
    engine.process(VK_CAPITAL, true, 0, false);
    assert_eq!(engine.process(0x145, true, 1, false), Outcome::default());
    assert_eq!(engine.process(u32::MAX, false, 2, false), Outcome::default());
}

#[test]
fn reset_forgets_held_keys() {
    let mut engine = Engine::default();
    engine.process(VK_CAPITAL, true, 0, false);
    engine.process(VK_E, true, 1, false);
    engine.process(VK_F13, true, 2, false);
    engine.reset();
    assert_eq!(engine.process(VK_E, false, 3, false), Outcome::default());
    assert_eq!(engine.process(VK_F13, false, 4, false), Outcome::default());
    assert_eq!(engine.process(VK_CAPITAL, false, 5, false), SWALLOW);
}
