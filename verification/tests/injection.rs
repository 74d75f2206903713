use capslockrs::engine::{
    KeyAction, MOD_ALT, MOD_CTRL, MOD_SHIFT, VK_DELETE, VK_DOWN, VK_END, VK_ESCAPE, VK_F13, VK_F14,
    VK_F15, VK_HOME, VK_LEFT, VK_OEM_6, VK_RIGHT, VK_UP,
};
use capslockrs::engine::click_index;
use capslockrs::injection::{
    health_probe_inputs, is_extended, key_action_inputs, keyboard_input,
    keyboard_input_with_cookie, mouse_click_inputs, KeyboardInput, MouseButton, MouseInput,
    VK_NONAME,
};
use capslockrs::input::{
    EXTRA_INFO_COOKIE, HEALTH_PROBE_COOKIE, VK_LCONTROL, VK_LMENU, VK_LSHIFT, VK_LWIN, VK_RCONTROL,
    VK_RMENU, VK_RSHIFT, VK_RWIN,
};

fn strokes(inputs: &[KeyboardInput]) -> Vec<(u32, bool)> {
    inputs
        .iter()
        .map(|input| (u32::from(input.vk), input.key_up))
        .collect()
}

#[test]
fn extended_keys_are_the_navigation_and_right_hand_keys() {
    let extended: Vec<u32> = (0..0x200).filter(|vk| is_extended(*vk)).collect();
    let mut expected = vec![
        VK_LEFT, VK_RIGHT, VK_UP, VK_DOWN, VK_HOME, VK_END, VK_DELETE, VK_RCONTROL, VK_RMENU,
    ];
    expected.sort_unstable();
    assert_eq!(extended, expected);
}

#[test]
fn keyboard_input_carries_the_cookie() {
    assert_eq!(
        keyboard_input(VK_LEFT, true),
        KeyboardInput {
            vk: 0x25,
            key_up: true,
            extended: true,
            extra_info: EXTRA_INFO_COOKIE,
        }
    );
    assert_eq!(
        keyboard_input_with_cookie(0x1_0041, false, 9),
        KeyboardInput {
            vk: 0x41,
            key_up: false,
            extended: false,
            extra_info: 9,
        }
    );
}

#[test]
fn health_probe_presses_and_releases_a_key_without_effect() {
    let inputs = health_probe_inputs();
    assert_eq!(strokes(&inputs), [(VK_NONAME, false), (VK_NONAME, true)]);
    assert!(inputs
        .iter()
        .all(|input| input.extra_info == HEALTH_PROBE_COOKIE && !input.extended));
}

#[test]
fn click_keys_click_left_right_and_middle() {
    for (vk, button) in [
        (VK_F13, MouseButton::Left),
        (VK_F14, MouseButton::Right),
        (VK_F15, MouseButton::Middle),
    ] {
        let Some(index) = click_index(vk) else {
            panic!("not a click key");
        };
        assert_eq!(
            mouse_click_inputs(index),
            [
                MouseInput {
                    button,
                    button_up: false,
                    extra_info: EXTRA_INFO_COOKIE,
                },
                MouseInput {
                    button,
                    button_up: true,
                    extra_info: EXTRA_INFO_COOKIE,
                },
            ]
        );
    }
    assert_eq!(mouse_click_inputs(9)[0].button, MouseButton::Middle);
}

#[test]
fn plain_action_is_a_tap() {
    let inputs = key_action_inputs(KeyAction::new(VK_ESCAPE, 0, 1), [false; 8]);
    assert_eq!(strokes(&inputs), [(VK_ESCAPE, false), (VK_ESCAPE, true)]);
    assert!(inputs
        .iter()
        .all(|input| input.extra_info == EXTRA_INFO_COOKIE));
}

#[test]
fn repeated_action_is_several_taps() {
    let inputs = key_action_inputs(KeyAction::new(VK_UP, 0, 5), [false; 8]);
    assert_eq!(inputs.len(), 10);
    for (i, input) in inputs.iter().enumerate() {
        assert_eq!(
            *input,
            KeyboardInput {
                vk: 0x26,
                key_up: i % 2 == 1,
                extended: true,
                extra_info: EXTRA_INFO_COOKIE,
            }
        );
    }
}

#[test]
fn action_without_repetitions_is_typed_once() {
    let inputs = key_action_inputs(KeyAction::new(VK_ESCAPE, 0, 0), [false; 8]);
    assert_eq!(inputs.len(), 2);
    let many = key_action_inputs(KeyAction::new(VK_ESCAPE, 0, 255), [false; 8]);
    assert_eq!(many.len(), 510);
}

#[test]
fn wanted_modifiers_are_pressed_and_released_in_reverse() {
    let action = KeyAction::new(VK_LEFT, MOD_CTRL | MOD_SHIFT, 1);
    assert_eq!(
        strokes(&key_action_inputs(action, [false; 8])),
        [
            (VK_LCONTROL, false),
            (VK_LSHIFT, false),
            (VK_LEFT, false),
            (VK_LEFT, true),
            (VK_LSHIFT, true),
            (VK_LCONTROL, true),
        ]
    );
    let action = KeyAction::new(VK_OEM_6, MOD_ALT | MOD_SHIFT, 1);
    assert_eq!(
        strokes(&key_action_inputs(action, [false; 8])),
        [
            (VK_LSHIFT, false),
            (VK_LMENU, false),
            (VK_OEM_6, false),
            (VK_OEM_6, true),
            (VK_LMENU, true),
            (VK_LSHIFT, true),
        ]
    );
}

#[test]
fn held_wanted_modifiers_are_left_alone() {
    let mut held = [false; 8];
    held[1] = true;
    assert_eq!(
        strokes(&key_action_inputs(KeyAction::new(VK_UP, MOD_SHIFT, 1), held)),
        [(VK_UP, false), (VK_UP, true)]
    );
}

#[test]
fn unwanted_modifiers_are_lifted_and_put_back() {
    assert_eq!(
        strokes(&key_action_inputs(KeyAction::new(VK_UP, MOD_ALT, 1), [true; 8])),
        [
            (VK_LCONTROL, true),
            (VK_RCONTROL, true),
            (VK_LSHIFT, true),
            (VK_RSHIFT, true),
            (VK_LWIN, true),
            (VK_RWIN, true),
            (VK_UP, false),
            (VK_UP, true),
            (VK_RWIN, false),
            (VK_LWIN, false),
            (VK_RSHIFT, false),
            (VK_LSHIFT, false),
            (VK_RCONTROL, false),
            (VK_LCONTROL, false),
        ]
    );
}
