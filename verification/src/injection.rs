//! The input events that stand for an action, a mouse click or a health probe.

use vstd::prelude::*;

use crate::engine::{
    KeyAction, MOD_ALT, MOD_CTRL, MOD_SHIFT, VK_DELETE, VK_DOWN, VK_END, VK_HOME, VK_LEFT, VK_RIGHT,
    VK_UP,
};
use crate::input::{
    EXTRA_INFO_COOKIE, HEALTH_PROBE_COOKIE, VK_LCONTROL, VK_LMENU, VK_LSHIFT, VK_LWIN, VK_RCONTROL,
    VK_RMENU, VK_RSHIFT, VK_RWIN,
};

verus! {

/// A key that no keyboard has and that no program reacts to.
pub const VK_NONAME: u32 = 0xFC;

// ---------------------------------------------------------------------------------------
// Single events
// ---------------------------------------------------------------------------------------

/// A keyboard event to inject.
#[derive(Clone, Copy, Debug, Eq, PartialEq, Structural)]
pub struct KeyboardInput {
    pub vk: u16,
    pub key_up: bool,
    pub extended: bool,
    pub extra_info: u64,
}

/// The keys whose scan codes carry the extended prefix.
pub open spec fn extended(vk: u32) -> bool {
    set![
        VK_LEFT, VK_RIGHT, VK_UP, VK_DOWN, VK_HOME, VK_END, VK_DELETE, VK_RCONTROL, VK_RMENU,
    ].contains(vk)
}

pub fn is_extended(vk: u32) -> (is: bool)
    ensures
        is == extended(vk),
{
    matches!(
        vk,
        VK_LEFT
            | VK_RIGHT
            | VK_UP
            | VK_DOWN
            | VK_HOME
            | VK_END
            | VK_DELETE
            | VK_RCONTROL
            | VK_RMENU
    )
}

/// The event of a key going down or up, marked with a cookie. Virtual keys have 16 bits here.
pub open spec fn marked(vk: u32, key_up: bool, cookie: u64) -> KeyboardInput {
    KeyboardInput {
        vk: (vk % 0x1_0000) as u16,
        key_up,
        extended: extended(vk),
        extra_info: cookie,
    }
}

pub fn keyboard_input_with_cookie(vk: u32, key_up: bool, cookie: u64) -> (input: KeyboardInput)
    ensures
        input == marked(vk, key_up, cookie),
{
    assert(vk as u16 == vk % 0x1_0000) by (bit_vector);
    KeyboardInput { vk: vk as u16, key_up, extended: is_extended(vk), extra_info: cookie }
}

/// The event of a key going down or up, marked as injected by this program.
pub fn keyboard_input(vk: u32, key_up: bool) -> (input: KeyboardInput)
    ensures
        input == marked(vk, key_up, EXTRA_INFO_COOKIE),
{
    keyboard_input_with_cookie(vk, key_up, EXTRA_INFO_COOKIE)
}

/// The events of a health probe: a key without effect goes down and up.
pub fn health_probe_inputs() -> (inputs: [KeyboardInput; 2])
    ensures
        inputs@ == seq![
            marked(VK_NONAME, false, HEALTH_PROBE_COOKIE),
            marked(VK_NONAME, true, HEALTH_PROBE_COOKIE),
        ],
{
    let inputs: [KeyboardInput; 2] = [
        keyboard_input_with_cookie(VK_NONAME, false, HEALTH_PROBE_COOKIE),
        keyboard_input_with_cookie(VK_NONAME, true, HEALTH_PROBE_COOKIE),
    ];
    assert(inputs@ =~= seq![
        marked(VK_NONAME, false, HEALTH_PROBE_COOKIE),
        marked(VK_NONAME, true, HEALTH_PROBE_COOKIE),
    ]);
    inputs
}

#[derive(Clone, Copy, Debug, Eq, PartialEq, Structural)]
pub enum MouseButton {
    Left,
    Right,
    Middle,
}

/// A mouse button event to inject.
#[derive(Clone, Copy, Debug, Eq, PartialEq, Structural)]
pub struct MouseInput {
    pub button: MouseButton,
    pub button_up: bool,
    pub extra_info: u64,
}

/// The button that a click index stands for.
pub open spec fn button(index: usize) -> MouseButton {
    if index == 0 {
        MouseButton::Left
    } else if index == 1 {
        MouseButton::Right
    } else {
        MouseButton::Middle
    }
}

/// The events of a mouse click: the button goes down and up.
pub fn mouse_click_inputs(index: usize) -> (inputs: [MouseInput; 2])
    ensures
        inputs@ == seq![
            MouseInput { button: button(index), button_up: false, extra_info: EXTRA_INFO_COOKIE },
            MouseInput { button: button(index), button_up: true, extra_info: EXTRA_INFO_COOKIE },
        ],
{
    let pressed = match index {
        0 => MouseButton::Left,
        1 => MouseButton::Right,
        _ => MouseButton::Middle,
    };
    let inputs: [MouseInput; 2] = [
        MouseInput { button: pressed, button_up: false, extra_info: EXTRA_INFO_COOKIE },
        MouseInput { button: pressed, button_up: true, extra_info: EXTRA_INFO_COOKIE },
    ];
    assert(inputs@ =~= seq![
        MouseInput { button: button(index), button_up: false, extra_info: EXTRA_INFO_COOKIE },
        MouseInput { button: button(index), button_up: true, extra_info: EXTRA_INFO_COOKIE },
    ]);
    inputs
}

// ---------------------------------------------------------------------------------------
// Typing an action
// ---------------------------------------------------------------------------------------

/// A key going down or up.
pub struct Stroke {
    pub vk: u32,
    pub key_up: bool,
}

/// An action asks for a modifier.
pub open spec fn wants(action: KeyAction, modifier: u8) -> bool {
    action.modifiers & modifier != 0
}

/// What brings a pair of modifier keys into the wanted state: one of them goes down if
/// neither is held, or all that are held go up.
#[verifier::opaque]
pub open spec fn adjust(
    left: u32,
    right: u32,
    left_held: bool,
    right_held: bool,
    wanted: bool,
) -> Seq<Stroke> {
    if wanted {
        if left_held || right_held {
            seq![]
        } else {
            seq![Stroke { vk: left, key_up: false }]
        }
    } else {
        (if left_held {
            seq![Stroke { vk: left, key_up: true }]
        } else {
            seq![]
        }) + (if right_held {
            seq![Stroke { vk: right, key_up: true }]
        } else {
            seq![]
        })
    }
}

/// What brings all modifier keys into the state that an action wants; the Win keys are never
/// wanted. `held` holds the state of each modifier key.
pub open spec fn adjust_all(action: KeyAction, held: Seq<bool>) -> Seq<Stroke> {
    adjust(VK_LCONTROL, VK_RCONTROL, held[2], held[3], wants(action, MOD_CTRL)) + adjust(
        VK_LSHIFT,
        VK_RSHIFT,
        held[0],
        held[1],
        wants(action, MOD_SHIFT),
    ) + adjust(VK_LMENU, VK_RMENU, held[4], held[5], wants(action, MOD_ALT)) + adjust(
        VK_LWIN,
        VK_RWIN,
        held[6],
        held[7],
        false,
    )
}

/// The same strokes backwards, each key going the other way.
pub open spec fn undo(strokes: Seq<Stroke>) -> Seq<Stroke> {
    Seq::new(
        strokes.len(),
        |i: int|
            Stroke {
                vk: strokes[strokes.len() - 1 - i].vk,
                key_up: !strokes[strokes.len() - 1 - i].key_up,
            },
    )
}

/// A key going down and up a number of times.
pub open spec fn taps(vk: u32, count: nat) -> Seq<Stroke> {
    Seq::new(2 * count, |i: int| Stroke { vk, key_up: i % 2 == 1 })
}

/// How often an action presses its key.
pub open spec fn presses(action: KeyAction) -> nat {
    if action.repeat == 0 {
        1
    } else {
        action.repeat as nat
    }
}

/// The strokes of an action: the modifiers are adjusted, the key is tapped, and the modifiers
/// are put back.
pub open spec fn strokes(action: KeyAction, held: Seq<bool>) -> Seq<Stroke> {
    adjust_all(action, held) + taps(action.key, presses(action)) + undo(adjust_all(action, held))
}

/// The events of a sequence of strokes.
pub open spec fn inputs_of(strokes: Seq<Stroke>) -> Seq<KeyboardInput> {
    strokes.map_values(|stroke: Stroke| marked(stroke.vk, stroke.key_up, EXTRA_INFO_COOKIE))
}

/// Appends a stroke to `prefix` and puts what undoes it in front of `suffix`.
fn add_stroke(
    prefix: &mut Vec<KeyboardInput>,
    suffix: &mut Vec<KeyboardInput>,
    vk: u32,
    key_up: bool,
    Ghost(before): Ghost<Seq<Stroke>>,
)
    requires
        old(prefix)@ == inputs_of(before),
        old(suffix)@ == inputs_of(undo(before)),
    ensures
        final(prefix)@ == inputs_of(before.push(Stroke { vk, key_up })),
        final(suffix)@ == inputs_of(undo(before.push(Stroke { vk, key_up }))),
{
    prefix.push(keyboard_input(vk, key_up));
    suffix.insert(0, keyboard_input(vk, !key_up));
    assert(prefix@ =~= inputs_of(before.push(Stroke { vk, key_up })));
    assert(suffix@ =~= inputs_of(undo(before.push(Stroke { vk, key_up }))));
}

/// Adds what brings a pair of modifier keys into the wanted state.
fn add_adjustment(
    prefix: &mut Vec<KeyboardInput>,
    suffix: &mut Vec<KeyboardInput>,
    keys: [u32; 2],
    down: [bool; 2],
    wanted: bool,
    Ghost(before): Ghost<Seq<Stroke>>,
)
    requires
        old(prefix)@ == inputs_of(before),
        old(suffix)@ == inputs_of(undo(before)),
    ensures
        ({
            let after = before + adjust(keys@[0], keys@[1], down@[0], down@[1], wanted);
            &&& final(prefix)@ == inputs_of(after)
            &&& final(suffix)@ == inputs_of(undo(after))
        }),
{
    let ghost after = before + adjust(keys@[0], keys@[1], down@[0], down@[1], wanted);
    proof {
        reveal(adjust);
    }
    if wanted {
        if !down[0] && !down[1] {
            add_stroke(prefix, suffix, keys[0], false, Ghost(before));
            assert(after =~= before.push(Stroke { vk: keys@[0], key_up: false }));
        } else {
            assert(after =~= before);
        }
    } else {
        let ghost mut done = before;
        if down[0] {
            add_stroke(prefix, suffix, keys[0], true, Ghost(before));
            proof {
                done = before.push(Stroke { vk: keys@[0], key_up: true });
            }
        }
        if down[1] {
            add_stroke(prefix, suffix, keys[1], true, Ghost(done));
            proof {
                done = done.push(Stroke { vk: keys@[1], key_up: true });
            }
        }
        assert(after =~= done);
    }
}

/// The events that type an action, given the state of each key of
/// [`modifier_keys`](crate::input::modifier_keys).
pub fn key_action_inputs(action: KeyAction, held: [bool; 8]) -> (inputs: Vec<KeyboardInput>)
    ensures
        inputs@ == inputs_of(strokes(action, held@)),
{
    let mut prefix: Vec<KeyboardInput> = Vec::with_capacity(10);
    let mut suffix: Vec<KeyboardInput> = Vec::with_capacity(10);
    let ghost none = Seq::<Stroke>::empty();
    assert(prefix@ =~= inputs_of(none));
    assert(suffix@ =~= inputs_of(undo(none)));
    let control = action.modifiers & MOD_CTRL != 0;
    let shift = action.modifiers & MOD_SHIFT != 0;
    let alt = action.modifiers & MOD_ALT != 0;
    add_adjustment(
        &mut prefix,
        &mut suffix,
        [VK_LCONTROL, VK_RCONTROL],
        [held[2], held[3]],
        control,
        Ghost(none),
    );
    let ghost after_control = none + adjust(VK_LCONTROL, VK_RCONTROL, held@[2], held@[3], control);
    add_adjustment(
        &mut prefix,
        &mut suffix,
        [VK_LSHIFT, VK_RSHIFT],
        [held[0], held[1]],
        shift,
        Ghost(after_control),
    );
    let ghost after_shift = after_control + adjust(VK_LSHIFT, VK_RSHIFT, held@[0], held@[1], shift);
    add_adjustment(
        &mut prefix,
        &mut suffix,
        [VK_LMENU, VK_RMENU],
        [held[4], held[5]],
        alt,
        Ghost(after_shift),
    );
    let ghost after_alt = after_shift + adjust(VK_LMENU, VK_RMENU, held@[4], held@[5], alt);
    add_adjustment(
        &mut prefix,
        &mut suffix,
        [VK_LWIN, VK_RWIN],
        [held[6], held[7]],
        false,
        Ghost(after_alt),
    );
    let ghost adjustment = adjust_all(action, held@);
    assert(after_alt + adjust(VK_LWIN, VK_RWIN, held@[6], held@[7], false) =~= adjustment);

    let mut inputs = prefix;
    let count: u8 = if action.repeat == 0 { 1 } else { action.repeat };
    assert(inputs@ =~= inputs_of(adjustment + taps(action.key, 0)));
    for done in 0..count
        invariant
            inputs@ == inputs_of(adjustment + taps(action.key, done as nat)),
    {
        inputs.push(keyboard_input(action.key, false));
        inputs.push(keyboard_input(action.key, true));
        assert(inputs@ =~= inputs_of(adjustment + taps(action.key, (done + 1) as nat)));
    }
    inputs.append(&mut suffix);
    assert(inputs@ =~= inputs_of(strokes(action, held@)));
    inputs
}

} // verus!
