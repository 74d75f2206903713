//! What holds of the key event state machine over whole sequences of events.

use vstd::prelude::*;

use crate::engine;
use crate::engine::{
    CapsPress, Effect, EngineState, KeyAction, KeyInput, Outcome, VK_A, VK_B,
    VK_CAPITAL, VK_D, VK_E, VK_ESCAPE, VK_F, VK_G, VK_H, VK_I, VK_J, VK_K, VK_L, VK_N, VK_O,
    VK_OEM_1, VK_OEM_2, VK_OEM_PERIOD, VK_P, VK_Q, VK_R, VK_S, VK_SPACE, VK_T, VK_U, VK_W, VK_Y,
};

verus! {

/// Pressing CapsLock at `time`.
pub open spec fn caps_press(time: u32, modified: bool) -> KeyInput {
    KeyInput { vk: VK_CAPITAL, is_down: true, time, modified }
}

/// Releasing CapsLock at `time`.
pub open spec fn caps_release(time: u32, modified: bool) -> KeyInput {
    KeyInput { vk: VK_CAPITAL, is_down: false, time, modified }
}

/// None of the events releases `vk`.
pub open spec fn without_release(inputs: Seq<KeyInput>, vk: u32) -> bool {
    forall|i: int|
        0 <= i < inputs.len() ==> !((#[trigger] inputs[i]).vk == vk && !inputs[i].is_down)
}

/// With CapsLock held and no modifier, the event presses a hotkey whose release is not awaited.
pub open spec fn presses_hotkey(state: EngineState, input: KeyInput) -> bool {
    &&& input.is_down
    &&& state.caps_down
    &&& !input.modified
    &&& engine::hotkey(input.vk) is Some
    &&& !state.suppressed.contains(input.vk)
}

/// Event `i` of the sequence presses a hotkey in the CapsLock layer that was not held before.
pub open spec fn hotkey_starts_at(state: EngineState, inputs: Seq<KeyInput>, i: int) -> bool {
    0 <= i < inputs.len() && presses_hotkey(state.after_all(inputs.take(i)), inputs[i])
}

/// Some event of the sequence presses a hotkey in the CapsLock layer that was not held before.
pub open spec fn some_hotkey_starts(state: EngineState, inputs: Seq<KeyInput>) -> bool {
    exists|i: int| #[trigger] hotkey_starts_at(state, inputs, i)
}

proof fn lemma_prefixes(state: EngineState, inputs: Seq<KeyInput>)
    requires
        inputs.len() > 0,
    ensures
        forall|i: int|
            0 <= i < inputs.len() - 1 ==> (#[trigger] hotkey_starts_at(state, inputs, i)
                <==> hotkey_starts_at(state, inputs.drop_last(), i)),
        hotkey_starts_at(state, inputs, inputs.len() - 1) <==> presses_hotkey(
            state.after_all(inputs.drop_last()),
            inputs.last(),
        ),
{
    assert forall|i: int| 0 <= i < inputs.len() - 1 implies (#[trigger] hotkey_starts_at(
        state,
        inputs,
        i,
    ) <==> hotkey_starts_at(state, inputs.drop_last(), i)) by {
        assert(inputs.take(i) =~= inputs.drop_last().take(i));
    }
    assert(inputs.take(inputs.len() - 1) =~= inputs.drop_last());
}

/// The engine stays well formed: only hotkeys are ever suppressed.
pub proof fn law_stays_well_formed(state: EngineState, inputs: Seq<KeyInput>)
    requires
        state.wf(),
    ensures
        state.after_all(inputs).wf(),
    decreases inputs.len(),
{
    if inputs.len() > 0 {
        law_stays_well_formed(state, inputs.drop_last());
    }
}

/// A call that changes what the engine remembers.
pub enum EngineCall {
    Process { input: KeyInput },
    Reset,
    Synchronize { caps_down: bool, clicking: Seq<bool>, time: u32 },
}

impl EngineCall {
    /// There are three hold-to-click keys.
    pub open spec fn wf(self) -> bool {
        self matches EngineCall::Synchronize { clicking, .. } ==> clicking.len() == 3
    }
}

/// The state after a sequence of calls.
pub open spec fn after_calls(state: EngineState, calls: Seq<EngineCall>) -> EngineState
    decreases calls.len(),
{
    if calls.len() == 0 {
        state
    } else {
        let before = after_calls(state, calls.drop_last());
        match calls.last() {
            EngineCall::Process { input } => before.after(input),
            EngineCall::Reset => EngineState::initial(),
            EngineCall::Synchronize { caps_down, clicking, time } => EngineState::synchronized(
                caps_down,
                clicking,
                time,
            ),
        }
    }
}

/// Whatever calls are made of a new engine, only hotkeys are ever suppressed, never CapsLock or
/// a hold-to-click key.
pub proof fn law_only_hotkeys_are_suppressed(calls: Seq<EngineCall>, vk: u32)
    requires
        forall|i: int| 0 <= i < calls.len() ==> (#[trigger] calls[i]).wf(),
    ensures
        after_calls(EngineState::initial(), calls).wf(),
        after_calls(EngineState::initial(), calls).suppressed.contains(vk) ==> {
            &&& engine::hotkey(vk) is Some
            &&& vk != VK_CAPITAL
            &&& engine::clicker(vk) is None
        },
    decreases calls.len(),
{
    if calls.len() > 0 {
        let before = calls.drop_last();
        assert forall|i: int| 0 <= i < before.len() implies (#[trigger] before[i]).wf() by {
            assert(before[i] == calls[i]);
        }
        law_only_hotkeys_are_suppressed(before, vk);
        assert(calls[calls.len() - 1].wf());
    }
}

/// An event that goes on to the system has no effect and leaves no trace.
pub proof fn law_passed_events_leave_no_trace(state: EngineState, input: KeyInput)
    requires
        state.wf(),
        !state.outcome(input).suppress,
    ensures
        state.outcome(input) == Outcome::pass(),
        state.after(input) == state,
{
    assert(state.suppressed.remove(input.vk) =~= state.suppressed);
    if let Some(index) = engine::clicker(input.vk) {
        assert(state.clicking.update(index as int, state.clicking[index as int])
            =~= state.clicking);
    }
}

/// CapsLock itself never reaches the system.
pub proof fn law_caps_is_swallowed(state: EngineState, input: KeyInput)
    requires
        input.vk == VK_CAPITAL,
    ensures
        state.outcome(input).suppress,
{
}

/// What happens to a CapsLock press until it is released: its time stays, whatever automatic
/// repetitions follow, and it counts as used as soon as a hotkey is pressed.
proof fn lemma_press_under_way(state: EngineState, inputs: Seq<KeyInput>)
    requires
        state.caps_down,
        without_release(inputs, VK_CAPITAL),
    ensures
        state.after_all(inputs).caps_down,
        state.after_all(inputs).press == (CapsPress {
            at: state.press.at,
            used: state.press.used || some_hotkey_starts(state, inputs),
        }),
    decreases inputs.len(),
{
    if inputs.len() == 0 {
    } else {
        let before = inputs.drop_last();
        assert forall|i: int| 0 <= i < before.len() implies !((#[trigger] before[i]).vk
            == VK_CAPITAL && !before[i].is_down) by {
            assert(before[i] == inputs[i]);
        }
        lemma_press_under_way(state, before);
        lemma_prefixes(state, inputs);
        if some_hotkey_starts(state, before) {
            let i = choose|i: int| hotkey_starts_at(state, before, i);
            assert(hotkey_starts_at(state, inputs, i));
        }
        if presses_hotkey(state.after_all(before), inputs.last()) {
            assert(hotkey_starts_at(state, inputs, inputs.len() - 1));
        } else if some_hotkey_starts(state, inputs) {
            let i = choose|i: int| hotkey_starts_at(state, inputs, i);
            assert(i != inputs.len() - 1);
            assert(hotkey_starts_at(state, before, i));
        }
        assert(!(inputs[inputs.len() - 1].vk == VK_CAPITAL && !inputs[inputs.len() - 1].is_down));
    }
}

/// Pressing CapsLock and next releasing it sends Esc exactly when less than 300 ms lie between
/// the two and no hotkey was pressed in the meantime. Neither other keys nor the automatic
/// repetitions of CapsLock itself make a difference.
pub proof fn law_tap_sends_escape(
    state: EngineState,
    pressed_at: u32,
    inputs: Seq<KeyInput>,
    released_at: u32,
    modified_before: bool,
    modified_after: bool,
)
    requires
        !state.caps_down,
        without_release(inputs, VK_CAPITAL),
    ensures
        ({
            let held = state.after(caps_press(pressed_at, modified_before));
            let release = held.after_all(inputs).outcome(caps_release(released_at, modified_after));
            if engine::elapsed(pressed_at, released_at) < 300 && !some_hotkey_starts(
                held,
                inputs,
            ) {
                release == Outcome::replace(
                    Effect::Key(KeyAction { key: VK_ESCAPE, modifiers: 0, repeat: 1 }),
                )
            } else {
                release == Outcome::swallow()
            }
        }),
{
    lemma_press_under_way(state.after(caps_press(pressed_at, modified_before)), inputs);
}

/// A CapsLock press that was taken over from the physical keyboard never sends Esc, whatever
/// is typed, however often CapsLock repeats and however soon it is released.
pub proof fn law_unobserved_press_sends_no_escape(
    clicking: Seq<bool>,
    time: u32,
    inputs: Seq<KeyInput>,
    released_at: u32,
    modified: bool,
)
    requires
        without_release(inputs, VK_CAPITAL),
    ensures
        EngineState::synchronized(true, clicking, time).after_all(inputs).outcome(
            caps_release(released_at, modified),
        ) == Outcome::swallow(),
{
    lemma_press_under_way(EngineState::synchronized(true, clicking, time), inputs);
}

/// Esc comes from CapsLock alone.
pub proof fn law_escape_comes_from_caps(state: EngineState, input: KeyInput)
    requires
        state.outcome(input).effect matches Some(Effect::Key(action)) && action.key == VK_ESCAPE,
    ensures
        input.vk == VK_CAPITAL,
        !input.is_down,
{
}

/// The length of a press depends on the difference of the tick counts alone, so a tick count
/// that wraps around makes no difference.
pub proof fn law_elapsed_ignores_wraparound(from: u32, to: u32, offset: u32)
    ensures
        engine::elapsed(
            ((from + offset) % 0x1_0000_0000) as u32,
            ((to + offset) % 0x1_0000_0000) as u32,
        ) == engine::elapsed(from, to),
        from <= to ==> engine::elapsed(from, to) == to - from,
{
}

/// While CapsLock is held, each press of a hotkey without modifiers, the automatic
/// repetitions included, is replaced by what the table says.
pub proof fn law_layer_replaces_hotkeys(state: EngineState, input: KeyInput)
    requires
        state.caps_down,
        input.is_down,
        !input.modified,
        engine::hotkey(input.vk) is Some,
    ensures
        state.outcome(input) == Outcome::replace(Effect::Key(engine::hotkey(input.vk)->0)),
{
}

/// While CapsLock is not held, no key types anything else.
pub proof fn law_no_layer_without_caps(state: EngineState, input: KeyInput)
    requires
        !state.caps_down,
    ensures
        !(state.outcome(input).effect matches Some(Effect::Key(_))),
{
}

/// A key that has no role passes through and changes nothing.
pub proof fn law_other_keys_pass(state: EngineState, input: KeyInput)
    requires
        state.wf(),
        input.vk != VK_CAPITAL,
        engine::clicker(input.vk) is None,
        engine::hotkey(input.vk) is None,
    ensures
        state.outcome(input) == Outcome::pass(),
        state.after(input) == state,
{
    assert(state.suppressed.remove(input.vk) =~= state.suppressed);
}

/// With a modifier held, a key that is pressed passes through and changes nothing, unless it is
/// CapsLock or a hotkey that is held already.
pub proof fn law_modified_keys_pass(state: EngineState, input: KeyInput)
    requires
        state.wf(),
        input.vk != VK_CAPITAL,
        input.is_down,
        input.modified,
        !state.suppressed.contains(input.vk),
    ensures
        state.outcome(input) == Outcome::pass(),
        state.after(input) == state,
{
}

/// Once the press of a hotkey is swallowed, so is everything that follows of that key up to
/// and including its release; after that the key is free again.
pub proof fn law_hotkey_release_is_swallowed(
    state: EngineState,
    press: KeyInput,
    inputs: Seq<KeyInput>,
    next: KeyInput,
)
    requires
        state.wf(),
        presses_hotkey(state, press),
        without_release(inputs, press.vk),
        next.vk == press.vk,
    ensures
        ({
            let held = state.after(press).after_all(inputs);
            &&& state.outcome(press).suppress
            &&& held.suppressed.contains(press.vk)
            &&& held.outcome(next).suppress
            &&& !next.is_down ==> held.outcome(next) == Outcome::swallow()
            &&& !next.is_down ==> !held.after(next).suppressed.contains(press.vk)
        }),
    decreases inputs.len(),
{
    if inputs.len() > 0 {
        let before = inputs.drop_last();
        assert forall|i: int| 0 <= i < before.len() implies !((#[trigger] before[i]).vk == press.vk
            && !before[i].is_down) by {
            assert(before[i] == inputs[i]);
        }
        law_hotkey_release_is_swallowed(state, press, before, next);
        assert(inputs[inputs.len() - 1] == inputs.last());
    }
}

/// The key `vk` was pressed as a hotkey at event `i` and not released since.
pub open spec fn hotkey_held_since(
    start: EngineState,
    inputs: Seq<KeyInput>,
    vk: u32,
    i: int,
) -> bool {
    &&& hotkey_starts_at(start, inputs, i)
    &&& inputs[i].vk == vk
    &&& without_release(inputs.skip(i), vk)
}

/// A key is suppressed exactly as long as a press that was swallowed awaits its release: no
/// release is swallowed whose press the system has seen. This holds from the initial state on,
/// and from any state taken over from the physical keyboard.
pub proof fn law_suppressed_means_unreleased(start: EngineState, inputs: Seq<KeyInput>, vk: u32)
    requires
        start.wf(),
        start.suppressed == Set::<u32>::empty(),
    ensures
        start.after_all(inputs).suppressed.contains(vk) <==> exists|i: int|
            hotkey_held_since(start, inputs, vk, i),
    decreases inputs.len(),
{
    if inputs.len() > 0 {
        let before = inputs.drop_last();
        let last = inputs.last();
        law_suppressed_means_unreleased(start, before, vk);
        law_stays_well_formed(start, before);
        lemma_prefixes(start, inputs);
        let held = start.after_all(before);
        assert forall|i: int| 0 <= i < before.len() implies (hotkey_held_since(start, inputs, vk, i) <==> (
        #[trigger] hotkey_held_since(start, before, vk, i) && !(last.vk == vk && !last.is_down))) by {
            assert(hotkey_starts_at(start, inputs, i) <==> hotkey_starts_at(start, before, i));
            let longer = inputs.skip(i);
            let shorter = before.skip(i);
            assert(longer.last() == last);
            if without_release(longer, vk) {
                assert forall|k: int| 0 <= k < shorter.len() implies !((#[trigger] shorter[k]).vk == vk
                    && !shorter[k].is_down) by {
                    assert(shorter[k] == longer[k]);
                }
                assert(!(longer[longer.len() - 1].vk == vk && !longer[longer.len() - 1].is_down));
            }
            if without_release(shorter, vk) && !(last.vk == vk && !last.is_down) {
                assert forall|k: int| 0 <= k < longer.len() implies !((#[trigger] longer[k]).vk == vk
                    && !longer[k].is_down) by {
                    if k < shorter.len() {
                        assert(shorter[k] == longer[k]);
                    }
                }
            }
        }
        if start.after_all(inputs).suppressed.contains(vk) {
            if held.suppressed.contains(vk) {
                let i = choose|i: int| hotkey_held_since(start, before, vk, i);
                assert(hotkey_held_since(start, inputs, vk, i));
            } else {
                assert(presses_hotkey(held, last) && last.vk == vk);
                assert(inputs.skip(inputs.len() - 1) =~= seq![last]);
                assert(hotkey_held_since(start, inputs, vk, inputs.len() - 1));
            }
        }
        if exists|i: int| hotkey_held_since(start, inputs, vk, i) {
            let i = choose|i: int| hotkey_held_since(start, inputs, vk, i);
            if i < before.len() {
                assert(hotkey_held_since(start, before, vk, i));
            }
        }
    } else {
        assert forall|i: int| !hotkey_held_since(start, inputs, vk, i) by {}
    }
}

/// The flag of each mouse button after an outcome took effect.
pub open spec fn clicks_after(flags: Seq<bool>, outcome: Outcome) -> Seq<bool> {
    match outcome.effect {
        Some(Effect::Click { index, active }) => flags.update(index as int, active),
        _ => flags,
    }
}

/// A click effect always changes the flag that it is for, so clicking starts once when the
/// key goes down and stops once when it comes up, and whoever applies the effects has the
/// same flags as the engine.
pub proof fn law_click_effects_are_changes(state: EngineState, input: KeyInput)
    requires
        state.wf(),
    ensures
        state.outcome(input).effect matches Some(Effect::Click { index, active }) ==> {
            &&& engine::clicker(input.vk) == Some(index)
            &&& input.is_down == active
            &&& state.clicking[index as int] != active
        },
        state.after(input).clicking == clicks_after(state.clicking, state.outcome(input)),
{
    if let Some(index) = engine::clicker(input.vk) {
        if state.clicking[index as int] == input.is_down {
            assert(state.clicking.update(index as int, input.is_down) =~= state.clicking);
        }
    }
}

/// Releasing a hold-to-click key always ends the clicking, modifiers or not.
pub proof fn law_click_release_stops(state: EngineState, input: KeyInput)
    requires
        state.wf(),
        engine::clicker(input.vk) is Some,
        !input.is_down,
    ensures
        !state.after(input).clicking[engine::clicker(input.vk)->0 as int],
{
}

/// The keys of the CapsLock layer.
pub open spec fn hotkeys() -> Seq<u32> {
    seq![
        VK_E, VK_S, VK_D, VK_F, VK_A, VK_G, VK_W, VK_R, VK_T, VK_B, VK_I, VK_J, VK_K, VK_L, VK_H,
        VK_OEM_PERIOD, VK_U, VK_O, VK_P, VK_OEM_1, VK_Y, VK_N, VK_Q, VK_OEM_2, VK_SPACE,
    ]
}

/// The layer has twenty-five keys, each of them once, and no others. CapsLock and the
/// hold-to-click keys are not among them. What is typed is pressed once or five times, with
/// no modifiers but Ctrl, Shift and Alt.
pub proof fn law_hotkey_table(vk: u32)
    ensures
        hotkeys().len() == 25,
        hotkeys().no_duplicates(),
        hotkeys().contains(vk) <==> engine::hotkey(vk) is Some,
        engine::hotkey(vk) is Some ==> vk != VK_CAPITAL && engine::clicker(vk) is None,
        engine::hotkey(vk) matches Some(action) ==> {
            &&& action.repeat == 1 || action.repeat == 5
            &&& action.modifiers < 8
            &&& action.key != VK_CAPITAL
            &&& engine::clicker(action.key) is None
        },
{
    let keys = hotkeys();
    if engine::hotkey(vk) is Some {
        assert(keys[0] == VK_E && keys[1] == VK_S && keys[2] == VK_D && keys[3] == VK_F && keys[4]
            == VK_A && keys[5] == VK_G && keys[6] == VK_W && keys[7] == VK_R && keys[8] == VK_T
            && keys[9] == VK_B && keys[10] == VK_I && keys[11] == VK_J && keys[12] == VK_K
            && keys[13] == VK_L && keys[14] == VK_H && keys[15] == VK_OEM_PERIOD && keys[16] == VK_U
            && keys[17] == VK_O && keys[18] == VK_P && keys[19] == VK_OEM_1 && keys[20] == VK_Y
            && keys[21] == VK_N && keys[22] == VK_Q && keys[23] == VK_OEM_2 && keys[24] == VK_SPACE);
    }
}

// ---------------------------------------------------------------------------------------
// Single events
// ---------------------------------------------------------------------------------------

/// Which keys make up the layer, by their virtual-key codes, and what each of them types: the
/// four arrows, Home and End, Backspace and Delete, and three shortcuts. Ctrl goes with A, G, H
/// and the period, Shift with the selecting keys and the shortcuts, Alt with the shortcuts alone.
/// T, B, Y and N type five times, all others once.
pub proof fn law_what_hotkeys_type(vk: u32)
    ensures
        engine::hotkey(vk) is Some <==> set![
            0x45u32, 0x53, 0x44, 0x46, 0x41, 0x47, 0x57, 0x52, 0x54, 0x42, 0x49, 0x4A, 0x4B, 0x4C, 0x48,
            0xBE, 0x55, 0x4F, 0x50, 0xBA, 0x59, 0x4E, 0x51, 0xBF, 0x20,
        ].contains(vk),
        engine::hotkey(vk) matches Some(action) ==> {
            &&& action.key == 0x26 <==> set![0x45u32, 0x54, 0x49, 0x59].contains(vk)
            &&& action.key == 0x28 <==> set![0x44u32, 0x42, 0x4B, 0x4E].contains(vk)
            &&& action.key == 0x25 <==> set![0x53u32, 0x41, 0x4A, 0x48].contains(vk)
            &&& action.key == 0x27 <==> set![0x46u32, 0x47, 0x4C, 0xBE].contains(vk)
            &&& action.key == 0x24 <==> set![0x55u32, 0x50].contains(vk)
            &&& action.key == 0x23 <==> set![0x4Fu32, 0xBA].contains(vk)
            &&& action.key == 0x08 <==> vk == 0x57
            &&& action.key == 0x2E <==> vk == 0x52
            &&& action.key == 0x51 <==> vk == 0x51
            &&& action.key == 0xBF <==> vk == 0xBF
            &&& action.key == 0xDD <==> vk == 0x20
            &&& action.modifiers & 1 != 0 <==> set![0x41u32, 0x47, 0x48, 0xBE].contains(vk)
            &&& action.modifiers & 2 != 0 <==> set![
                0x49u32, 0x4A, 0x4B, 0x4C, 0x48, 0xBE, 0x55, 0x4F, 0x59, 0x4E, 0x51, 0xBF, 0x20,
            ].contains(vk)
            &&& action.modifiers & 4 != 0 <==> set![0x51u32, 0xBF, 0x20].contains(vk)
            &&& action.modifiers < 8
            &&& action.repeat == if set![0x54u32, 0x42, 0x59, 0x4E].contains(vk) {
                5u8
            } else {
                1u8
            }
        },
{
    assert(0u8 & 1 == 0 && 0u8 & 2 == 0 && 0u8 & 4 == 0 && 1u8 & 1 == 1 && 1u8 & 2 == 0 && 1u8 & 4
        == 0 && 2u8 & 1 == 0 && 2u8 & 2 == 2 && 2u8 & 4 == 0 && 3u8 & 1 == 1 && 3u8 & 2 == 2 && 3u8
        & 4 == 0 && 6u8 & 1 == 0 && 6u8 & 2 == 2 && 6u8 & 4 == 4) by (bit_vector);
}

/// The hold-to-click keys are F13, F14 and F15, in the order of the buttons.
pub proof fn law_hold_to_click_keys(vk: u32, index: usize)
    ensures
        engine::clicker(vk) == Some(index) <==> index < 3 && vk == 0x7C + index,
        engine::clicker(vk) is Some <==> 0x7C <= vk <= 0x7E,
{
}

/// Esc, and nothing else, is typed when CapsLock comes up less than 300 ms after it went down and
/// the press has not been used; the time runs on across a wraparound of the tick count. Any other
/// CapsLock event is swallowed and has no effect.
pub proof fn law_caps_verdict(state: EngineState, input: KeyInput)
    requires
        input.vk == 0x14,
    ensures
        state.outcome(input).suppress,
        state.outcome(input).effect is Some <==> {
            &&& !input.is_down
            &&& state.caps_down
            &&& !state.press.used
            &&& {
                ||| 0 <= input.time - state.press.at < 300
                ||| input.time - state.press.at + 0x1_0000_0000 < 300
            }
        },
        state.outcome(input).effect matches Some(effect) ==> effect == Effect::Key(
            KeyAction { key: 0x1B, modifiers: 0, repeat: 1 },
        ),
{
}

/// What a CapsLock event changes: CapsLock is held after it went down and not after it came up.
/// The first event of a press sets its time and makes it unused; repetitions and the release
/// leave both alone. Hotkeys that are held and buttons that are clicked stay as they are.
pub proof fn law_caps_trace(state: EngineState, input: KeyInput)
    requires
        input.vk == 0x14,
    ensures
        state.after(input).caps_down == input.is_down,
        input.is_down && !state.caps_down ==> state.after(input).press.at == input.time
            && !state.after(input).press.used,
        !input.is_down || state.caps_down ==> state.after(input).press == state.press,
        state.after(input).suppressed == state.suppressed,
        state.after(input).clicking == state.clicking,
{
}

/// A hold-to-click key, `index` counting from F13: pressed without modifiers it starts the clicks
/// of its button, repeated it changes nothing, released it stops them. Events that neither start
/// nor stop anything are swallowed while the button is clicked and pass otherwise; a press with
/// modifiers always passes. No other button and no other key is affected.
pub proof fn law_click_key_verdict(state: EngineState, input: KeyInput, index: usize)
    requires
        state.wf(),
        index < 3,
        input.vk == 0x7C + index,
    ensures
        ({
            let clicked = state.clicking[index as int];
            let outcome = state.outcome(input);
            let after = state.after(input);
            &&& input.is_down && !input.modified && !clicked ==> outcome.suppress && outcome.effect
                == Some(Effect::Click { index, active: true })
            &&& input.is_down && !input.modified && clicked ==> outcome.suppress && outcome.effect
                is None
            &&& input.is_down && input.modified ==> !outcome.suppress && outcome.effect is None
            &&& !input.is_down && clicked ==> outcome.suppress && outcome.effect == Some(
                Effect::Click { index, active: false },
            )
            &&& !input.is_down && !clicked ==> !outcome.suppress && outcome.effect is None
            &&& after.clicking[index as int] == (if input.is_down {
                clicked || !input.modified
            } else {
                false
            })
            &&& after.clicking.len() == 3
            &&& forall|other: int|
                0 <= other < 3 && other != index ==> #[trigger] after.clicking[other]
                    == state.clicking[other]
            &&& after.caps_down == state.caps_down
            &&& after.press == state.press
            &&& after.suppressed == state.suppressed
        }),
{
}

/// Any other key: it types what the table says exactly when it is a hotkey that goes down with
/// CapsLock held and no modifier; it is kept from the system then, and also while its release is
/// awaited. Its release is awaited from the first such press on until it comes. The CapsLock
/// press counts as used from the first press of a hotkey on. Nothing else changes.
pub proof fn law_typing_key_verdict(state: EngineState, input: KeyInput)
    requires
        state.wf(),
        input.vk != 0x14,
        input.vk < 0x7C || input.vk > 0x7E,
    ensures
        ({
            let awaited = state.suppressed.contains(input.vk);
            let typing = input.is_down && state.caps_down && !input.modified && engine::hotkey(
                input.vk,
            ) is Some;
            let outcome = state.outcome(input);
            let after = state.after(input);
            &&& outcome.suppress == (typing || awaited)
            &&& outcome.effect is Some == typing
            &&& typing ==> outcome.effect == Some(Effect::Key(engine::hotkey(input.vk)->0))
            &&& after.suppressed.contains(input.vk) == (input.is_down && (typing || awaited))
            &&& forall|other: u32|
                other != input.vk ==> #[trigger] after.suppressed.contains(other)
                    == state.suppressed.contains(other)
            &&& after.caps_down == state.caps_down
            &&& after.press.at == state.press.at
            &&& after.press.used == (state.press.used || (typing && !awaited))
            &&& after.clicking == state.clicking
        }),
{
}

/// A new engine knows of no key that is held; one that takes over the keyboard knows of CapsLock
/// and the hold-to-click keys that are, and counts a CapsLock press that it takes over as used.
pub proof fn law_where_engines_begin(caps_down: bool, clicking: Seq<bool>, time: u32)
    ensures
        ({
            let new = EngineState::initial();
            &&& !new.caps_down
            &&& new.press == (CapsPress { at: 0, used: false })
            &&& forall|vk: u32| !#[trigger] new.suppressed.contains(vk)
            &&& new.clicking == seq![false, false, false]
        }),
        ({
            let taken_over = EngineState::synchronized(caps_down, clicking, time);
            &&& taken_over.caps_down == caps_down
            &&& taken_over.press.at == time
            &&& taken_over.press.used == caps_down
            &&& forall|vk: u32| !#[trigger] taken_over.suppressed.contains(vk)
            &&& taken_over.clicking == clicking
        }),
{
}

} // verus!
