//! What holds of the hook callback, pausing and the click flags taken together.

use vstd::prelude::*;

use crate::engine;
use crate::engine::{Effect, EngineState, KeyAction, KeyInput, VK_CAPITAL};
use crate::engine_laws;
use crate::input;
use crate::input::{
    HookCommand, HookDecision, HookState, KeyEvent, PackedAction, EXTRA_INFO_COOKIE,
    HEALTH_PROBE_COOKIE,
};

verus! {

/// What this program injects is passed on as it is and changes nothing, so no injected key is
/// ever remapped.
pub proof fn law_injected_input_passes(
    state: HookState,
    event: KeyEvent,
    paused: bool,
    injector_thread: u32,
)
    requires
        event.extra_info == EXTRA_INFO_COOKIE,
    ensures
        state.decision(event, paused, injector_thread) == HookDecision::pass(),
        state.after(event, paused) == state,
{
}

/// A health probe is acknowledged whether or not remapping is paused; the system never sees it
/// and nothing that is held is forgotten.
pub proof fn law_probe_is_acknowledged(
    state: HookState,
    event: KeyEvent,
    paused: bool,
    injector_thread: u32,
)
    requires
        event.extra_info == HEALTH_PROBE_COOKIE,
    ensures
        state.decision(event, paused, injector_thread) == (HookDecision {
            swallow: true,
            command: Some(HookCommand::AcknowledgeProbe),
        }),
        state.after(event, paused) == state,
{
}

/// While paused every key, CapsLock among them, behaves as if this program were not there.
pub proof fn law_paused_keys_pass(state: HookState, event: KeyEvent, injector_thread: u32)
    requires
        event.extra_info != HEALTH_PROBE_COOKIE,
    ensures
        state.decision(event, true, injector_thread) == HookDecision::pass(),
        state.after(event, true).engine == state.engine,
{
}

/// Unless remapping is paused, a CapsLock event that this program has not injected itself never
/// reaches the system.
pub proof fn law_caps_never_reaches_the_system(
    state: HookState,
    event: KeyEvent,
    injector_thread: u32,
)
    requires
        HookState::is_typed(event),
        event.vk == VK_CAPITAL,
    ensures
        state.decision(event, false, injector_thread).swallow,
{
}

/// Everything that the input threads share, as one state.
pub struct SystemState {
    pub hook: HookState,
    pub paused: bool,
    /// The flags by which the clicker thread clicks.
    pub clicks: Seq<bool>,
}

/// Everything that happens to that state.
pub enum SystemEvent {
    Key { event: KeyEvent, injector_thread: u32 },
    Resynchronize {
        caps_down: bool,
        click_keys_down: Seq<bool>,
        ticks: u64,
        modifiers_down: Seq<bool>,
    },
    SetPaused { paused: bool },
}

impl SystemEvent {
    /// The state of three hold-to-click keys and of eight modifier keys was read.
    pub open spec fn wf(self) -> bool {
        self matches SystemEvent::Resynchronize { click_keys_down, modifiers_down, .. } ==> {
            &&& click_keys_down.len() == 3
            &&& modifiers_down.len() == 8
        }
    }
}

/// The click flags after a decision was carried out.
pub open spec fn clicks_after(clicks: Seq<bool>, decision: HookDecision) -> Seq<bool> {
    match decision.command {
        Some(HookCommand::SetClick { index, active }) => clicks.update(index as int, active),
        _ => clicks,
    }
}

impl SystemState {
    pub open spec fn initial() -> SystemState {
        SystemState {
            hook: HookState::initial(),
            paused: false,
            clicks: seq![false, false, false],
        }
    }

    pub open spec fn after(self, event: SystemEvent) -> SystemState {
        match event {
            SystemEvent::Key { event, injector_thread } => SystemState {
                hook: self.hook.after(event, self.paused),
                clicks: clicks_after(
                    self.clicks,
                    self.hook.decision(event, self.paused, injector_thread),
                ),
                ..self
            },
            SystemEvent::Resynchronize { caps_down, click_keys_down, ticks, modifiers_down } => {
                let hook = HookState::resynchronized(
                    self.paused,
                    caps_down,
                    click_keys_down,
                    ticks,
                    modifiers_down,
                );
                SystemState { hook, clicks: hook.engine.clicking, ..self }
            },
            SystemEvent::SetPaused { paused } => SystemState {
                paused,
                clicks: seq![false, false, false],
                ..self
            },
        }
    }

    pub open spec fn after_all(self, events: Seq<SystemEvent>) -> SystemState
        decreases events.len(),
    {
        if events.len() == 0 {
            self
        } else {
            self.after_all(events.drop_last()).after(events.last())
        }
    }

    /// A mouse button is clicked only while its key is held, and none is while paused.
    pub open spec fn inv(self) -> bool {
        &&& self.hook.engine.wf()
        &&& self.clicks.len() == 3
        &&& forall|i: int|
            0 <= i < 3 && #[trigger] self.clicks[i] ==> self.hook.engine.clicking[i] && !self.paused
    }
}

pub open spec fn all_wf(events: Seq<SystemEvent>) -> bool {
    forall|i: int| 0 <= i < events.len() ==> (#[trigger] events[i]).wf()
}

proof fn lemma_inv_kept(state: SystemState, event: SystemEvent)
    requires
        state.inv(),
        event.wf(),
    ensures
        state.after(event).inv(),
{
    match event {
        SystemEvent::Key { event, injector_thread } => {
            if HookState::is_typed(event) && !state.paused {
                let input = state.hook.input(event);
                engine_laws::law_click_effects_are_changes(state.hook.engine, input);
            }
        },
        _ => {},
    }
}

/// Whatever is typed, paused, resumed or taken over, each as one step and in whatever order: a
/// mouse button is clicked only while its hold-to-click key is held, and no button is clicked
/// while paused.
pub proof fn law_no_stray_clicks(events: Seq<SystemEvent>)
    requires
        all_wf(events),
    ensures
        SystemState::initial().after_all(events).inv(),
    decreases events.len(),
{
    if events.len() > 0 {
        let before = events.drop_last();
        assert forall|i: int| 0 <= i < before.len() implies (#[trigger] before[i]).wf() by {
            assert(events[i].wf());
        }
        law_no_stray_clicks(before);
        assert(events[events.len() - 1].wf());
        lemma_inv_kept(SystemState::initial().after_all(before), events.last());
    }
}

/// From the moment the physical state was taken over until remapping is next paused or
/// resumed, the clicker thread clicks exactly the buttons whose keys the engine knows to be
/// held.
pub proof fn law_clicks_follow_the_keys(
    state: SystemState,
    resynchronize: SystemEvent,
    events: Seq<SystemEvent>,
)
    requires
        state.inv(),
        resynchronize is Resynchronize,
        resynchronize.wf(),
        all_wf(events),
        forall|i: int| 0 <= i < events.len() ==> !(#[trigger] events[i] is SetPaused),
    ensures
        ({
            let reached = state.after(resynchronize).after_all(events);
            reached.inv() && reached.clicks == reached.hook.engine.clicking
        }),
    decreases events.len(),
{
    let start = state.after(resynchronize);
    if events.len() == 0 {
        lemma_inv_kept(state, resynchronize);
    } else {
        let before = events.drop_last();
        assert forall|i: int| 0 <= i < before.len() implies (#[trigger] before[i]).wf() && !(
        before[i] is SetPaused) by {
            assert(events[i].wf());
        }
        law_clicks_follow_the_keys(state, resynchronize, before);
        let last = events[events.len() - 1];
        let reached = start.after_all(before);
        assert(last.wf());
        lemma_inv_kept(reached, last);
        if let SystemEvent::Key { event, injector_thread } = last {
            if HookState::is_typed(event) && !reached.paused {
                engine_laws::law_click_effects_are_changes(
                    reached.hook.engine,
                    reached.hook.input(event),
                );
            }
        }
    }
}

// ---------------------------------------------------------------------------------------
// Single events
// ---------------------------------------------------------------------------------------

/// The eight modifier keys by their virtual-key codes: Shift, Ctrl and Alt, left and right, and
/// the Win keys.
pub open spec fn is_modifier(vk: u32) -> bool {
    0xA0 <= vk <= 0xA5 || vk == 0x5B || vk == 0x5C
}

/// Each modifier key has a bit of its own, and no other key has one. The keys are listed in the
/// order of their bits.
pub proof fn law_modifier_bits(vk: u32)
    ensures
        input::modifier_bit(vk) is Some <==> is_modifier(vk),
        0xA0 <= vk <= 0xA5 ==> input::modifiers()[vk - 0xA0] == vk,
        input::modifiers()[6] == 0x5B,
        input::modifiers()[7] == 0x5C,
        input::modifiers().len() == 8,
        input::modifier_bit(0xA0) == Some(1u8),
        0xA1 <= vk <= 0xA5 || vk == 0x5C ==> input::modifier_bit(vk)->0 == 2
            * input::modifier_bit((vk - 1) as u32)->0,
        input::modifier_bit(0x5B)->0 == 2 * input::modifier_bit(0xA5)->0,
{
}

/// A key of the keyboard goes down (`is_down`) or up: the event comes as one of the four window
/// messages for that and carries none of this program's marks.
pub open spec fn is_key_event(event: KeyEvent, is_down: bool) -> bool {
    &&& event.extra_info != 0x4350_534C_5253
    &&& event.extra_info != 0x4350_534C_4850
    &&& if is_down {
        event.message == 0x100 || event.message == 0x104
    } else {
        event.message == 0x101 || event.message == 0x105
    }
}

/// The modifier key `modifier` is held once `vk` has gone down or up.
pub open spec fn held_after(held: Set<u32>, vk: u32, is_down: bool, modifier: u32) -> bool {
    if modifier == vk && is_modifier(vk) {
        is_down
    } else {
        held.contains(modifier)
    }
}

/// The hook tells the engine of each key event, together with whether any modifier key is held
/// once the event has happened, and does what the engine says: it swallows what the engine
/// suppresses, and sets the click flags that the engine changes. What the engine types reaches the
/// injector thread as the engine said it, key, modifiers and repetitions; where there is no
/// injector thread, it is lost. What is remembered of modifier keys follows each event.
pub proof fn law_hook_does_what_the_engine_says(
    state: HookState,
    event: KeyEvent,
    is_down: bool,
    modified: bool,
    injector_thread: u32,
)
    requires
        is_key_event(event, is_down),
        modified <==> exists|modifier: u32| #[trigger]
            held_after(state.modifiers, event.vk, is_down, modifier),
    ensures
        ({
            let key_input = KeyInput { vk: event.vk, is_down, time: event.time, modified };
            let outcome = state.engine.outcome(key_input);
            let decision = state.decision(event, false, injector_thread);
            let after = state.after(event, false);
            &&& decision.swallow == outcome.suppress
            &&& match outcome.effect {
                Some(Effect::Key(action)) => if injector_thread != 0 {
                    decision.command matches Some(HookCommand::Post { thread, message }) && thread
                        == injector_thread && input::unpacked(message) == action
                } else {
                    decision.command is None
                },
                Some(Effect::Click { index, active }) => decision.command == Some(
                    HookCommand::SetClick { index, active },
                ),
                None => decision.command is None,
            }
            &&& after.engine == state.engine.after(key_input)
            &&& forall|modifier: u32| #[trigger]
                after.modifiers.contains(modifier) == held_after(
                    state.modifiers,
                    event.vk,
                    is_down,
                    modifier,
                )
        }),
{
    let after = input::modifiers_after(state.modifiers, event.vk, is_down);
    assert(input::direction(event.message) == Some(is_down));
    assert forall|modifier: u32| #[trigger] after.contains(modifier) == held_after(
        state.modifiers,
        event.vk,
        is_down,
        modifier,
    ) by {
        law_modifier_bits(event.vk);
        if is_modifier(event.vk) {
            if is_down {
                assert(after == state.modifiers.insert(event.vk));
            } else {
                assert(after == state.modifiers.remove(event.vk));
            }
        }
    }
    if modified {
        let modifier = choose|modifier: u32| #[trigger]
            held_after(state.modifiers, event.vk, is_down, modifier);
        assert(after.contains(modifier));
    } else {
        assert forall|modifier: u32| !after.contains(modifier) by {
            assert(!held_after(state.modifiers, event.vk, is_down, modifier));
        }
        assert(after =~= Set::<u32>::empty());
    }
    assert(state.input(event).modified == modified);
    if let Some(Effect::Key(action)) = state.engine.outcome(
        KeyInput { vk: event.vk, is_down, time: event.time, modified },
    ).effect {
        input::law_packed_action_arrives(action);
    }
}

/// While CapsLock is held and no modifier is, pressing a hotkey hands its entry of the table to
/// the injector thread, and the system does not see the key.
pub proof fn law_hotkeys_reach_the_injector(
    state: HookState,
    event: KeyEvent,
    injector_thread: u32,
)
    requires
        state.engine.wf(),
        state.engine.caps_down,
        state.modifiers == Set::<u32>::empty(),
        is_key_event(event, true),
        engine::hotkey(event.vk) is Some,
        injector_thread != 0,
    ensures
        ({
            let decision = state.decision(event, false, injector_thread);
            &&& decision.swallow
            &&& decision.command matches Some(HookCommand::Post { thread, message }) && thread
                == injector_thread && Some(input::unpacked(message)) == engine::hotkey(event.vk)
        }),
{
    engine_laws::law_what_hotkeys_type(event.vk);
    law_modifier_bits(event.vk);
    assert forall|modifier: u32| !held_after(state.modifiers, event.vk, true, modifier) by {}
    law_hook_does_what_the_engine_says(state, event, true, false, injector_thread);
    engine_laws::law_typing_key_verdict(
        state.engine,
        KeyInput { vk: event.vk, is_down: true, time: event.time, modified: false },
    );
}

/// Tapping CapsLock hands Esc to the injector thread, whatever modifiers are held.
pub proof fn law_caps_tap_reaches_the_injector(
    state: HookState,
    press: KeyEvent,
    release: KeyEvent,
    injector_thread: u32,
)
    requires
        !state.engine.caps_down,
        press.vk == 0x14,
        release.vk == 0x14,
        is_key_event(press, true),
        is_key_event(release, false),
        0 <= release.time - press.time < 300,
        injector_thread != 0,
    ensures
        ({
            let held = state.after(press, false);
            let decision = held.decision(release, false, injector_thread);
            &&& state.decision(press, false, injector_thread).swallow
            &&& state.decision(press, false, injector_thread).command is None
            &&& decision.swallow
            &&& decision.command matches Some(HookCommand::Post { thread, message }) && thread
                == injector_thread && input::unpacked(message) == (KeyAction {
                key: 0x1B,
                modifiers: 0,
                repeat: 1,
            })
        }),
{
    let pressed = exists|modifier: u32| #[trigger] held_after(state.modifiers, 0x14, true, modifier);
    let press_input = KeyInput { vk: 0x14, is_down: true, time: press.time, modified: pressed };
    law_hook_does_what_the_engine_says(state, press, true, pressed, injector_thread);
    engine_laws::law_caps_verdict(state.engine, press_input);
    engine_laws::law_caps_trace(state.engine, press_input);
    let held = state.after(press, false);
    let released = exists|modifier: u32| #[trigger]
        held_after(held.modifiers, 0x14, false, modifier);
    law_hook_does_what_the_engine_says(held, release, false, released, injector_thread);
    engine_laws::law_caps_verdict(
        held.engine,
        KeyInput { vk: 0x14, is_down: false, time: release.time, modified: released },
    );
}

/// What is neither a key going down or up nor a health probe passes and changes nothing.
pub proof fn law_other_events_pass(
    state: HookState,
    event: KeyEvent,
    paused: bool,
    injector_thread: u32,
)
    requires
        event.extra_info != 0x4350_534C_4850,
        !is_key_event(event, true),
        !is_key_event(event, false),
    ensures
        !state.decision(event, paused, injector_thread).swallow,
        state.decision(event, paused, injector_thread).command is None,
        state.after(event, paused) == state,
{
}

/// While paused, modifier keys are followed and nothing else is.
pub proof fn law_modifiers_are_followed_while_paused(
    state: HookState,
    event: KeyEvent,
    is_down: bool,
    modifier: u32,
)
    requires
        is_key_event(event, is_down),
    ensures
        state.after(event, true).modifiers.contains(modifier) == held_after(
            state.modifiers,
            event.vk,
            is_down,
            modifier,
        ),
        state.after(event, true).engine == state.engine,
{
    law_modifier_bits(event.vk);
    let after = input::modifiers_after(state.modifiers, event.vk, is_down);
    if is_modifier(event.vk) {
        if is_down {
            assert(after == state.modifiers.insert(event.vk));
        } else {
            assert(after == state.modifiers.remove(event.vk));
        }
    }
}

/// A key goes over to the injector thread as the first parameter of its message; of the second
/// one the lowest byte holds the modifiers and the one above the repetitions, whatever the bytes
/// above those hold.
pub proof fn law_message_layout(action: KeyAction, rest: int)
    requires
        isize::MIN <= action.modifiers + 256 * action.repeat + 65536 * rest <= isize::MAX,
    ensures
        input::unpacked(
            PackedAction {
                wparam: action.key as usize,
                lparam: (action.modifiers + 256 * action.repeat + 65536 * rest) as isize,
            },
        ) == action,
        input::packed(action).wparam == action.key,
        input::packed(action).lparam == action.modifiers + 256 * action.repeat,
{
    let lparam = action.modifiers + 256 * action.repeat + 65536 * rest;
    assert(lparam % 256 == action.modifiers);
    assert(lparam / 256 == action.repeat + 256 * rest);
}

/// Taking over the keyboard: the held modifier keys are those that are down, and unless remapping
/// is paused, CapsLock and the hold-to-click keys that are down count as held. Such a CapsLock
/// press never sends Esc. No release of a hotkey is awaited any more.
pub proof fn law_keyboard_is_taken_over(
    paused: bool,
    caps_down: bool,
    click_keys_down: Seq<bool>,
    ticks: u64,
    modifiers_down: Seq<bool>,
    vk: u32,
)
    requires
        click_keys_down.len() == 3,
        modifiers_down.len() == 8,
    ensures
        ({
            let state = HookState::resynchronized(
                paused,
                caps_down,
                click_keys_down,
                ticks,
                modifiers_down,
            );
            &&& state.engine.caps_down == (caps_down && !paused)
            &&& state.engine.caps_down ==> state.engine.press.used
            &&& state.engine.press.at == ticks % 0x1_0000_0000
            &&& state.engine.clicking.len() == 3
            &&& forall|i: int|
                0 <= i < 3 ==> #[trigger] state.engine.clicking[i] == (click_keys_down[i]
                    && !paused)
            &&& !state.engine.suppressed.contains(vk)
            &&& 0xA0 <= vk <= 0xA5 ==> state.modifiers.contains(vk) == modifiers_down[vk - 0xA0]
            &&& vk == 0x5B ==> state.modifiers.contains(vk) == modifiers_down[6]
            &&& vk == 0x5C ==> state.modifiers.contains(vk) == modifiers_down[7]
            &&& !is_modifier(vk) ==> !state.modifiers.contains(vk)
        }),
{
    let held = input::pressed_modifiers(modifiers_down);
    assert(input::modifiers() =~= seq![
        0xA0u32, 0xA1, 0xA2, 0xA3, 0xA4, 0xA5, 0x5B, 0x5C,
    ]);
    let i = if 0xA0 <= vk <= 0xA5 {
        vk - 0xA0
    } else if vk == 0x5B {
        6
    } else {
        7
    };
    if is_modifier(vk) {
        assert(input::modifiers()[i] == vk);
        if modifiers_down[i] {
            assert(held.contains(vk));
        }
        if held.contains(vk) {
            let k = choose|k: int|
                0 <= k < 8 && input::modifiers()[k] == vk && #[trigger] modifiers_down[k];
            assert(k == i);
        }
    }
}

/// Unpaused, a press of a hold-to-click key without modifiers turns the clicks of its button on,
/// and its release turns them off again, modifiers or not.
pub proof fn law_click_keys_set_the_flags(
    state: HookState,
    event: KeyEvent,
    is_down: bool,
    index: usize,
    injector_thread: u32,
)
    requires
        state.engine.wf(),
        index < 3,
        event.vk == 0x7C + index,
        is_key_event(event, is_down),
        is_down ==> state.modifiers == Set::<u32>::empty(),
        state.engine.clicking[index as int] != is_down,
    ensures
        state.decision(event, false, injector_thread) == (HookDecision {
            swallow: true,
            command: Some(HookCommand::SetClick { index, active: is_down }),
        }),
        state.after(event, false).engine.clicking[index as int] == is_down,
{
    let modified = exists|modifier: u32| #[trigger]
        held_after(state.modifiers, event.vk, is_down, modifier);
    law_hook_does_what_the_engine_says(state, event, is_down, modified, injector_thread);
    engine_laws::law_click_key_verdict(
        state.engine,
        KeyInput { vk: event.vk, is_down, time: event.time, modified },
        index,
    );
}

/// A hook that has just started knows of no key.
pub proof fn law_hook_begins_with_nothing_held(vk: u32)
    ensures
        !HookState::initial().modifiers.contains(vk),
        HookState::initial().engine == EngineState::initial(),
{
}

} // verus!
