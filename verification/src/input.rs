//! What the keyboard hook does with each event that Windows reports.

use vstd::prelude::*;

use crate::engine;
use crate::engine::{
    Effect, Engine, EngineState, KeyAction, KeyInput, Outcome, VK_F13, VK_F14, VK_F15,
};

verus! {

/// Marks the events that this program injects ("CPSLRS").
pub const EXTRA_INFO_COOKIE: u64 = 0x4350_534C_5253;

/// Marks the events by which this program probes its own hook ("CPSLHP").
pub const HEALTH_PROBE_COOKIE: u64 = 0x4350_534C_4850;

pub const VK_LSHIFT: u32 = 0xA0;
pub const VK_RSHIFT: u32 = 0xA1;
pub const VK_LCONTROL: u32 = 0xA2;
pub const VK_RCONTROL: u32 = 0xA3;
pub const VK_LMENU: u32 = 0xA4;
pub const VK_RMENU: u32 = 0xA5;
pub const VK_LWIN: u32 = 0x5B;
pub const VK_RWIN: u32 = 0x5C;

/// The first message number that Windows leaves to programs.
pub const WM_APP: u32 = 0x8000;

/// Asks the injector thread to type an action.
pub const MSG_INJECT: u32 = WM_APP + 1;

/// Asks the hook thread to install the hook anew.
pub const MSG_REHOOK: u32 = WM_APP + 2;

/// Asks the hook thread to take over the physical state of the keyboard.
pub const MSG_RESET: u32 = WM_APP + 3;

pub const WM_KEYDOWN: usize = 0x0100;
pub const WM_KEYUP: usize = 0x0101;
pub const WM_SYSKEYDOWN: usize = 0x0104;
pub const WM_SYSKEYUP: usize = 0x0105;

// ---------------------------------------------------------------------------------------
// Modifier keys
// ---------------------------------------------------------------------------------------

/// The modifier keys, in the order of their bits in a modifier mask.
pub open spec fn modifiers() -> Seq<u32> {
    seq![
        VK_LSHIFT, VK_RSHIFT, VK_LCONTROL, VK_RCONTROL, VK_LMENU, VK_RMENU, VK_LWIN, VK_RWIN,
    ]
}

/// The bit of a modifier key in a modifier mask.
pub open spec fn modifier_bit(vk: u32) -> Option<u8> {
    match vk {
        VK_LSHIFT => Some(1u8),
        VK_RSHIFT => Some(2u8),
        VK_LCONTROL => Some(4u8),
        VK_RCONTROL => Some(8u8),
        VK_LMENU => Some(16u8),
        VK_RMENU => Some(32u8),
        VK_LWIN => Some(64u8),
        VK_RWIN => Some(128u8),
        _ => None,
    }
}

/// The modifier keys that a mask says are held.
pub open spec fn held_modifiers(mask: u8) -> Set<u32> {
    Set::new(|vk: u32| modifier_bit(vk) matches Some(bit) && mask & bit != 0)
}

/// The modifier keys that are held, given the state of each.
pub open spec fn pressed_modifiers(down: Seq<bool>) -> Set<u32> {
    Set::new(|vk: u32| exists|i: int| 0 <= i < 8 && modifiers()[i] == vk && #[trigger] down[i])
}

/// The modifier keys that are held after `vk` was pressed or released.
pub open spec fn modifiers_after(held: Set<u32>, vk: u32, is_down: bool) -> Set<u32> {
    if modifier_bit(vk) is None {
        held
    } else if is_down {
        held.insert(vk)
    } else {
        held.remove(vk)
    }
}

spec fn is_single_bit(bit: u8) -> bool {
    bit == 1 || bit == 2 || bit == 4 || bit == 8 || bit == 16 || bit == 32 || bit == 64 || bit
        == 128
}

proof fn lemma_change_mask(mask: u8, bit: u8, other: u8)
    requires
        is_single_bit(bit),
        is_single_bit(other),
    ensures
        ((mask | bit) & other != 0) == (bit == other || mask & other != 0),
        ((mask & !bit) & other != 0) == (bit != other && mask & other != 0),
{
    assert(((mask | bit) & other != 0) == (bit == other || mask & other != 0) && ((mask & !bit)
        & other != 0) == (bit != other && mask & other != 0)) by (bit_vector)
        requires
            bit == 1 || bit == 2 || bit == 4 || bit == 8 || bit == 16 || bit == 32 || bit == 64 || bit
                == 128,
            other == 1 || other == 2 || other == 4 || other == 8 || other == 16 || other == 32
                || other == 64 || other == 128,
    ;
}

/// A mask is zero exactly when it holds no modifier key.
pub proof fn law_mask_zero_means_none_held(mask: u8)
    ensures
        mask == 0 <==> held_modifiers(mask) == Set::<u32>::empty(),
{
    if mask == 0 {
        assert forall|vk: u32| !held_modifiers(mask).contains(vk) by {
            if let Some(bit) = modifier_bit(vk) {
                assert(0u8 & bit == 0) by (bit_vector);
            }
        }
        assert(held_modifiers(mask) =~= Set::<u32>::empty());
    } else {
        assert(mask & 1 != 0 || mask & 2 != 0 || mask & 4 != 0 || mask & 8 != 0 || mask & 16 != 0
            || mask & 32 != 0 || mask & 64 != 0 || mask & 128 != 0) by (bit_vector)
            requires
                mask != 0,
        ;
        let held = held_modifiers(mask);
        assert(held.contains(VK_LSHIFT) || held.contains(VK_RSHIFT) || held.contains(VK_LCONTROL)
            || held.contains(VK_RCONTROL) || held.contains(VK_LMENU) || held.contains(VK_RMENU)
            || held.contains(VK_LWIN) || held.contains(VK_RWIN));
    }
}

proof fn lemma_held_means_bit(left: u8, right: u8, vk: u32)
    requires
        held_modifiers(left) == held_modifiers(right),
        modifier_bit(vk) is Some,
    ensures
        (left & modifier_bit(vk)->0 != 0) == (right & modifier_bit(vk)->0 != 0),
{
    assert(held_modifiers(left).contains(vk) <==> left & modifier_bit(vk)->0 != 0);
    assert(held_modifiers(right).contains(vk) <==> right & modifier_bit(vk)->0 != 0);
}

/// A mask is determined by the modifier keys that it holds.
pub proof fn law_mask_is_determined_by_its_keys(left: u8, right: u8)
    requires
        held_modifiers(left) == held_modifiers(right),
    ensures
        left == right,
{
    lemma_held_means_bit(left, right, VK_LSHIFT);
    lemma_held_means_bit(left, right, VK_RSHIFT);
    lemma_held_means_bit(left, right, VK_LCONTROL);
    lemma_held_means_bit(left, right, VK_RCONTROL);
    lemma_held_means_bit(left, right, VK_LMENU);
    lemma_held_means_bit(left, right, VK_RMENU);
    lemma_held_means_bit(left, right, VK_LWIN);
    lemma_held_means_bit(left, right, VK_RWIN);
    assert(left == right) by (bit_vector)
        requires
            (left & 1 != 0) == (right & 1 != 0),
            (left & 2 != 0) == (right & 2 != 0),
            (left & 4 != 0) == (right & 4 != 0),
            (left & 8 != 0) == (right & 8 != 0),
            (left & 16 != 0) == (right & 16 != 0),
            (left & 32 != 0) == (right & 32 != 0),
            (left & 64 != 0) == (right & 64 != 0),
            (left & 128 != 0) == (right & 128 != 0),
    ;
}

/// The modifier keys whose state [`current_modifier_mask`] wants, in that order.
pub fn modifier_keys() -> (keys: [u32; 8])
    ensures
        keys@ == modifiers(),
{
    let keys: [u32; 8] = [
        VK_LSHIFT, VK_RSHIFT, VK_LCONTROL, VK_RCONTROL, VK_LMENU, VK_RMENU, VK_LWIN, VK_RWIN,
    ];
    assert(keys@ =~= modifiers());
    keys
}

/// Records in a modifier mask that a key was pressed or released.
pub fn update_modifier_mask(mask: &mut u8, vk: u32, is_down: bool)
    ensures
        held_modifiers(*final(mask)) == modifiers_after(held_modifiers(*old(mask)), vk, is_down),
{
    let bit: u8 = match vk {
        VK_LSHIFT => 1,
        VK_RSHIFT => 2,
        VK_LCONTROL => 4,
        VK_RCONTROL => 8,
        VK_LMENU => 16,
        VK_RMENU => 32,
        VK_LWIN => 64,
        VK_RWIN => 128,
        _ => return,
    };
    let before: u8 = *mask;
    if is_down {
        *mask = before | bit;
    } else {
        *mask = before & !bit;
    }
    proof {
        assert forall|other: u32| #[trigger]
            held_modifiers(*mask).contains(other) == modifiers_after(
                held_modifiers(before),
                vk,
                is_down,
            ).contains(other) by {
            if let Some(other_bit) = modifier_bit(other) {
                lemma_change_mask(before, bit, other_bit);
            }
        }
        assert(held_modifiers(*mask) =~= modifiers_after(held_modifiers(before), vk, is_down));
    }
}

/// The modifier mask for the state of each key of [`modifier_keys`].
pub fn current_modifier_mask(down: [bool; 8]) -> (mask: u8)
    ensures
        held_modifiers(mask) == pressed_modifiers(down@),
{
    let keys = modifier_keys();
    let mut mask: u8 = 0;
    proof {
        law_mask_zero_means_none_held(0);
    }
    for i in 0..8
        invariant
            keys@ == modifiers(),
            forall|vk: u32| #[trigger]
                held_modifiers(mask).contains(vk) <==> exists|k: int|
                    0 <= k < i && modifiers()[k] == vk && #[trigger] down@[k],
    {
        let ghost before = held_modifiers(mask);
        update_modifier_mask(&mut mask, keys[i], down[i]);
        proof {
            assert forall|vk: u32| #[trigger]
                held_modifiers(mask).contains(vk) <==> exists|k: int|
                    0 <= k < i + 1 && modifiers()[k] == vk && #[trigger] down@[k] by {
                assert(before.contains(vk) <==> exists|k: int|
                    0 <= k < i && modifiers()[k] == vk && #[trigger] down@[k]);
                if modifiers()[i as int] == vk && down@[i as int] {
                    assert(held_modifiers(mask).contains(vk));
                }
            }
        }
    }
    assert(held_modifiers(mask) =~= pressed_modifiers(down@));
    mask
}

/// The hold-to-click key of a mouse button.
pub fn click_key(index: usize) -> (vk: u32)
    requires
        index < 3,
    ensures
        engine::clicker(vk) == Some(index),
{
    let keys: [u32; 3] = [VK_F13, VK_F14, VK_F15];
    keys[index]
}

// ---------------------------------------------------------------------------------------
// Handing an action to the injector thread
// ---------------------------------------------------------------------------------------

/// A key action as the two parameters of a thread message.
#[derive(Clone, Copy, Debug, Eq, PartialEq, Structural)]
pub struct PackedAction {
    pub wparam: usize,
    pub lparam: isize,
}

/// The message parameters that carry an action.
pub open spec fn packed(action: KeyAction) -> PackedAction {
    PackedAction {
        wparam: action.key as usize,
        lparam: (action.modifiers + 256 * action.repeat) as isize,
    }
}

/// The action that message parameters carry: the key is in the low 32 bits of the first, the
/// modifiers and the repeat count are the two lowest bytes of the second.
pub open spec fn unpacked(message: PackedAction) -> KeyAction {
    KeyAction {
        key: (message.wparam as int % 0x1_0000_0000) as u32,
        modifiers: (message.lparam as int % 256) as u8,
        repeat: (message.lparam as int / 256 % 256) as u8,
    }
}

/// Packs an action into message parameters.
pub fn pack_action(action: KeyAction) -> (message: PackedAction)
    ensures
        message == packed(action),
{
    let modifiers: u8 = action.modifiers;
    let repeat: u8 = action.repeat;
    assert(modifiers as isize | ((repeat as isize) << 8) == modifiers + 256 * repeat) by (bit_vector);
    PackedAction {
        wparam: action.key as usize,
        lparam: modifiers as isize | ((repeat as isize) << 8),
    }
}

/// Reads an action back from message parameters.
pub fn unpack_action(message: PackedAction) -> (action: KeyAction)
    ensures
        action == unpacked(message),
{
    let wparam: usize = message.wparam;
    let lparam: isize = message.lparam;
    assert(wparam as u32 == (wparam as u64) % 0x1_0000_0000u64) by (bit_vector);
    assert((lparam as u32 & 0xFF) as u8 == lparam % 256) by (bit_vector);
    assert(((lparam as u32 >> 8) & 0xFF) as u8 == lparam / 256 % 256) by (bit_vector);
    KeyAction {
        key: wparam as u32,
        modifiers: (lparam as u32 & 0xFF) as u8,
        repeat: ((lparam as u32 >> 8) & 0xFF) as u8,
    }
}

/// An action arrives at the injector thread as it was sent.
pub proof fn law_packed_action_arrives(action: KeyAction)
    ensures
        unpacked(packed(action)) == action,
{
}

// ---------------------------------------------------------------------------------------
// The hook callback
// ---------------------------------------------------------------------------------------

/// A keyboard event as the low-level hook reports it.
#[derive(Clone, Copy, Debug, Eq, PartialEq, Structural)]
pub struct KeyEvent {
    /// The window message that the event is about to become.
    pub message: usize,
    pub vk: u32,
    pub time: u32,
    pub extra_info: u64,
}

/// What the hook callback does for an event besides passing it on or swallowing it.
#[derive(Clone, Copy, Debug, Eq, PartialEq, Structural)]
pub enum HookCommand {
    /// Report that the health probe that is under way has arrived.
    AcknowledgeProbe,
    /// Send an action to the injector thread.
    Post { thread: u32, message: PackedAction },
    /// Set the flag of a mouse button and wake the clicker thread.
    SetClick { index: usize, active: bool },
}

/// The verdict of the hook callback on an event.
#[derive(Clone, Copy, Debug, Eq, PartialEq, Structural)]
pub struct HookDecision {
    pub swallow: bool,
    pub command: Option<HookCommand>,
}

impl HookDecision {
    /// The event goes on through the hook chain and nothing else happens.
    pub open spec fn pass() -> HookDecision {
        HookDecision { swallow: false, command: None }
    }
}

/// Whether a window message reports a key going down (`true`) or up (`false`).
pub open spec fn direction(message: usize) -> Option<bool> {
    if message == WM_KEYDOWN || message == WM_SYSKEYDOWN {
        Some(true)
    } else if message == WM_KEYUP || message == WM_SYSKEYUP {
        Some(false)
    } else {
        None
    }
}

/// What an outcome of the engine asks the hook callback to do. An action is dropped while
/// there is no injector thread.
pub open spec fn command_for(outcome: Outcome, injector_thread: u32) -> Option<HookCommand> {
    match outcome.effect {
        Some(Effect::Key(action)) => if injector_thread != 0 {
            Some(HookCommand::Post { thread: injector_thread, message: packed(action) })
        } else {
            None
        },
        Some(Effect::Click { index, active }) => Some(HookCommand::SetClick { index, active }),
        None => None,
    }
}

/// What the hook thread remembers between events.
#[verifier::ext_equal]
pub struct HookState {
    pub engine: EngineState,
    /// The modifier keys that are held.
    pub modifiers: Set<u32>,
}

impl HookState {
    pub open spec fn initial() -> HookState {
        HookState { engine: EngineState::initial(), modifiers: Set::empty() }
    }

    /// The event is a key going down or up that neither this program's injector nor its
    /// watchdog has sent.
    pub open spec fn is_typed(event: KeyEvent) -> bool {
        &&& event.extra_info != HEALTH_PROBE_COOKIE
        &&& event.extra_info != EXTRA_INFO_COOKIE
        &&& direction(event.message) is Some
    }

    /// The event as the engine is told of it; whether a modifier is held takes the event
    /// itself into account.
    pub open spec fn input(self, event: KeyEvent) -> KeyInput {
        let is_down = direction(event.message)->0;
        KeyInput {
            vk: event.vk,
            is_down,
            time: event.time,
            modified: modifiers_after(self.modifiers, event.vk, is_down) != Set::<u32>::empty(),
        }
    }

    /// The verdict on an event.
    pub open spec fn decision(
        self,
        event: KeyEvent,
        paused: bool,
        injector_thread: u32,
    ) -> HookDecision {
        if event.extra_info == HEALTH_PROBE_COOKIE {
            HookDecision { swallow: true, command: Some(HookCommand::AcknowledgeProbe) }
        } else if !Self::is_typed(event) || paused {
            HookDecision::pass()
        } else {
            let outcome = self.engine.outcome(self.input(event));
            HookDecision {
                swallow: outcome.suppress,
                command: command_for(outcome, injector_thread),
            }
        }
    }

    /// The state after an event. Modifier keys are followed while paused, too.
    pub open spec fn after(self, event: KeyEvent, paused: bool) -> HookState {
        if !Self::is_typed(event) {
            self
        } else {
            HookState {
                engine: if paused {
                    self.engine
                } else {
                    self.engine.after(self.input(event))
                },
                modifiers: modifiers_after(
                    self.modifiers,
                    event.vk,
                    direction(event.message)->0,
                ),
            }
        }
    }

    /// The state taken over from the physical keyboard. While paused, neither CapsLock nor the
    /// hold-to-click keys count as held.
    pub open spec fn resynchronized(
        paused: bool,
        caps_down: bool,
        click_keys_down: Seq<bool>,
        ticks: u64,
        modifiers_down: Seq<bool>,
    ) -> HookState {
        HookState {
            engine: EngineState::synchronized(
                !paused && caps_down,
                click_keys_down.map_values(|down: bool| !paused && down),
                (ticks % 0x1_0000_0000) as u32,
            ),
            modifiers: pressed_modifiers(modifiers_down),
        }
    }
}

/// The part of the hook's state that only the hook thread touches.
#[derive(Debug)]
pub struct HookLocalState {
    engine: Engine,
    modifiers: u8,
}

impl View for HookLocalState {
    type V = HookState;

    closed spec fn view(&self) -> HookState {
        HookState { engine: self.engine@, modifiers: held_modifiers(self.modifiers) }
    }
}

impl Default for HookLocalState {
    fn default() -> (state: Self)
        ensures
            state@ == HookState::initial(),
            state@.engine.wf(),
    {
        proof {
            law_mask_zero_means_none_held(0);
        }
        HookLocalState { engine: Engine::default(), modifiers: 0 }
    }
}

impl HookLocalState {
    /// Handles one keyboard event on behalf of the hook callback.
    ///
    /// `paused` is whether remapping is paused, `injector_thread` the thread that types the
    /// actions, or zero while there is none.
    pub fn handle(&mut self, event: KeyEvent, paused: bool, injector_thread: u32) -> (decision:
        HookDecision)
        ensures
            decision == old(self)@.decision(event, paused, injector_thread),
            final(self)@ == old(self)@.after(event, paused),
            final(self)@.engine.wf(),
    {
        proof {
            use_type_invariant(&self.engine);
        }
        if event.extra_info == HEALTH_PROBE_COOKIE {
            return HookDecision { swallow: true, command: Some(HookCommand::AcknowledgeProbe) };
        }
        if event.extra_info == EXTRA_INFO_COOKIE {
            return HookDecision { swallow: false, command: None };
        }
        let is_down = event.message == WM_KEYDOWN || event.message == WM_SYSKEYDOWN;
        let is_up = event.message == WM_KEYUP || event.message == WM_SYSKEYUP;
        if !is_down && !is_up {
            return HookDecision { swallow: false, command: None };
        }
        update_modifier_mask(&mut self.modifiers, event.vk, is_down);
        if paused {
            return HookDecision { swallow: false, command: None };
        }
        proof {
            law_mask_zero_means_none_held(self.modifiers);
        }
        let outcome = self.engine.process(event.vk, is_down, event.time, self.modifiers != 0);
        let command = match outcome.effect {
            Some(Effect::Key(action)) => if injector_thread != 0 {
                Some(HookCommand::Post { thread: injector_thread, message: pack_action(action) })
            } else {
                None
            },
            Some(Effect::Click { index, active }) => Some(HookCommand::SetClick { index, active }),
            None => None,
        };
        HookDecision { swallow: outcome.suppress, command }
    }

    /// Takes over the physical state of the keyboard and says which mouse buttons are to be
    /// clicked from now on.
    ///
    /// `modifiers_down` holds the state of each key of [`modifier_keys`], `click_keys_down`
    /// that of each [`click_key`].
    pub fn resynchronize(
        &mut self,
        paused: bool,
        caps_down: bool,
        click_keys_down: [bool; 3],
        ticks: u64,
        modifiers_down: [bool; 8],
    ) -> (clicks: [bool; 3])
        ensures
            final(self)@ == HookState::resynchronized(
                paused,
                caps_down,
                click_keys_down@,
                ticks,
                modifiers_down@,
            ),
            final(self)@.engine.wf(),
            clicks@ == final(self)@.engine.clicking,
    {
        let enabled = !paused;
        let clicks: [bool; 3] = [
            enabled && click_keys_down[0],
            enabled && click_keys_down[1],
            enabled && click_keys_down[2],
        ];
        assert(ticks as u32 == ticks % 0x1_0000_0000) by (bit_vector);
        self.engine.synchronize_physical(enabled && caps_down, clicks, ticks as u32);
        self.modifiers = current_modifier_mask(modifiers_down);
        assert(clicks@ =~= click_keys_down@.map_values(|down: bool| !paused && down));
        clicks
    }
}

// ---------------------------------------------------------------------------------------
// Pausing
// ---------------------------------------------------------------------------------------

/// The flags of the mouse buttons when nothing is to be clicked.
pub fn cleared_clicks() -> (clicks: [bool; 3])
    ensures
        clicks@ == seq![false, false, false],
{
    let clicks: [bool; 3] = [false, false, false];
    assert(clicks@ =~= seq![false, false, false]);
    clicks
}

/// What changes when remapping is paused or resumed.
#[derive(Clone, Copy, Debug)]
pub struct PauseChange {
    pub paused: bool,
    /// The new flags of the mouse buttons.
    pub clicks: [bool; 3],
    /// The message to send to the hook thread afterwards.
    pub message: u32,
}

/// Pauses or resumes remapping: all clicking stops, and the hook thread is asked to take over
/// the physical state of the keyboard.
pub fn set_paused(paused: bool) -> (change: PauseChange)
    ensures
        change.paused == paused,
        change.clicks@ == seq![false, false, false],
        change.message == MSG_RESET,
{
    PauseChange { paused, clicks: cleared_clicks(), message: MSG_RESET }
}

} // verus!
