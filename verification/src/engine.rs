//! The key event state machine: the CapsLock layer and the hold-to-click keys.

use vstd::prelude::*;

verus! {

pub const VK_BACK: u32 = 0x08;
pub const VK_ESCAPE: u32 = 0x1B;
pub const VK_SPACE: u32 = 0x20;
pub const VK_END: u32 = 0x23;
pub const VK_HOME: u32 = 0x24;
pub const VK_LEFT: u32 = 0x25;
pub const VK_UP: u32 = 0x26;
pub const VK_RIGHT: u32 = 0x27;
pub const VK_DOWN: u32 = 0x28;
pub const VK_DELETE: u32 = 0x2E;
pub const VK_A: u32 = 0x41;
pub const VK_B: u32 = 0x42;
pub const VK_D: u32 = 0x44;
pub const VK_E: u32 = 0x45;
pub const VK_F: u32 = 0x46;
pub const VK_G: u32 = 0x47;
pub const VK_H: u32 = 0x48;
pub const VK_I: u32 = 0x49;
pub const VK_J: u32 = 0x4A;
pub const VK_K: u32 = 0x4B;
pub const VK_L: u32 = 0x4C;
pub const VK_N: u32 = 0x4E;
pub const VK_O: u32 = 0x4F;
pub const VK_P: u32 = 0x50;
pub const VK_Q: u32 = 0x51;
pub const VK_R: u32 = 0x52;
pub const VK_S: u32 = 0x53;
pub const VK_T: u32 = 0x54;
pub const VK_U: u32 = 0x55;
pub const VK_W: u32 = 0x57;
pub const VK_Y: u32 = 0x59;
pub const VK_F13: u32 = 0x7C;
pub const VK_F14: u32 = 0x7D;
pub const VK_F15: u32 = 0x7E;
pub const VK_OEM_1: u32 = 0xBA;
pub const VK_OEM_PERIOD: u32 = 0xBE;
pub const VK_OEM_2: u32 = 0xBF;
pub const VK_OEM_6: u32 = 0xDD;
pub const VK_CAPITAL: u32 = 0x14;

pub const MOD_CTRL: u8 = 1;
pub const MOD_SHIFT: u8 = 2;
pub const MOD_ALT: u8 = 4;

/// How long CapsLock may be held, in milliseconds, for its release to still count as a tap.
pub const TAP_LIMIT_MS: u32 = 300;

/// A key to type, with the modifiers to hold around it and how often to press it.
#[derive(Clone, Copy, Debug, Eq, PartialEq, Structural)]
pub struct KeyAction {
    pub key: u32,
    pub modifiers: u8,
    pub repeat: u8,
}

impl KeyAction {
    pub fn new(key: u32, modifiers: u8, repeat: u8) -> (action: Self)
        ensures
            action.key == key,
            action.modifiers == modifiers,
            action.repeat == repeat,
    {
        Self { key, modifiers, repeat }
    }
}

/// What a key event sets off besides being passed on or swallowed.
#[derive(Clone, Copy, Debug, Eq, PartialEq, Structural)]
pub enum Effect {
    Key(KeyAction),
    Click { index: usize, active: bool },
}

/// The verdict on one key event.
#[derive(Clone, Copy, Debug, Eq, PartialEq, Structural)]
pub struct Outcome {
    pub suppress: bool,
    pub effect: Option<Effect>,
}

impl Outcome {
    /// The event goes on to the system and sets nothing off.
    pub open spec fn pass() -> Outcome {
        Outcome { suppress: false, effect: None }
    }

    /// The event is kept from the system and sets nothing off.
    pub open spec fn swallow() -> Outcome {
        Outcome { suppress: true, effect: None }
    }

    /// The event is kept from the system and has `effect` instead.
    pub open spec fn replace(effect: Effect) -> Outcome {
        Outcome { suppress: true, effect: Some(effect) }
    }
}

impl Default for Outcome {
    fn default() -> (outcome: Self)
        ensures
            outcome == Outcome::pass(),
    {
        Outcome { suppress: false, effect: None }
    }
}

// ---------------------------------------------------------------------------------------
// The hotkey table
// ---------------------------------------------------------------------------------------

/// The bit mask of a set of modifiers.
pub open spec fn chord(ctrl: bool, shift: bool, alt: bool) -> u8 {
    ((if ctrl { MOD_CTRL as int } else { 0 }) + (if shift { MOD_SHIFT as int } else { 0 }) + (if alt {
        MOD_ALT as int
    } else {
        0
    })) as u8
}

pub open spec fn plain(key: u32, repeat: u8) -> Option<KeyAction> {
    Some(KeyAction { key, modifiers: chord(false, false, false), repeat })
}

pub open spec fn ctrl(key: u32) -> Option<KeyAction> {
    Some(KeyAction { key, modifiers: chord(true, false, false), repeat: 1 })
}

pub open spec fn shift(key: u32, repeat: u8) -> Option<KeyAction> {
    Some(KeyAction { key, modifiers: chord(false, true, false), repeat })
}

pub open spec fn ctrl_shift(key: u32) -> Option<KeyAction> {
    Some(KeyAction { key, modifiers: chord(true, true, false), repeat: 1 })
}

pub open spec fn alt_shift(key: u32) -> Option<KeyAction> {
    Some(KeyAction { key, modifiers: chord(false, true, true), repeat: 1 })
}

/// The hotkey table: what each key of the CapsLock layer types.
pub open spec fn hotkey(vk: u32) -> Option<KeyAction> {
    match vk {
        VK_E => plain(VK_UP, 1),
        VK_S => plain(VK_LEFT, 1),
        VK_D => plain(VK_DOWN, 1),
        VK_F => plain(VK_RIGHT, 1),
        VK_A => ctrl(VK_LEFT),
        VK_G => ctrl(VK_RIGHT),
        VK_W => plain(VK_BACK, 1),
        VK_R => plain(VK_DELETE, 1),
        VK_T => plain(VK_UP, 5),
        VK_B => plain(VK_DOWN, 5),
        VK_I => shift(VK_UP, 1),
        VK_J => shift(VK_LEFT, 1),
        VK_K => shift(VK_DOWN, 1),
        VK_L => shift(VK_RIGHT, 1),
        VK_H => ctrl_shift(VK_LEFT),
        VK_OEM_PERIOD => ctrl_shift(VK_RIGHT),
        VK_U => shift(VK_HOME, 1),
        VK_O => shift(VK_END, 1),
        VK_P => plain(VK_HOME, 1),
        VK_OEM_1 => plain(VK_END, 1),
        VK_Y => shift(VK_UP, 5),
        VK_N => shift(VK_DOWN, 5),
        VK_Q => alt_shift(VK_Q),
        VK_OEM_2 => alt_shift(VK_OEM_2),
        VK_SPACE => alt_shift(VK_OEM_6),
        _ => None,
    }
}

/// Looks a key up in the hotkey table.
pub fn mapping(vk: u32) -> (action: Option<KeyAction>)
    ensures
        action == hotkey(vk),
{
    assert(MOD_CTRL | MOD_SHIFT == 3u8) by (bit_vector);
    assert(MOD_ALT | MOD_SHIFT == 6u8) by (bit_vector);
    let action = match vk {
        VK_E => KeyAction::new(VK_UP, 0, 1),
        VK_S => KeyAction::new(VK_LEFT, 0, 1),
        VK_D => KeyAction::new(VK_DOWN, 0, 1),
        VK_F => KeyAction::new(VK_RIGHT, 0, 1),
        VK_A => KeyAction::new(VK_LEFT, MOD_CTRL, 1),
        VK_G => KeyAction::new(VK_RIGHT, MOD_CTRL, 1),
        VK_W => KeyAction::new(VK_BACK, 0, 1),
        VK_R => KeyAction::new(VK_DELETE, 0, 1),
        VK_T => KeyAction::new(VK_UP, 0, 5),
        VK_B => KeyAction::new(VK_DOWN, 0, 5),
        VK_I => KeyAction::new(VK_UP, MOD_SHIFT, 1),
        VK_J => KeyAction::new(VK_LEFT, MOD_SHIFT, 1),
        VK_K => KeyAction::new(VK_DOWN, MOD_SHIFT, 1),
        VK_L => KeyAction::new(VK_RIGHT, MOD_SHIFT, 1),
        VK_H => KeyAction::new(VK_LEFT, MOD_CTRL | MOD_SHIFT, 1),
        VK_OEM_PERIOD => KeyAction::new(VK_RIGHT, MOD_CTRL | MOD_SHIFT, 1),
        VK_U => KeyAction::new(VK_HOME, MOD_SHIFT, 1),
        VK_O => KeyAction::new(VK_END, MOD_SHIFT, 1),
        VK_P => KeyAction::new(VK_HOME, 0, 1),
        VK_OEM_1 => KeyAction::new(VK_END, 0, 1),
        VK_Y => KeyAction::new(VK_UP, MOD_SHIFT, 5),
        VK_N => KeyAction::new(VK_DOWN, MOD_SHIFT, 5),
        VK_Q => KeyAction::new(VK_Q, MOD_ALT | MOD_SHIFT, 1),
        VK_OEM_2 => KeyAction::new(VK_OEM_2, MOD_ALT | MOD_SHIFT, 1),
        VK_SPACE => KeyAction::new(VK_OEM_6, MOD_ALT | MOD_SHIFT, 1),
        _ => return None,
    };
    Some(action)
}

/// The mouse button number of a hold-to-click key.
pub open spec fn clicker(vk: u32) -> Option<usize> {
    if vk == VK_F13 {
        Some(0usize)
    } else if vk == VK_F14 {
        Some(1usize)
    } else if vk == VK_F15 {
        Some(2usize)
    } else {
        None
    }
}

/// Looks up the mouse button number of a hold-to-click key.
pub fn click_index(vk: u32) -> (index: Option<usize>)
    ensures
        index == clicker(vk),
{
    match vk {
        VK_F13 => Some(0),
        VK_F14 => Some(1),
        VK_F15 => Some(2),
        _ => None,
    }
}

// ---------------------------------------------------------------------------------------
// The model of the engine
// ---------------------------------------------------------------------------------------

/// A key event, as the engine sees it.
pub struct KeyInput {
    pub vk: u32,
    pub is_down: bool,
    pub time: u32,
    /// Whether a standard modifier (Shift, Ctrl, Alt or Win) is held.
    pub modified: bool,
}

/// A CapsLock press.
pub struct CapsPress {
    pub at: u32,
    /// Whether the press has served as a function layer, or was never seen to begin.
    pub used: bool,
}

/// What the engine remembers between events.
#[verifier::ext_equal]
pub struct EngineState {
    /// Whether CapsLock is held.
    pub caps_down: bool,
    /// The latest CapsLock press, under way or not. Before the first one it is an unused press at
    /// time zero; where CapsLock was taken over as not held, at the time of that.
    pub press: CapsPress,
    /// The hotkeys whose press was swallowed and whose release is still to come.
    pub suppressed: Set<u32>,
    /// For each mouse button, whether its hold-to-click key is held.
    pub clicking: Seq<bool>,
}

/// Milliseconds from one 32-bit tick count to another, across at most one wraparound.
pub open spec fn elapsed(from: u32, to: u32) -> int {
    (to - from) % 0x1_0000_0000
}

impl EngineState {
    pub open spec fn initial() -> EngineState {
        EngineState {
            caps_down: false,
            press: CapsPress { at: 0, used: false },
            suppressed: Set::empty(),
            clicking: seq![false, false, false],
        }
    }

    /// The state taken over from keys that are already held.
    pub open spec fn synchronized(caps_down: bool, clicking: Seq<bool>, time: u32) -> EngineState {
        EngineState {
            caps_down,
            press: CapsPress { at: time, used: caps_down },
            suppressed: Set::empty(),
            clicking,
        }
    }

    /// Only hotkeys are ever suppressed, and there are three mouse buttons.
    pub open spec fn wf(self) -> bool {
        &&& self.clicking.len() == 3
        &&& forall|vk: u32| #[trigger] self.suppressed.contains(vk) ==> hotkey(vk) is Some
    }

    /// Releasing CapsLock at `time` is a tap.
    pub open spec fn is_tap(self, time: u32) -> bool {
        self.caps_down && !self.press.used && elapsed(self.press.at, time) < TAP_LIMIT_MS
    }

    /// The event presses a hotkey in the CapsLock layer.
    pub open spec fn in_layer(self, input: KeyInput) -> bool {
        input.is_down && self.caps_down && !input.modified && hotkey(input.vk) is Some
    }

    /// The event presses a hotkey in the CapsLock layer that was not held before.
    pub open spec fn starts_hotkey(self, input: KeyInput) -> bool {
        self.in_layer(input) && !self.suppressed.contains(input.vk)
    }

    /// The verdict on an event.
    pub open spec fn outcome(self, input: KeyInput) -> Outcome {
        if input.vk == VK_CAPITAL {
            if !input.is_down && self.is_tap(input.time) {
                Outcome::replace(Effect::Key(KeyAction { key: VK_ESCAPE, modifiers: 0, repeat: 1 }))
            } else {
                Outcome::swallow()
            }
        } else if let Some(index) = clicker(input.vk) {
            let held = self.clicking[index as int];
            if input.is_down && input.modified {
                Outcome::pass()
            } else if input.is_down != held {
                Outcome::replace(Effect::Click { index, active: input.is_down })
            } else if held {
                Outcome::swallow()
            } else {
                Outcome::pass()
            }
        } else if self.in_layer(input) {
            Outcome::replace(Effect::Key(hotkey(input.vk)->0))
        } else if self.suppressed.contains(input.vk) {
            Outcome::swallow()
        } else {
            Outcome::pass()
        }
    }

    /// The state after an event.
    pub open spec fn after(self, input: KeyInput) -> EngineState {
        if input.vk == VK_CAPITAL {
            EngineState {
                caps_down: input.is_down,
                press: if input.is_down && !self.caps_down {
                    CapsPress { at: input.time, used: false }
                } else {
                    self.press
                },
                ..self
            }
        } else if let Some(index) = clicker(input.vk) {
            if input.is_down && input.modified {
                self
            } else {
                EngineState { clicking: self.clicking.update(index as int, input.is_down), ..self }
            }
        } else if self.starts_hotkey(input) {
            EngineState {
                press: CapsPress { used: true, ..self.press },
                suppressed: self.suppressed.insert(input.vk),
                ..self
            }
        } else if !input.is_down {
            EngineState { suppressed: self.suppressed.remove(input.vk), ..self }
        } else {
            self
        }
    }

    /// The state after a sequence of events.
    pub open spec fn after_all(self, inputs: Seq<KeyInput>) -> EngineState
        decreases inputs.len(),
    {
        if inputs.len() == 0 {
            self
        } else {
            self.after_all(inputs.drop_last()).after(inputs.last())
        }
    }
}

// ---------------------------------------------------------------------------------------
// The engine
// ---------------------------------------------------------------------------------------

/// Bit `position` of `word` is set.
spec fn bit(word: u64, position: u64) -> bool {
    word & (1u64 << position) != 0
}

/// The keys whose bits are set in a table of four words.
spec fn marked_keys(words: Seq<u64>) -> Set<u32> {
    Set::new(|vk: u32| vk < 256 && bit(words[(vk / 64) as int], (vk % 64) as u64))
}

proof fn lemma_change_bit(word: u64, target: u64, position: u64)
    requires
        target < 64,
        position < 64,
    ensures
        bit(word | (1u64 << target), position) == (position == target || bit(word, position)),
        bit(word & !(1u64 << target), position) == (position != target && bit(word, position)),
{
    assert(((word | (1u64 << target)) & (1u64 << position) != 0) == (position == target || word & (
    1u64 << position) != 0)) by (bit_vector)
        requires
            target < 64,
            position < 64,
    ;
    assert(((word & !(1u64 << target)) & (1u64 << position) != 0) == (position != target && word & (
    1u64 << position) != 0)) by (bit_vector)
        requires
            target < 64,
            position < 64,
    ;
}

/// Decides, event by event, what becomes of the keys that are pressed and released.
#[derive(Debug)]
pub struct Engine {
    caps_down: bool,
    caps_down_at: u32,
    caps_used: bool,
    suppressed: [u64; 4],
    click_active: [bool; 3],
}

impl View for Engine {
    type V = EngineState;

    closed spec fn view(&self) -> EngineState {
        EngineState {
            caps_down: self.caps_down,
            press: CapsPress { at: self.caps_down_at, used: self.caps_used },
            suppressed: marked_keys(self.suppressed@),
            clicking: self.click_active@,
        }
    }
}

impl Default for Engine {
    fn default() -> (engine: Self)
        ensures
            engine@ == EngineState::initial(),
            engine@.wf(),
    {
        proof {
            assert forall|position: u64| !#[trigger] bit(0, position) by {
                assert(0u64 & (1u64 << position) == 0) by (bit_vector);
            }
        }
        let engine = Engine {
            caps_down: false,
            caps_down_at: 0,
            caps_used: false,
            suppressed: [0, 0, 0, 0],
            click_active: [false, false, false],
        };
        proof {
            assert(engine@.suppressed =~= Set::<u32>::empty());
            assert(engine@.clicking =~= seq![false, false, false]);
        }
        engine
    }
}

impl Engine {
    /// What the engine remembers is always well formed.
    #[verifier::type_invariant]
    pub open spec fn inv(self) -> bool {
        self@.wf()
    }

    /// Forgets every key that is held.
    pub fn reset(&mut self)
        ensures
            final(self)@ == EngineState::initial(),
            final(self)@.wf(),
    {
        *self = Self::default();
    }

    /// Takes over the keys that are physically held.
    ///
    /// A CapsLock press that was not observed from its beginning never sends Esc.
    pub fn synchronize_physical(
        &mut self,
        caps_down: bool,
        click_active: [bool; 3],
        timestamp_ms: u32,
    )
        ensures
            final(self)@ == EngineState::synchronized(caps_down, click_active@, timestamp_ms),
            final(self)@.wf(),
    {
        self.reset();
        self.caps_down = caps_down;
        self.caps_down_at = timestamp_ms;
        self.caps_used = caps_down;
        self.click_active = click_active;
    }

    /// Handles one key event: updates what is remembered and says what becomes of the event.
    pub fn process(
        &mut self,
        vk: u32,
        is_down: bool,
        timestamp_ms: u32,
        standard_modifier_down: bool,
    ) -> (outcome: Outcome)
        ensures
            ({
                let input = KeyInput {
                    vk,
                    is_down,
                    time: timestamp_ms,
                    modified: standard_modifier_down,
                };
                &&& outcome == old(self)@.outcome(input)
                &&& final(self)@ == old(self)@.after(input)
            }),
            final(self)@.wf(),
    {
        proof {
            use_type_invariant(&*self);
            assert(self@.suppressed == marked_keys(self.suppressed@));
        }
        if vk == VK_CAPITAL {
            if is_down {
                if !self.caps_down {
                    self.caps_down = true;
                    self.caps_down_at = timestamp_ms;
                    self.caps_used = false;
                }
                return Outcome { suppress: true, effect: None };
            }
            if self.caps_down {
                let elapsed_ms: u32 = timestamp_ms.wrapping_sub(self.caps_down_at);
                let send_escape = elapsed_ms < TAP_LIMIT_MS && !self.caps_used;
                self.caps_down = false;
                return Outcome {
                    suppress: true,
                    effect: if send_escape {
                        Some(Effect::Key(KeyAction::new(VK_ESCAPE, 0, 1)))
                    } else {
                        None
                    },
                };
            }
            return Outcome { suppress: true, effect: None };
        }
        if let Some(index) = click_index(vk) {
            if is_down {
                if standard_modifier_down {
                    return Outcome::default();
                }
                if !self.click_active[index] {
                    self.click_active[index] = true;
                    return Outcome {
                        suppress: true,
                        effect: Some(Effect::Click { index, active: true }),
                    };
                }
                return Outcome { suppress: true, effect: None };
            }
            if self.click_active[index] {
                self.click_active[index] = false;
                return Outcome {
                    suppress: true,
                    effect: Some(Effect::Click { index, active: false }),
                };
            }
            return Outcome::default();
        }
        if self.is_suppressed(vk) {
            if !is_down {
                self.set_suppressed(vk, false);
                return Outcome { suppress: true, effect: None };
            }
            let effect = if self.caps_down && !standard_modifier_down {
                match mapping(vk) {
                    Some(action) => Some(Effect::Key(action)),
                    None => None,
                }
            } else {
                None
            };
            return Outcome { suppress: true, effect };
        }
        if is_down && self.caps_down && !standard_modifier_down {
            if let Some(action) = mapping(vk) {
                self.caps_used = true;
                self.set_suppressed(vk, true);
                return Outcome { suppress: true, effect: Some(Effect::Key(action)) };
            }
        }
        Outcome::default()
    }

    /// Whether the press of a key was swallowed and its release is still to come. Only hotkeys
    /// are ever suppressed, never CapsLock or a hold-to-click key.
    pub fn is_suppressed(&self, vk: u32) -> (suppressed: bool)
        ensures
            suppressed == self@.suppressed.contains(vk),
            suppressed ==> hotkey(vk) is Some && vk != VK_CAPITAL && clicker(vk) is None,
    {
        proof {
            use_type_invariant(self);
        }
        let index: usize = (vk / 64) as usize;
        index < self.suppressed.len() && self.suppressed[index] & (1_u64 << (vk % 64)) != 0
    }

    /// Records whether a key is suppressed; key numbers from 256 up are not recorded.
    fn set_suppressed(&mut self, vk: u32, value: bool)
        requires
            value && vk < 256 ==> hotkey(vk) is Some,
        ensures
            final(self)@ == (EngineState {
                suppressed: if vk >= 256 {
                    old(self)@.suppressed
                } else if value {
                    old(self)@.suppressed.insert(vk)
                } else {
                    old(self)@.suppressed.remove(vk)
                },
                ..old(self)@
            }),
    {
        proof {
            use_type_invariant(&*self);
        }
        let index: usize = (vk / 64) as usize;
        if index >= self.suppressed.len() {
            return;
        }
        let mask: u64 = 1_u64 << (vk % 64);
        let mut words: [u64; 4] = self.suppressed;
        let word: u64 = words[index];
        words[index] = if value { word | mask } else { word & !mask };
        proof {
            assert forall|other: u32| other < 256 implies #[trigger] bit(
                words@[(other / 64) as int],
                (other % 64) as u64,
            ) == (if other == vk {
                value
            } else {
                self@.suppressed.contains(other)
            }) by {
                lemma_change_bit(word, (vk % 64) as u64, (other % 64) as u64);
            }
        }
        self.suppressed = words;
        proof {
            let expected = if value {
                old(self)@.suppressed.insert(vk)
            } else {
                old(self)@.suppressed.remove(vk)
            };
            assert(self@.suppressed =~= expected);
        }
    }
}

} // verus!
