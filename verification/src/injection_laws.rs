//! What typing an action does to the keys that are held.

use vstd::prelude::*;

use crate::engine;
use crate::engine::{
    Effect, EngineState, KeyAction, KeyInput, MOD_ALT, MOD_CTRL, MOD_SHIFT, VK_CAPITAL,
};
use crate::injection;
use crate::injection::{KeyboardInput, MouseButton, Stroke, VK_NONAME};
use crate::input;
use crate::input::{
    HookDecision, HookState, KeyEvent, VK_LCONTROL, VK_LMENU, VK_LSHIFT, VK_LWIN, VK_RCONTROL,
    VK_RMENU, VK_RSHIFT, VK_RWIN,
};
use crate::input_laws;

verus! {

/// The keys that are down after one stroke.
pub open spec fn after_stroke(down: Set<u32>, stroke: Stroke) -> Set<u32> {
    if stroke.key_up {
        down.remove(stroke.vk)
    } else {
        down.insert(stroke.vk)
    }
}

/// The keys that are down after a sequence of strokes.
pub open spec fn after_strokes(down: Set<u32>, strokes: Seq<Stroke>) -> Set<u32>
    decreases strokes.len(),
{
    if strokes.len() == 0 {
        down
    } else {
        after_stroke(after_strokes(down, strokes.drop_last()), strokes.last())
    }
}

/// What was read of the modifier keys is how they are.
pub open spec fn read_correctly(down: Set<u32>, held: Seq<bool>) -> bool {
    &&& held.len() == 8
    &&& forall|i: int| 0 <= i < 8 ==> #[trigger] held[i] == down.contains(input::modifiers()[i])
}

/// The modifier keys are as an action wants them: of each wanted pair at least one key is
/// down, and no other modifier key is.
pub open spec fn as_wanted(down: Set<u32>, action: KeyAction) -> bool {
    &&& (down.contains(0xA2) || down.contains(0xA3)) == (action.modifiers & 1 != 0)
    &&& (down.contains(0xA0) || down.contains(0xA1)) == (action.modifiers & 2 != 0)
    &&& (down.contains(0xA4) || down.contains(0xA5)) == (action.modifiers & 4 != 0)
    &&& !down.contains(0x5B)
    &&& !down.contains(0x5C)
}

proof fn lemma_after_stroke(down: Set<u32>, stroke: Stroke)
    ensures
        forall|vk: u32| #[trigger]
            after_stroke(down, stroke).contains(vk) == (if vk == stroke.vk {
                !stroke.key_up
            } else {
                down.contains(vk)
            }),
{
    if stroke.key_up {
        assert(after_stroke(down, stroke) == down.remove(stroke.vk));
    } else {
        assert(after_stroke(down, stroke) == down.insert(stroke.vk));
    }
}

proof fn lemma_after_concat(down: Set<u32>, first: Seq<Stroke>, second: Seq<Stroke>)
    ensures
        after_strokes(down, first + second) == after_strokes(after_strokes(down, first), second),
    decreases second.len(),
{
    if second.len() == 0 {
        assert(first + second =~= first);
    } else {
        assert((first + second).drop_last() =~= first + second.drop_last());
        lemma_after_concat(down, first, second.drop_last());
    }
}

/// Each stroke changes the key that it is for.
spec fn effective(down: Set<u32>, strokes: Seq<Stroke>) -> bool
    decreases strokes.len(),
{
    strokes.len() > 0 ==> {
        &&& effective(down, strokes.drop_last())
        &&& strokes.last().key_up == after_strokes(down, strokes.drop_last()).contains(
            strokes.last().vk,
        )
    }
}

proof fn lemma_effective_concat(down: Set<u32>, first: Seq<Stroke>, second: Seq<Stroke>)
    requires
        effective(down, first),
        effective(after_strokes(down, first), second),
    ensures
        effective(down, first + second),
    decreases second.len(),
{
    if second.len() == 0 {
        assert(first + second =~= first);
    } else {
        assert((first + second).drop_last() =~= first + second.drop_last());
        lemma_effective_concat(down, first, second.drop_last());
        lemma_after_concat(down, first, second.drop_last());
    }
}

/// Undoing strokes that each changed something brings back the keys as they were.
proof fn lemma_undo(down: Set<u32>, strokes: Seq<Stroke>)
    requires
        effective(down, strokes),
    ensures
        after_strokes(after_strokes(down, strokes), injection::undo(strokes)) == down,
    decreases strokes.len(),
{
    let back = injection::undo(strokes);
    if strokes.len() > 0 {
        let before = strokes.drop_last();
        let last = strokes.last();
        let reached = after_strokes(down, before);
        let first = Stroke { vk: last.vk, key_up: !last.key_up };
        lemma_undo(down, before);
        assert(back =~= seq![first] + injection::undo(before));
        lemma_after_concat(after_strokes(down, strokes), seq![first], injection::undo(before));
        reveal_with_fuel(after_strokes, 2);
        assert(seq![first].drop_last().len() == 0);
        assert(after_strokes(after_strokes(down, strokes), seq![first]) == after_stroke(
            after_strokes(down, strokes),
            first,
        ));
        assert(after_stroke(after_stroke(reached, last), first) =~= reached);
    }
}

/// The strokes bring a pair of keys into the wanted state, each of them changing something, and
/// touch no other key.
spec fn adjusts(down: Set<u32>, strokes: Seq<Stroke>, left: u32, right: u32, wanted: bool) -> bool {
    let reached = after_strokes(down, strokes);
    &&& effective(down, strokes)
    &&& forall|vk: u32|
        vk != left && vk != right ==> #[trigger] reached.contains(vk) == down.contains(vk)
    &&& (reached.contains(left) || reached.contains(right)) == wanted
}

proof fn lemma_adjust(
    down: Set<u32>,
    left: u32,
    right: u32,
    left_held: bool,
    right_held: bool,
    wanted: bool,
)
    requires
        left != right,
        left_held == down.contains(left),
        right_held == down.contains(right),
    ensures
        adjusts(
            down,
            injection::adjust(left, right, left_held, right_held, wanted),
            left,
            right,
            wanted,
        ),
{
    let strokes = injection::adjust(left, right, left_held, right_held, wanted);
    reveal(injection::adjust);
    reveal_with_fuel(after_strokes, 3);
    reveal_with_fuel(effective, 3);
    if strokes.len() == 2 {
        assert(strokes.drop_last().drop_last().len() == 0);
    }
}

/// Four adjustments one after the other, of four pairs of keys.
proof fn lemma_four_adjustments(
    down: Set<u32>,
    action: KeyAction,
    control: Seq<Stroke>,
    shift: Seq<Stroke>,
    alt: Seq<Stroke>,
    win: Seq<Stroke>,
)
    requires
        ({
            let down1 = after_strokes(down, control);
            let down2 = after_strokes(down1, shift);
            let down3 = after_strokes(down2, alt);
            &&& adjusts(
                down,
                control,
                VK_LCONTROL,
                VK_RCONTROL,
                injection::wants(action, MOD_CTRL),
            )
            &&& adjusts(down1, shift, VK_LSHIFT, VK_RSHIFT, injection::wants(action, MOD_SHIFT))
            &&& adjusts(down2, alt, VK_LMENU, VK_RMENU, injection::wants(action, MOD_ALT))
            &&& adjusts(down3, win, VK_LWIN, VK_RWIN, false)
        }),
    ensures
        effective(down, control + shift + alt + win),
        as_wanted(after_strokes(down, control + shift + alt + win), action),
        forall|vk: u32|
            input::modifier_bit(vk) is None ==> #[trigger] after_strokes(
                down,
                control + shift + alt + win,
            ).contains(vk) == down.contains(vk),
{
    lemma_after_concat(down, control, shift);
    lemma_after_concat(down, control + shift, alt);
    lemma_after_concat(down, control + shift + alt, win);
    lemma_effective_concat(down, control, shift);
    lemma_effective_concat(down, control + shift, alt);
    lemma_effective_concat(down, control + shift + alt, win);
}

/// What adjusting all modifier keys comes to.
proof fn lemma_adjust_all(down: Set<u32>, action: KeyAction, held: Seq<bool>)
    requires
        read_correctly(down, held),
    ensures
        effective(down, injection::adjust_all(action, held)),
        as_wanted(after_strokes(down, injection::adjust_all(action, held)), action),
        forall|vk: u32|
            input::modifier_bit(vk) is None ==> #[trigger] after_strokes(
                down,
                injection::adjust_all(action, held),
            ).contains(vk) == down.contains(vk),
{
    let wants_control = injection::wants(action, MOD_CTRL);
    let wants_shift = injection::wants(action, MOD_SHIFT);
    let wants_alt = injection::wants(action, MOD_ALT);
    let control = injection::adjust(VK_LCONTROL, VK_RCONTROL, held[2], held[3], wants_control);
    let shift = injection::adjust(VK_LSHIFT, VK_RSHIFT, held[0], held[1], wants_shift);
    let alt = injection::adjust(VK_LMENU, VK_RMENU, held[4], held[5], wants_alt);
    let win = injection::adjust(VK_LWIN, VK_RWIN, held[6], held[7], false);
    let down1 = after_strokes(down, control);
    let down2 = after_strokes(down1, shift);
    let down3 = after_strokes(down2, alt);
    assert(adjusts(down, control, VK_LCONTROL, VK_RCONTROL, wants_control)) by {
        lemma_adjust(down, VK_LCONTROL, VK_RCONTROL, held[2], held[3], wants_control);
    }
    assert(adjusts(down1, shift, VK_LSHIFT, VK_RSHIFT, wants_shift)) by {
        lemma_adjust(down1, VK_LSHIFT, VK_RSHIFT, held[0], held[1], wants_shift);
    }
    assert(adjusts(down2, alt, VK_LMENU, VK_RMENU, wants_alt)) by {
        lemma_adjust(down2, VK_LMENU, VK_RMENU, held[4], held[5], wants_alt);
    }
    assert(adjusts(down3, win, VK_LWIN, VK_RWIN, false)) by {
        lemma_adjust(down3, VK_LWIN, VK_RWIN, held[6], held[7], false);
    }
    lemma_four_adjustments(down, action, control, shift, alt, win);
}

proof fn lemma_taps(down: Set<u32>, vk: u32, count: nat, k: int)
    requires
        0 <= k <= 2 * count,
    ensures
        forall|other: u32|
            other != vk ==> #[trigger] after_strokes(
                down,
                injection::taps(vk, count).take(k),
            ).contains(other) == down.contains(other),
        k > 0 ==> after_strokes(down, injection::taps(vk, count).take(k)).contains(vk) == (k % 2
            == 1),
    decreases k,
{
    let part = injection::taps(vk, count).take(k);
    if k > 0 {
        lemma_taps(down, vk, count, k - 1);
        assert(part.drop_last() =~= injection::taps(vk, count).take(k - 1));
        assert(part.last() == Stroke { vk, key_up: (k - 1) % 2 == 1 });
        lemma_after_stroke(after_strokes(down, part.drop_last()), part.last());
    }
}

/// While the key of an action is being tapped, exactly the modifiers that the action asks for
/// are down, whatever the user holds.
pub proof fn law_modifiers_while_typing(
    down: Set<u32>,
    action: KeyAction,
    held: Seq<bool>,
    tapped: int,
)
    requires
        read_correctly(down, held),
        input::modifier_bit(action.key) is None,
        0 <= tapped <= 2 * injection::presses(action),
    ensures
        as_wanted(
            after_strokes(
                down,
                injection::strokes(action, held).take(
                    injection::adjust_all(action, held).len() + tapped,
                ),
            ),
            action,
        ),
{
    let adjustment = injection::adjust_all(action, held);
    let taps = injection::taps(action.key, injection::presses(action));
    lemma_adjust_all(down, action, held);
    lemma_after_concat(down, adjustment, taps.take(tapped));
    lemma_taps(after_strokes(down, adjustment), action.key, injection::presses(action), tapped);
    assert(injection::strokes(action, held).take(adjustment.len() + tapped) =~= adjustment
        + taps.take(tapped));
}

/// Typing an action leaves every key as it was, but for the typed key, which ends up released.
pub proof fn law_typing_restores_the_keys(down: Set<u32>, action: KeyAction, held: Seq<bool>)
    requires
        read_correctly(down, held),
        input::modifier_bit(action.key) is None,
    ensures
        after_strokes(down, injection::strokes(action, held)) == down.remove(action.key),
{
    let adjustment = injection::adjust_all(action, held);
    let count = injection::presses(action);
    let taps = injection::taps(action.key, count);
    let back = injection::undo(adjustment);
    let lifted = down.remove(action.key);
    lemma_adjust_all(down, action, held);
    assert(read_correctly(lifted, held));
    lemma_adjust_all(lifted, action, held);
    lemma_undo(lifted, adjustment);
    lemma_after_concat(down, adjustment, taps);
    lemma_after_concat(down, adjustment + taps, back);
    lemma_taps(after_strokes(down, adjustment), action.key, count, (2 * count) as int);
    assert(taps.take((2 * count) as int) =~= taps);
    lemma_same_elsewhere(down, lifted, adjustment, action.key);
    assert(after_strokes(down, adjustment + taps) =~= after_strokes(lifted, adjustment));
}

/// Where two sets of keys differ in one key alone, so they do after the same strokes.
proof fn lemma_same_elsewhere(left: Set<u32>, right: Set<u32>, strokes: Seq<Stroke>, vk: u32)
    requires
        forall|other: u32| other != vk ==> #[trigger] left.contains(other) == right.contains(other),
    ensures
        forall|other: u32|
            other != vk ==> #[trigger] after_strokes(left, strokes).contains(other)
                == after_strokes(right, strokes).contains(other),
    decreases strokes.len(),
{
    if strokes.len() > 0 {
        lemma_same_elsewhere(left, right, strokes.drop_last(), vk);
        lemma_after_stroke(after_strokes(left, strokes.drop_last()), strokes.last());
        lemma_after_stroke(after_strokes(right, strokes.drop_last()), strokes.last());
    }
}

/// None of the events that type an action is remapped in turn.
pub proof fn law_typed_actions_are_not_remapped(
    state: HookState,
    action: KeyAction,
    held: Seq<bool>,
    i: int,
    event: KeyEvent,
    paused: bool,
    injector_thread: u32,
)
    requires
        0 <= i < injection::strokes(action, held).len(),
        event.extra_info == injection::inputs_of(
            injection::strokes(action, held),
        )[i].extra_info,
    ensures
        state.decision(event, paused, injector_thread) == HookDecision::pass(),
        state.after(event, paused) == state,
{
}

/// What the engine has typed is never a modifier key.
pub proof fn law_no_modifier_is_typed(state: EngineState, key_input: KeyInput)
    ensures
        state.outcome(key_input).effect matches Some(Effect::Key(action)) ==> input::modifier_bit(
            action.key,
        ) is None,
{
}

/// The key of a health probe has no role: not even an unmarked one would do anything.
pub proof fn law_probe_key_has_no_role()
    ensures
        VK_NONAME != VK_CAPITAL,
        engine::hotkey(VK_NONAME) is None,
        engine::clicker(VK_NONAME) is None,
        input::modifier_bit(VK_NONAME) is None,
{
}

// ---------------------------------------------------------------------------------------
// The events of an action
// ---------------------------------------------------------------------------------------

/// How many of the events have the key go down (or up, if `key_up`).
pub open spec fn count_of(events: Seq<KeyboardInput>, vk: u16, key_up: bool) -> nat
    decreases events.len(),
{
    if events.len() == 0 {
        0
    } else {
        count_of(events.drop_last(), vk, key_up) + if events.last().vk == vk
            && events.last().key_up == key_up {
            1nat
        } else {
            0nat
        }
    }
}

/// The key of an action as the events carry it, which hold the low 16 bits of a key number, is no
/// modifier key.
pub open spec fn types_no_modifier(action: KeyAction) -> bool {
    !input_laws::is_modifier((action.key % 0x1_0000) as u32)
}

proof fn lemma_count_concat(first: Seq<KeyboardInput>, second: Seq<KeyboardInput>, vk: u16, key_up: bool)
    ensures
        count_of(first + second, vk, key_up) == count_of(first, vk, key_up) + count_of(
            second,
            vk,
            key_up,
        ),
    decreases second.len(),
{
    if second.len() == 0 {
        assert(first + second =~= first);
    } else {
        assert((first + second).drop_last() =~= first + second.drop_last());
        lemma_count_concat(first, second.drop_last(), vk, key_up);
    }
}

proof fn lemma_count_elsewhere(events: Seq<KeyboardInput>, vk: u16, key_up: bool)
    requires
        forall|i: int| 0 <= i < events.len() ==> (#[trigger] events[i]).vk != vk,
    ensures
        count_of(events, vk, key_up) == 0,
    decreases events.len(),
{
    if events.len() > 0 {
        let before = events.drop_last();
        assert forall|i: int| 0 <= i < before.len() implies (#[trigger] before[i]).vk != vk by {
            assert(before[i] == events[i]);
        }
        lemma_count_elsewhere(before, vk, key_up);
        assert(events[events.len() - 1].vk != vk);
    }
}

proof fn lemma_count_taps(vk: u32, count: nat, key_up: bool)
    ensures
        count_of(
            injection::inputs_of(injection::taps(vk, count)),
            (vk % 0x1_0000) as u16,
            key_up,
        ) == count,
    decreases count,
{
    let events = injection::inputs_of(injection::taps(vk, count));
    if count > 0 {
        let fewer = injection::inputs_of(injection::taps(vk, (count - 1) as nat));
        lemma_count_taps(vk, (count - 1) as nat, key_up);
        assert(events.drop_last().drop_last() =~= fewer);
        assert(events.drop_last().last().key_up == false);
        assert(events.last().key_up == true);
        reveal_with_fuel(count_of, 3);
    }
}

/// The strokes are for a pair of keys, the left one first, each of them at most once.
spec fn moves_pair(strokes: Seq<Stroke>, left: u32, right: u32) -> bool {
    &&& strokes.len() <= 2
    &&& strokes.len() == 1 ==> strokes[0].vk == left || strokes[0].vk == right
    &&& strokes.len() == 2 ==> strokes[0].vk == left && strokes[1].vk == right
}

proof fn lemma_adjust_moves_pair(
    left: u32,
    right: u32,
    left_held: bool,
    right_held: bool,
    wanted: bool,
)
    ensures
        moves_pair(injection::adjust(left, right, left_held, right_held, wanted), left, right),
{
    reveal(injection::adjust);
}

proof fn lemma_four_pairs(
    control: Seq<Stroke>,
    shift: Seq<Stroke>,
    alt: Seq<Stroke>,
    win: Seq<Stroke>,
)
    requires
        moves_pair(control, 0xA2, 0xA3),
        moves_pair(shift, 0xA0, 0xA1),
        moves_pair(alt, 0xA4, 0xA5),
        moves_pair(win, 0x5B, 0x5C),
    ensures
        ({
            let all = control + shift + alt + win;
            &&& forall|i: int|
                0 <= i < all.len() ==> input_laws::is_modifier((#[trigger] all[i]).vk)
            &&& forall|i: int, j: int|
                0 <= i < j < all.len() ==> moving_order((#[trigger] all[i]).vk) < moving_order(
                    (#[trigger] all[j]).vk,
                )
        }),
{
    let all = control + shift + alt + win;
    let second = control.len() as int;
    let third = second + shift.len();
    let fourth = third + alt.len();
    assert forall|i: int| 0 <= i < all.len() implies (if i < second {
        #[trigger] all[i] == control[i]
    } else if i < third {
        all[i] == shift[i - second]
    } else if i < fourth {
        all[i] == alt[i - third]
    } else {
        all[i] == win[i - fourth]
    }) by {}
}

/// What is adjusted are modifier keys, in a fixed order.
proof fn lemma_adjusted_keys(action: KeyAction, held: Seq<bool>)
    ensures
        ({
            let all = injection::adjust_all(action, held);
            &&& forall|i: int|
                0 <= i < all.len() ==> input_laws::is_modifier((#[trigger] all[i]).vk)
            &&& forall|i: int, j: int|
                0 <= i < j < all.len() ==> moving_order((#[trigger] all[i]).vk) < moving_order(
                    (#[trigger] all[j]).vk,
                )
        }),
{
    let wants_control = injection::wants(action, MOD_CTRL);
    let wants_shift = injection::wants(action, MOD_SHIFT);
    let wants_alt = injection::wants(action, MOD_ALT);
    lemma_adjust_moves_pair(VK_LCONTROL, VK_RCONTROL, held[2], held[3], wants_control);
    lemma_adjust_moves_pair(VK_LSHIFT, VK_RSHIFT, held[0], held[1], wants_shift);
    lemma_adjust_moves_pair(VK_LMENU, VK_RMENU, held[4], held[5], wants_alt);
    lemma_adjust_moves_pair(VK_LWIN, VK_RWIN, held[6], held[7], false);
    lemma_four_pairs(
        injection::adjust(VK_LCONTROL, VK_RCONTROL, held[2], held[3], wants_control),
        injection::adjust(VK_LSHIFT, VK_RSHIFT, held[0], held[1], wants_shift),
        injection::adjust(VK_LMENU, VK_RMENU, held[4], held[5], wants_alt),
        injection::adjust(VK_LWIN, VK_RWIN, held[6], held[7], false),
    );
}

/// Typing an action presses its key as often as the action says, at least once, and releases it
/// as often, whatever modifiers the action has and whatever is held.
pub proof fn law_key_is_pressed_as_often_as_asked(action: KeyAction, held: Seq<bool>)
    requires
        types_no_modifier(action),
    ensures
        ({
            let events = injection::inputs_of(injection::strokes(action, held));
            let vk = (action.key % 0x1_0000) as u16;
            let times: nat = if action.repeat > 1 {
                action.repeat as nat
            } else {
                1
            };
            &&& count_of(events, vk, false) == times
            &&& count_of(events, vk, true) == times
        }),
{
    let vk = (action.key % 0x1_0000) as u16;
    let adjustment = injection::adjust_all(action, held);
    let taps = injection::taps(action.key, injection::presses(action));
    let before = injection::inputs_of(adjustment);
    let middle = injection::inputs_of(taps);
    let after = injection::inputs_of(injection::undo(adjustment));
    lemma_adjusted_keys(action, held);
    assert(injection::inputs_of(injection::strokes(action, held)) =~= before + middle + after);
    assert forall|i: int| 0 <= i < before.len() implies (#[trigger] before[i]).vk != vk by {
        assert(input_laws::is_modifier(adjustment[i].vk));
    }
    assert forall|i: int| 0 <= i < after.len() implies (#[trigger] after[i]).vk != vk by {
        assert(input_laws::is_modifier(adjustment[adjustment.len() - 1 - i].vk));
    }
    assert forall|key_up: bool| #[trigger] count_of(before + middle + after, vk, key_up)
        == injection::presses(action) by {
        lemma_count_concat(before + middle, after, vk, key_up);
        lemma_count_concat(before, middle, vk, key_up);
        lemma_count_elsewhere(before, vk, key_up);
        lemma_count_elsewhere(after, vk, key_up);
        lemma_count_taps(action.key, injection::presses(action), key_up);
    }
}

/// What is typed, read backwards with each key going the other way, is the same: all that is done
/// before the key is tapped is undone in reverse afterwards.
pub proof fn law_typing_is_its_own_mirror(action: KeyAction, held: Seq<bool>, i: int)
    requires
        0 <= i < injection::inputs_of(injection::strokes(action, held)).len(),
    ensures
        ({
            let events = injection::inputs_of(injection::strokes(action, held));
            let mirrored = events[events.len() - 1 - i];
            &&& mirrored.vk == events[i].vk
            &&& mirrored.key_up == !events[i].key_up
        }),
{
    let adjustment = injection::adjust_all(action, held);
    let taps = injection::taps(action.key, injection::presses(action));
    let strokes = injection::strokes(action, held);
    let len = strokes.len();
    assert(len == 2 * adjustment.len() + taps.len());
    if i < adjustment.len() {
        assert(strokes[i] == adjustment[i]);
        assert(strokes[len - 1 - i] == injection::undo(adjustment)[adjustment.len() - 1 - i]);
    } else if i < adjustment.len() + taps.len() {
        let k = i - adjustment.len();
        assert(strokes[i] == taps[k]);
        assert(strokes[len - 1 - i] == taps[taps.len() - 1 - k]);
    } else {
        let k = i - adjustment.len() - taps.len();
        assert(strokes[i] == injection::undo(adjustment)[k]);
        assert(strokes[len - 1 - i] == adjustment[adjustment.len() - 1 - k]);
    }
}

/// Typing touches the key of the action and modifier keys alone. The key comes up right after
/// each time it goes down, and nothing else happens in between two taps.
pub proof fn law_taps_are_not_interrupted(action: KeyAction, held: Seq<bool>, i: int, j: int)
    requires
        types_no_modifier(action),
        0 <= i < j < injection::inputs_of(injection::strokes(action, held)).len(),
    ensures
        ({
            let events = injection::inputs_of(injection::strokes(action, held));
            let vk = (action.key % 0x1_0000) as u16;
            &&& events[i].vk == vk || input_laws::is_modifier(events[i].vk as u32)
            &&& events[j].vk == vk || input_laws::is_modifier(events[j].vk as u32)
            &&& events[i].vk == vk && !events[i].key_up ==> events[i + 1].vk == vk && events[i
                + 1].key_up
            &&& events[j].vk == vk && events[j].key_up ==> events[j - 1].vk == vk && !events[j
                - 1].key_up
            &&& events[i].vk == vk && events[j].vk == vk ==> forall|k: int|
                i <= k <= j ==> (#[trigger] events[k]).vk == vk
        }),
{
    lemma_lead(action, held);
}

/// Where in the strokes the taps lie.
proof fn lemma_lead(action: KeyAction, held: Seq<bool>)
    requires
        types_no_modifier(action),
    ensures
        ({
            let adjustment = injection::adjust_all(action, held);
            let strokes = injection::strokes(action, held);
            let events = injection::inputs_of(strokes);
            let start = adjustment.len() as int;
            let end = start + 2 * injection::presses(action);
            &&& events.len() == strokes.len() == end + start
            &&& forall|k: int|
                0 <= k < events.len() ==> (#[trigger] events[k]).vk == (if start <= k < end {
                    (action.key % 0x1_0000) as int
                } else {
                    strokes[k].vk as int
                })
            &&& forall|k: int|
                start <= k < end ==> (#[trigger] events[k]).key_up == ((k - start) % 2 == 1)
            &&& forall|k: int|
                start <= k < end ==> (#[trigger] strokes[k]).vk == action.key
            &&& forall|k: int|
                0 <= k < start || end <= k < events.len() ==> input_laws::is_modifier(
                    (#[trigger] strokes[k]).vk,
                )
            &&& forall|k: int| 0 <= k < start ==> #[trigger] strokes[k] == adjustment[k]
        }),
{
    let adjustment = injection::adjust_all(action, held);
    let strokes = injection::strokes(action, held);
    let taps = injection::taps(action.key, injection::presses(action));
    let events = injection::inputs_of(strokes);
    let start = adjustment.len() as int;
    let end = start + 2 * injection::presses(action);
    lemma_adjusted_keys(action, held);
    assert forall|k: int| 0 <= k < start || end <= k < events.len() implies input_laws::is_modifier(
        (#[trigger] strokes[k]).vk,
    ) by {
        if k < start {
            assert(strokes[k] == adjustment[k]);
        } else {
            assert(strokes[k] == injection::undo(adjustment)[k - end]);
            assert(input_laws::is_modifier(adjustment[adjustment.len() - 1 - (k - end)].vk));
        }
    }
    assert forall|k: int| start <= k < end implies (#[trigger] strokes[k]).vk == action.key
        && strokes[k].key_up == ((k - start) % 2 == 1) by {
        assert(strokes[k] == taps[k - start]);
    }
}

/// The events are those of the strokes, one by one: they carry the low 16 bits of the key number,
/// the direction, the mark of this program, and the extended prefix exactly for the arrows, Home,
/// End, Delete and the right Ctrl and Alt keys.
pub proof fn law_events_carry_the_strokes(strokes: Seq<Stroke>, i: int)
    requires
        0 <= i < strokes.len(),
    ensures
        injection::inputs_of(strokes).len() == strokes.len(),
        injection::inputs_of(strokes)[i].vk == strokes[i].vk % 0x1_0000,
        injection::inputs_of(strokes)[i].key_up == strokes[i].key_up,
        injection::inputs_of(strokes)[i].extra_info == 0x4350_534C_5253,
        injection::inputs_of(strokes)[i].extended <==> {
            ||| 0x23 <= strokes[i].vk <= 0x28
            ||| strokes[i].vk == 0x2E
            ||| strokes[i].vk == 0xA3
            ||| strokes[i].vk == 0xA5
        },
{
}

/// Whenever the key of an action goes down or up, exactly the modifiers that the action asks for
/// are down, whatever the user holds.
pub proof fn law_modifiers_at_each_tap(down: Set<u32>, action: KeyAction, held: Seq<bool>, i: int)
    requires
        read_correctly(down, held),
        types_no_modifier(action),
        !input_laws::is_modifier(action.key),
        0 <= i < injection::strokes(action, held).len(),
        injection::strokes(action, held)[i].vk == action.key,
    ensures
        as_wanted(after_strokes(down, injection::strokes(action, held).take(i)), action),
        as_wanted(after_strokes(down, injection::strokes(action, held).take(i + 1)), action),
{
    let start = injection::adjust_all(action, held).len() as int;
    lemma_lead(action, held);
    input_laws::law_modifier_bits(action.key);
    assert(start <= i < start + 2 * injection::presses(action));
    law_modifiers_while_typing(down, action, held, i - start);
    law_modifiers_while_typing(down, action, held, i - start + 1);
}

/// Stroke `i` comes before the key of the action is tapped.
pub open spec fn in_lead(action: KeyAction, held: Seq<bool>, i: int) -> bool {
    &&& 0 <= i < injection::strokes(action, held).len()
    &&& forall|k: int|
        0 <= k <= i ==> (#[trigger] injection::strokes(action, held)[k]).vk != action.key
}

/// Before the key is tapped, the modifier key `vk` goes down (or up, if `key_up`).
pub open spec fn leads_with(action: KeyAction, held: Seq<bool>, vk: u32, key_up: bool) -> bool {
    exists|i: int| #[trigger]
        in_lead(action, held, i) && injection::strokes(action, held)[i] == (Stroke { vk, key_up })
}

/// Whether an action asks for the modifier that a modifier key stands for.
pub open spec fn asks_for(action: KeyAction, vk: u32) -> bool {
    if vk == 0xA2 || vk == 0xA3 {
        action.modifiers & 1 != 0
    } else if vk == 0xA0 || vk == 0xA1 {
        action.modifiers & 2 != 0
    } else {
        (vk == 0xA4 || vk == 0xA5) && action.modifiers & 4 != 0
    }
}

/// The state of a modifier key among those that were read.
pub open spec fn is_held(held: Seq<bool>, vk: u32) -> bool {
    if vk == 0x5B {
        held[6]
    } else if vk == 0x5C {
        held[7]
    } else {
        held[vk - 0xA0]
    }
}

/// When a modifier key is moved out of the way or into place: it goes up if it is held and the
/// action does not ask for it; it goes down if the action asks for it, it is the left one of its
/// pair, and neither of the two is held. Otherwise it is left alone.
pub proof fn law_which_modifiers_are_moved(action: KeyAction, held: Seq<bool>, vk: u32)
    requires
        held.len() == 8,
        types_no_modifier(action),
        !input_laws::is_modifier(action.key),
        input_laws::is_modifier(vk),
    ensures
        leads_with(action, held, vk, true) <==> is_held(held, vk) && !asks_for(action, vk),
        leads_with(action, held, vk, false) <==> {
            &&& asks_for(action, vk)
            &&& vk == 0xA0 || vk == 0xA2 || vk == 0xA4
            &&& !is_held(held, vk)
            &&& !is_held(held, (vk + 1) as u32)
        },
{
    let control = injection::adjust(
        VK_LCONTROL,
        VK_RCONTROL,
        held[2],
        held[3],
        injection::wants(action, MOD_CTRL),
    );
    let shift = injection::adjust(
        VK_LSHIFT,
        VK_RSHIFT,
        held[0],
        held[1],
        injection::wants(action, MOD_SHIFT),
    );
    let alt = injection::adjust(
        VK_LMENU,
        VK_RMENU,
        held[4],
        held[5],
        injection::wants(action, MOD_ALT),
    );
    let win = injection::adjust(VK_LWIN, VK_RWIN, held[6], held[7], false);
    assert(injection::adjust_all(action, held) == control + shift + alt + win);
    assert forall|key_up: bool| #[trigger] leads_with(action, held, vk, key_up) == {
        let stroke = Stroke { vk, key_up };
        control.contains(stroke) || shift.contains(stroke) || alt.contains(stroke) || win.contains(
            stroke,
        )
    } by {
        let stroke = Stroke { vk, key_up };
        lemma_leads_with(action, held, vk, key_up);
        lemma_contains_concat(control + shift + alt, win, stroke);
        lemma_contains_concat(control + shift, alt, stroke);
        lemma_contains_concat(control, shift, stroke);
    }
    assert forall|key_up: bool| #[trigger] leads_with(action, held, vk, key_up) == (if key_up {
        is_held(held, vk) && !asks_for(action, vk)
    } else {
        &&& asks_for(action, vk)
        &&& vk == 0xA0 || vk == 0xA2 || vk == 0xA4
        &&& !is_held(held, vk)
        &&& !is_held(held, (vk + 1) as u32)
    }) by {
        let stroke = Stroke { vk, key_up };
        lemma_adjust_contains(
            VK_LCONTROL,
            VK_RCONTROL,
            held[2],
            held[3],
            injection::wants(action, MOD_CTRL),
            stroke,
        );
        lemma_adjust_contains(
            VK_LSHIFT,
            VK_RSHIFT,
            held[0],
            held[1],
            injection::wants(action, MOD_SHIFT),
            stroke,
        );
        lemma_adjust_contains(
            VK_LMENU,
            VK_RMENU,
            held[4],
            held[5],
            injection::wants(action, MOD_ALT),
            stroke,
        );
        lemma_adjust_contains(VK_LWIN, VK_RWIN, held[6], held[7], false, stroke);
    }
}

proof fn lemma_contains_concat(first: Seq<Stroke>, second: Seq<Stroke>, stroke: Stroke)
    ensures
        (first + second).contains(stroke) == (first.contains(stroke) || second.contains(stroke)),
{
    let all = first + second;
    if first.contains(stroke) {
        let i = choose|i: int| 0 <= i < first.len() && first[i] == stroke;
        assert(all[i] == stroke);
    }
    if second.contains(stroke) {
        let i = choose|i: int| 0 <= i < second.len() && second[i] == stroke;
        assert(all[first.len() + i] == stroke);
    }
    if all.contains(stroke) {
        let i = choose|i: int| 0 <= i < all.len() && all[i] == stroke;
        if i < first.len() {
            assert(first[i] == stroke);
        } else {
            assert(second[i - first.len()] == stroke);
        }
    }
}

proof fn lemma_adjust_contains(
    left: u32,
    right: u32,
    left_held: bool,
    right_held: bool,
    wanted: bool,
    stroke: Stroke,
)
    requires
        left != right,
    ensures
        injection::adjust(left, right, left_held, right_held, wanted).contains(stroke) == (
        if stroke.key_up {
            !wanted && (stroke.vk == left && left_held || stroke.vk == right && right_held)
        } else {
            wanted && stroke.vk == left && !left_held && !right_held
        }),
{
    let strokes = injection::adjust(left, right, left_held, right_held, wanted);
    reveal(injection::adjust);
    if strokes.len() > 0 {
        assert(strokes.contains(strokes[0]));
    }
    if strokes.len() > 1 {
        assert(strokes.contains(strokes[1]));
    }
}

proof fn lemma_leads_with(action: KeyAction, held: Seq<bool>, vk: u32, key_up: bool)
    requires
        types_no_modifier(action),
        !input_laws::is_modifier(action.key),
    ensures
        leads_with(action, held, vk, key_up) == injection::adjust_all(action, held).contains(
            Stroke { vk, key_up },
        ),
{
    let adjustment = injection::adjust_all(action, held);
    let strokes = injection::strokes(action, held);
    lemma_lead(action, held);
    lemma_adjusted_keys(action, held);
    if adjustment.contains(Stroke { vk, key_up }) {
        let i = choose|i: int| 0 <= i < adjustment.len() && adjustment[i] == (Stroke { vk, key_up });
        assert forall|k: int| 0 <= k <= i implies (#[trigger] strokes[k]).vk != action.key by {
            assert(input_laws::is_modifier(adjustment[k].vk));
        }
        assert(in_lead(action, held, i));
    }
    if leads_with(action, held, vk, key_up) {
        let i = choose|i: int| #[trigger]
            in_lead(action, held, i) && strokes[i] == (Stroke { vk, key_up });
        if i >= adjustment.len() {
            assert(strokes[adjustment.len() as int].vk == action.key);
        }
        assert(adjustment[i] == (Stroke { vk, key_up }));
    }
}

/// The place of a modifier key in the order in which they are moved: Ctrl, Shift, Alt, Win, the
/// left one first.
pub open spec fn moving_order(vk: u32) -> int {
    if vk == 0xA2 || vk == 0xA3 {
        vk - 0xA2
    } else if vk == 0xA0 || vk == 0xA1 {
        vk - 0xA0 + 2
    } else if vk == 0xA4 || vk == 0xA5 {
        vk - 0xA4 + 4
    } else {
        vk - 0x5B + 6
    }
}

/// Before the key is tapped, each modifier key is moved once at most, in a fixed order.
pub proof fn law_modifiers_are_moved_in_order(action: KeyAction, held: Seq<bool>, i: int, j: int)
    requires
        types_no_modifier(action),
        !input_laws::is_modifier(action.key),
        0 <= i < j,
        in_lead(action, held, j),
    ensures
        moving_order(injection::strokes(action, held)[i].vk) < moving_order(
            injection::strokes(action, held)[j].vk,
        ),
{
    let adjustment = injection::adjust_all(action, held);
    let strokes = injection::strokes(action, held);
    lemma_lead(action, held);
    if j >= adjustment.len() {
        assert(strokes[adjustment.len() as int].vk == action.key);
    }
    lemma_adjusted_keys(action, held);
    assert(strokes[i] == adjustment[i]);
    assert(strokes[j] == adjustment[j]);
}

/// A health probe is one key going down and up, which the hook acknowledges and swallows.
pub proof fn law_probe_events_are_acknowledged(
    state: HookState,
    event: KeyEvent,
    key_up: bool,
    paused: bool,
    injector_thread: u32,
)
    requires
        event.extra_info == injection::marked(
            VK_NONAME,
            key_up,
            input::HEALTH_PROBE_COOKIE,
        ).extra_info,
    ensures
        state.decision(event, paused, injector_thread).swallow,
        state.decision(event, paused, injector_thread).command == Some(
            input::HookCommand::AcknowledgeProbe,
        ),
        injection::marked(VK_NONAME, key_up, input::HEALTH_PROBE_COOKIE).vk == 0xFC,
        injection::marked(VK_NONAME, key_up, input::HEALTH_PROBE_COOKIE).key_up == key_up,
{
}

/// An event carries the low 16 bits of its key number, its direction and its mark, and the extended
/// prefix exactly for the arrows, Home, End, Delete and the right Ctrl and Alt keys.
pub proof fn law_what_an_event_carries(vk: u32, key_up: bool, cookie: u64)
    ensures
        injection::marked(vk, key_up, cookie).vk == vk % 0x1_0000,
        injection::marked(vk, key_up, cookie).key_up == key_up,
        injection::marked(vk, key_up, cookie).extra_info == cookie,
        injection::marked(vk, key_up, cookie).extended <==> {
            ||| 0x23 <= vk <= 0x28
            ||| vk == 0x2E
            ||| vk == 0xA3
            ||| vk == 0xA5
        },
        injection::extended(vk) == injection::marked(vk, key_up, cookie).extended,
{
}

/// The left button has the number zero, the right one the number one, and all other numbers stand
/// for the middle one.
pub proof fn law_button_numbers(index: usize)
    ensures
        injection::button(index) == MouseButton::Left <==> index == 0,
        injection::button(index) == MouseButton::Right <==> index == 1,
{
}

/// F13 clicks the left button, F14 the right one and F15 the middle one.
pub proof fn law_buttons_of_the_click_keys(vk: u32, index: usize)
    requires
        engine::clicker(vk) == Some(index),
    ensures
        injection::button(index) == MouseButton::Left <==> vk == 0x7C,
        injection::button(index) == MouseButton::Right <==> vk == 0x7D,
        injection::button(index) == MouseButton::Middle <==> vk == 0x7E,
{
}

} // verus!
