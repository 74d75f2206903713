//! Numbers, paths and wide strings as text.

use vstd::prelude::*;
use vstd::string::*;

verus! {

/// The characters of a text.
pub fn characters(text: &str) -> (chars: Vec<char>)
    ensures
        chars@ == text@,
{
    let mut chars: Vec<char> = Vec::new();
    for c in iter: text.chars()
        invariant
            chars@ == iter.seq().take(iter.index()),
            iter.seq() == text@,
    {
        chars.push(c);
        assert(chars@ =~= iter.seq().take(iter.index() + 1));
    }
    assert(chars@ =~= text@);
    chars
}

// ---------------------------------------------------------------------------------------
// Decimal numbers
// ---------------------------------------------------------------------------------------

/// The digit of a number below ten.
pub open spec fn digit(value: nat) -> char {
    (48 + value) as char
}

/// A number in decimal notation, without leading zeros.
pub open spec fn decimal(value: nat) -> Seq<char>
    decreases value,
{
    if value < 10 {
        seq![digit(value)]
    } else {
        decimal(value / 10).push(digit(value % 10))
    }
}

fn digit_text(value: u64) -> (text: &'static str)
    requires
        value < 10,
    ensures
        text@ == seq![digit(value as nat)],
{
    proof {
        reveal_strlit("0");
        reveal_strlit("1");
        reveal_strlit("2");
        reveal_strlit("3");
        reveal_strlit("4");
        reveal_strlit("5");
        reveal_strlit("6");
        reveal_strlit("7");
        reveal_strlit("8");
        reveal_strlit("9");
    }
    match value {
        0 => "0",
        1 => "1",
        2 => "2",
        3 => "3",
        4 => "4",
        5 => "5",
        6 => "6",
        7 => "7",
        8 => "8",
        _ => "9",
    }
}

/// Writes a number in decimal notation.
pub fn decimal_text(value: u64) -> (text: String)
    ensures
        text@ == decimal(value as nat),
    decreases value,
{
    if value < 10 {
        digit_text(value).to_owned()
    } else {
        let mut text = decimal_text(value / 10);
        text.append(digit_text(value % 10));
        assert(text@ =~= decimal(value as nat));
        text
    }
}

pub open spec fn is_digit(c: char) -> bool {
    '0' <= c <= '9'
}

/// The number that a sequence of digits stands for.
pub open spec fn digits_value(digits: Seq<char>) -> nat
    decreases digits.len(),
{
    if digits.len() == 0 {
        0
    } else {
        10 * digits_value(digits.drop_last()) + (digits.last() as nat - 48) as nat
    }
}

pub open spec fn all_digits(text: Seq<char>) -> bool {
    forall|i: int| 0 <= i < text.len() ==> is_digit(#[trigger] text[i])
}

/// A text without a plus sign in front.
pub open spec fn unsigned(text: Seq<char>) -> Seq<char> {
    if text.len() > 0 && text[0] == '+' {
        text.skip(1)
    } else {
        text
    }
}

/// The number that a text stands for: digits, with at most a plus sign in front, whose value
/// fits into 32 bits.
pub open spec fn parsed(text: Seq<char>) -> Option<u32> {
    let digits = unsigned(text);
    if digits.len() > 0 && all_digits(digits) && digits_value(digits) <= u32::MAX {
        Some(digits_value(digits) as u32)
    } else {
        None
    }
}

/// Reads a 32-bit number.
pub fn parse_number(text: &Vec<char>) -> (number: Option<u32>)
    ensures
        number == parsed(text@),
{
    let start: usize = if text.len() > 0 && text[0] == '+' { 1 } else { 0 };
    let ghost digits = text@.skip(start as int);
    assert(digits =~= unsigned(text@));
    if text.len() == start {
        return None;
    }
    let mut value: u64 = 0;
    let mut i: usize = start;
    while i < text.len()
        invariant
            start <= i <= text.len(),
            start <= 1,
            digits == text@.skip(start as int),
            digits == unsigned(text@),
            all_digits(digits.take(i - start)),
            value == digits_value(digits.take(i - start)),
            value <= u32::MAX,
        decreases text.len() - i,
    {
        let c: char = text[i];
        assert(c == digits[i - start]);
        if c < '0' || c > '9' {
            assert(!all_digits(digits));
            return None;
        }
        let ghost before = digits.take(i - start);
        let ghost longer = digits.take(i + 1 - start);
        assert(longer.drop_last() =~= before);
        assert(longer.last() == c);
        value = 10 * value + (c as u64 - 48);
        assert forall|k: int| 0 <= k < longer.len() implies is_digit(#[trigger] longer[k]) by {
            if k < before.len() {
                assert(longer[k] == before[k]);
            }
        }
        if value > u32::MAX as u64 {
            proof {
                lemma_value_grows(digits, i + 1 - start);
            }
            return None;
        }
        i += 1;
    }
    assert(digits.take(i - start) =~= digits);
    Some(value as u32)
}

/// More digits do not make a number smaller.
proof fn lemma_value_grows(digits: Seq<char>, count: int)
    requires
        0 <= count <= digits.len(),
    ensures
        digits_value(digits.take(count)) <= digits_value(digits),
    decreases digits.len() - count,
{
    if count < digits.len() {
        lemma_value_grows(digits, count + 1);
        assert(digits.take(count + 1).drop_last() =~= digits.take(count));
    } else {
        assert(digits.take(count) =~= digits);
    }
}

/// A number in decimal notation consists of digits, whose value it is.
pub proof fn law_decimal_digits(value: nat)
    ensures
        decimal(value).len() > 0,
        all_digits(decimal(value)),
        digits_value(decimal(value)) == value,
    decreases value,
{
    if value < 10 {
        reveal_with_fuel(digits_value, 2);
        assert(decimal(value).drop_last().len() == 0);
    } else {
        law_decimal_digits(value / 10);
        assert(decimal(value).drop_last() =~= decimal(value / 10));
    }
}

/// A 32-bit number in decimal notation is read back as it was written.
pub proof fn law_number_is_read_back(value: u32)
    ensures
        parsed(decimal(value as nat)) == Some(value),
{
    law_decimal_digits(value as nat);
    assert(is_digit(decimal(value as nat)[0]));
}

// ---------------------------------------------------------------------------------------
// White space
// ---------------------------------------------------------------------------------------

/// The characters with the Unicode property White_Space.
pub open spec fn white_space(c: char) -> bool {
    let code = c as u32;
    ||| 0x9 <= code <= 0xD
    ||| code == 0x20 || code == 0x85 || code == 0xA0 || code == 0x1680
    ||| 0x2000 <= code <= 0x200A
    ||| code == 0x2028 || code == 0x2029 || code == 0x202F || code == 0x205F || code == 0x3000
}

fn is_white_space(c: char) -> (is: bool)
    ensures
        is == white_space(c),
{
    let code: u32 = c as u32;
    (0x9 <= code && code <= 0xD) || code == 0x20 || code == 0x85 || code == 0xA0 || code == 0x1680
        || (0x2000 <= code && code <= 0x200A) || code == 0x2028 || code == 0x2029 || code == 0x202F
        || code == 0x205F || code == 0x3000
}

/// A text without the white space at its beginning.
pub open spec fn trimmed_start(text: Seq<char>) -> Seq<char>
    decreases text.len(),
{
    if text.len() > 0 && white_space(text[0]) {
        trimmed_start(text.skip(1))
    } else {
        text
    }
}

/// A text without the white space at its end.
pub open spec fn trimmed_end(text: Seq<char>) -> Seq<char>
    decreases text.len(),
{
    if text.len() > 0 && white_space(text.last()) {
        trimmed_end(text.drop_last())
    } else {
        text
    }
}

/// A text without the white space at either end.
pub open spec fn trimmed(text: Seq<char>) -> Seq<char> {
    trimmed_end(trimmed_start(text))
}

/// Takes the white space off both ends of a text.
pub fn trim(text: &str) -> (chars: Vec<char>)
    ensures
        chars@ == trimmed(text@),
{
    let all = characters(text);
    let mut start: usize = 0;
    assert(all@.skip(0) =~= all@);
    while start < all.len() && is_white_space(all[start])
        invariant
            start <= all.len(),
            trimmed_start(all@) == trimmed_start(all@.skip(start as int)),
        decreases all.len() - start,
    {
        assert(all@.skip(start as int).skip(1) =~= all@.skip(start as int + 1));
        start += 1;
    }
    let ghost rest = all@.skip(start as int);
    assert(trimmed_start(all@) == rest);
    let mut end: usize = all.len();
    assert(rest.take(end - start) =~= rest);
    while start < end && is_white_space(all[end - 1])
        invariant
            start <= end <= all.len(),
            rest == all@.skip(start as int),
            trimmed_end(rest) == trimmed_end(rest.take(end - start)),
        decreases end,
    {
        assert(rest.take(end - start).last() == all@[end - 1]);
        assert(rest.take(end - start).drop_last() =~= rest.take(end - start - 1));
        end -= 1;
    }
    assert(end > start ==> rest.take(end - start).last() == all@[end - 1]);
    let mut chars: Vec<char> = Vec::new();
    let mut i: usize = start;
    while i < end
        invariant
            start <= i <= end <= all.len(),
            chars@ == all@.subrange(start as int, i as int),
        decreases end - i,
    {
        chars.push(all[i]);
        assert(chars@ =~= all@.subrange(start as int, i + 1));
        i += 1;
    }
    assert(chars@ =~= rest.take(end - start));
    chars
}

/// White space around a number does not keep it from being read back.
pub proof fn law_trimmed_number_is_read_back(value: u32, before: Seq<char>, after: Seq<char>)
    requires
        forall|i: int| 0 <= i < before.len() ==> white_space(#[trigger] before[i]),
        forall|i: int| 0 <= i < after.len() ==> white_space(#[trigger] after[i]),
    ensures
        parsed(trimmed(before + decimal(value as nat) + after)) == Some(value),
{
    let number = decimal(value as nat);
    law_decimal_digits(value as nat);
    law_number_is_read_back(value);
    assert(is_digit(number[0]) && is_digit(number[number.len() - 1]));
    lemma_trim_start(before, number + after);
    assert(before + number + after =~= before + (number + after));
    lemma_trim_end(number, after);
}

proof fn lemma_trim_start(space: Seq<char>, text: Seq<char>)
    requires
        forall|i: int| 0 <= i < space.len() ==> white_space(#[trigger] space[i]),
        text.len() > 0,
        !white_space(text[0]),
    ensures
        trimmed_start(space + text) == text,
    decreases space.len(),
{
    if space.len() == 0 {
        assert(space + text =~= text);
    } else {
        let rest = space.skip(1);
        assert forall|i: int| 0 <= i < rest.len() implies white_space(#[trigger] rest[i]) by {
            assert(rest[i] == space[i + 1]);
        }
        lemma_trim_start(rest, text);
        assert((space + text).skip(1) =~= rest + text);
        assert((space + text)[0] == space[0]);
    }
}

proof fn lemma_trim_end(text: Seq<char>, space: Seq<char>)
    requires
        forall|i: int| 0 <= i < space.len() ==> white_space(#[trigger] space[i]),
        text.len() > 0,
        !white_space(text.last()),
    ensures
        trimmed_end(text + space) == text,
    decreases space.len(),
{
    if space.len() == 0 {
        assert(text + space =~= text);
    } else {
        let rest = space.drop_last();
        assert forall|i: int| 0 <= i < rest.len() implies white_space(#[trigger] rest[i]) by {
            assert(rest[i] == space[i]);
        }
        lemma_trim_end(text, rest);
        assert((text + space).drop_last() =~= text + rest);
        assert((text + space).last() == space[space.len() - 1]);
    }
}

// ---------------------------------------------------------------------------------------
// Comparing without regard to case
// ---------------------------------------------------------------------------------------

/// A character with the letters A to Z made small.
pub open spec fn small(c: char) -> char {
    if 'A' <= c <= 'Z' {
        (c as u32 + 32) as char
    } else {
        c
    }
}

/// A text with the letters A to Z made small.
pub open spec fn all_small(text: Seq<char>) -> Seq<char> {
    text.map_values(|c: char| small(c))
}

fn same_letter(left: char, right: char) -> (same: bool)
    ensures
        same == (small(left) == small(right)),
{
    let left_code: u32 = if 'A' <= left && left <= 'Z' { left as u32 + 32 } else { left as u32 };
    let right_code: u32 = if 'A' <= right && right <= 'Z' { right as u32 + 32 } else { right as u32 };
    left_code == right_code
}

/// Two texts are the same but for the case of the letters A to Z.
pub fn same_ignoring_case(left: &str, right: &str) -> (same: bool)
    ensures
        same == (all_small(left@) == all_small(right@)),
{
    let left_chars = characters(left);
    let right_chars = characters(right);
    if left_chars.len() != right_chars.len() {
        assert(all_small(left@).len() != all_small(right@).len());
        return false;
    }
    for i in 0..left_chars.len()
        invariant
            left_chars@ == left@,
            right_chars@ == right@,
            left_chars.len() == right_chars.len(),
            forall|k: int| 0 <= k < i ==> #[trigger] all_small(left@)[k] == all_small(right@)[k],
    {
        if !same_letter(left_chars[i], right_chars[i]) {
            assert(all_small(left@)[i as int] != all_small(right@)[i as int]);
            return false;
        }
    }
    assert(all_small(left@) =~= all_small(right@));
    true
}

// ---------------------------------------------------------------------------------------
// UTF-16
// ---------------------------------------------------------------------------------------

/// The UTF-16 code units of a character.
pub open spec fn units(c: char) -> Seq<u16> {
    let code = c as u32;
    if code < 0x1_0000 {
        seq![code as u16]
    } else {
        seq![
            (0xD800 + (code - 0x1_0000) / 0x400) as u16,
            (0xDC00 + (code - 0x1_0000) % 0x400) as u16,
        ]
    }
}

/// The UTF-16 code units of a text.
pub open spec fn utf16(text: Seq<char>) -> Seq<u16>
    decreases text.len(),
{
    if text.len() == 0 {
        seq![]
    } else {
        utf16(text.drop_last()) + units(text.last())
    }
}

/// Encodes a text in UTF-16.
pub fn encode_utf16(text: &str) -> (encoded: Vec<u16>)
    ensures
        encoded@ == utf16(text@),
{
    let chars = characters(text);
    let mut encoded: Vec<u16> = Vec::new();
    for i in 0..chars.len()
        invariant
            chars@ == text@,
            encoded@ == utf16(text@.take(i as int)),
    {
        let code: u32 = chars[i] as u32;
        let ghost before = encoded@;
        if code < 0x1_0000 {
            encoded.push(code as u16);
        } else {
            let offset: u32 = code - 0x1_0000;
            encoded.push((0xD800 + offset / 0x400) as u16);
            encoded.push((0xDC00 + offset % 0x400) as u16);
        }
        let ghost longer = text@.take(i + 1);
        assert(longer.drop_last() =~= text@.take(i as int));
        assert(longer.last() == chars@[i as int]);
        assert(encoded@ =~= before + units(chars@[i as int]));
    }
    assert(text@.take(text@.len() as int) =~= text@);
    encoded
}

/// Code units with a zero behind them.
pub open spec fn terminated(units: Seq<u16>) -> Seq<u16> {
    units.push(0)
}

/// The code units with a zero behind them, as Windows expects its strings.
pub fn nul_terminated(mut units: Vec<u16>) -> (wide: Vec<u16>)
    ensures
        wide@ == terminated(units@),
{
    units.push(0);
    units
}

/// A text as a zero-terminated wide string.
pub fn wide(text: &str) -> (wide: Vec<u16>)
    ensures
        wide@ == terminated(utf16(text@)),
{
    nul_terminated(encode_utf16(text))
}

/// How many code units of a text fit into a buffer in front of a terminating zero.
pub open spec fn fitting(capacity: int, length: int) -> int {
    if length < capacity - 1 {
        length
    } else {
        capacity - 1
    }
}

/// A buffer after code units were copied into it, with a zero behind them.
pub open spec fn overwritten(buffer: Seq<u16>, units: Seq<u16>) -> Seq<u16> {
    let count = fitting(buffer.len() as int, units.len() as int);
    units.take(count).push(0) + buffer.skip(count + 1)
}

/// Copies a text into a fixed buffer as a zero-terminated wide string, cut off where the
/// buffer ends. What lies behind the zero stays as it was.
pub fn copy_wide(destination: &mut [u16], text: &str)
    requires
        old(destination)@.len() > 0,
    ensures
        final(destination)@ == overwritten(old(destination)@, utf16(text@)),
{
    let source = encode_utf16(text);
    let room: usize = destination.len() - 1;
    let count: usize = if source.len() < room { source.len() } else { room };
    let ghost before = destination@;
    let mut i: usize = 0;
    while i < count
        invariant
            i <= count <= source.len(),
            count < destination@.len(),
            destination@ == source@.take(i as int) + before.skip(i as int),
            destination@.len() == before.len(),
        decreases count - i,
    {
        destination[i] = source[i];
        i += 1;
        assert(destination@ =~= source@.take(i as int) + before.skip(i as int));
    }
    destination[count] = 0;
    assert(destination@ =~= source@.take(count as int).push(0) + before.skip(count + 1));
}

pub open spec fn is_high_surrogate(unit: u16) -> bool {
    0xD800 <= unit <= 0xDBFF
}

pub open spec fn is_low_surrogate(unit: u16) -> bool {
    0xDC00 <= unit <= 0xDFFF
}

/// The text that UTF-16 code units stand for, with U+FFFD for each unpaired surrogate.
pub open spec fn utf16_text(units: Seq<u16>) -> Seq<char>
    decreases units.len(),
{
    if units.len() == 0 {
        seq![]
    } else if is_high_surrogate(units[0]) && units.len() > 1 && is_low_surrogate(units[1]) {
        seq![(0x1_0000 + (units[0] - 0xD800) * 0x400 + (units[1] - 0xDC00)) as char] + utf16_text(
            units.skip(2),
        )
    } else if is_high_surrogate(units[0]) || is_low_surrogate(units[0]) {
        seq!['\u{FFFD}'] + utf16_text(units.skip(1))
    } else {
        seq![units[0] as char] + utf16_text(units.skip(1))
    }
}

/// `String::from_utf16_lossy` decodes UTF-16 and puts the replacement character U+FFFD in the
/// place of each surrogate that has no partner.
pub assume_specification[ String::from_utf16_lossy ](v: &[u16]) -> (decoded: String)
    ensures
        decoded@ == utf16_text(v@),
;

proof fn lemma_utf16_concat(left: Seq<char>, right: Seq<char>)
    ensures
        utf16(left + right) == utf16(left) + utf16(right),
    decreases right.len(),
{
    if right.len() == 0 {
        assert(left + right =~= left);
        assert(utf16(left) + utf16(right) =~= utf16(left));
    } else {
        assert((left + right).drop_last() =~= left + right.drop_last());
        lemma_utf16_concat(left, right.drop_last());
        assert(utf16(left + right) =~= utf16(left) + utf16(right));
    }
}

proof fn lemma_units_decoded(c: char, rest: Seq<u16>)
    ensures
        utf16_text(units(c) + rest) == seq![c] + utf16_text(rest),
{
    let all = units(c) + rest;
    let code = c as u32;
    assert(all.skip(units(c).len() as int) =~= rest);
    if code < 0x1_0000 {
        assert(all[0] == code as u16);
        assert(all[0] as char == c);
    } else {
        let offset = code - 0x1_0000;
        assert(offset <= 0xF_FFFF);
        assert(all[0] == 0xD800 + offset / 0x400);
        assert(all[1] == 0xDC00 + offset % 0x400);
        assert((offset / 0x400) * 0x400 + offset % 0x400 == offset);
    }
}

/// A text that is encoded in UTF-16 is decoded as it was.
pub proof fn law_utf16_is_decoded_back(text: Seq<char>)
    ensures
        utf16_text(utf16(text)) == text,
    decreases text.len(),
{
    if text.len() > 0 {
        let first = text[0];
        let rest = text.skip(1);
        law_utf16_is_decoded_back(rest);
        assert(text =~= seq![first] + rest);
        lemma_utf16_concat(seq![first], rest);
        reveal_with_fuel(utf16, 2);
        assert(seq![first].drop_last().len() == 0);
        assert(utf16(seq![first]) =~= units(first));
        lemma_units_decoded(first, utf16(rest));
    }
}

// ---------------------------------------------------------------------------------------
// What the notations mean
// ---------------------------------------------------------------------------------------

/// Decimal notation: a number below ten is its digit; behind the digits of a number, a further
/// digit makes it ten times as large and adds to it.
pub proof fn law_decimal_notation(value: nat, last: nat)
    requires
        last < 10,
    ensures
        decimal(last).len() == 1,
        decimal(last)[0] as int == 48 + last,
        value > 0 ==> decimal(10 * value + last) == decimal(value) + decimal(last),
{
    let longer = 10 * value + last;
    if value > 0 {
        assert(longer / 10 == value && longer % 10 == last);
        assert(decimal(longer) =~= decimal(value) + decimal(last));
    }
}

/// Reading digits: no digits are worth nothing, and a further digit counts once, those before it
/// ten times.
pub proof fn law_digits_are_worth_ten_times(digits: Seq<char>, c: char)
    requires
        is_digit(c),
    ensures
        digits_value(Seq::empty()) == 0,
        digits_value(digits.push(c)) == 10 * digits_value(digits) + (c as int - 48),
        is_digit(c) <==> 48 <= c as int <= 57,
{
    assert(digits.push(c).drop_last() =~= digits);
}

/// What is read as a number: one or more digits, with leading zeros and one plus sign at will, up
/// to the largest 32-bit number, and nothing else.
pub proof fn law_what_is_a_number(text: Seq<char>, digits: Seq<char>, i: int)
    ensures
        parsed(Seq::empty()) is None,
        parsed(seq!['+']) is None,
        digits.len() > 0 && all_digits(digits) ==> {
            &&& parsed(digits) is Some <==> digits_value(digits) <= 0xFFFF_FFFF
            &&& parsed(digits) matches Some(number) ==> number == digits_value(digits)
            &&& parsed(seq!['+'] + digits) == parsed(digits)
            &&& parsed(seq!['0'] + digits) == parsed(digits)
        },
        0 <= i < text.len() && !is_digit(text[i]) && (i > 0 || text[i] != '+') ==> parsed(text)
            is None,
{
    assert(unsigned(seq!['+']) =~= Seq::empty());
    if digits.len() > 0 && all_digits(digits) {
        assert(is_digit(digits[0]));
        assert((seq!['+'] + digits).skip(1) =~= digits);
        let padded = seq!['0'] + digits;
        assert forall|k: int| 0 <= k < padded.len() implies is_digit(#[trigger] padded[k]) by {
            if k > 0 {
                assert(padded[k] == digits[k - 1]);
            }
        }
        lemma_leading_zero(digits);
    }
    if 0 <= i < text.len() && !is_digit(text[i]) && (i > 0 || text[i] != '+') {
        let rest = unsigned(text);
        if text[0] == '+' {
            assert(rest[i - 1] == text[i]);
        } else {
            assert(rest[i] == text[i]);
        }
    }
}

proof fn lemma_leading_zero(digits: Seq<char>)
    ensures
        digits_value(seq!['0'] + digits) == digits_value(digits),
    decreases digits.len(),
{
    let padded = seq!['0'] + digits;
    if digits.len() == 0 {
        reveal_with_fuel(digits_value, 2);
        assert(padded.drop_last().len() == 0);
    } else {
        assert(padded.drop_last() =~= seq!['0'] + digits.drop_last());
        lemma_leading_zero(digits.drop_last());
    }
}

/// White space is taken off both ends and nowhere else: what begins and ends otherwise stays as it
/// is, and of white space alone nothing stays.
pub proof fn law_what_is_trimmed(before: Seq<char>, core: Seq<char>, after: Seq<char>)
    requires
        forall|i: int| 0 <= i < before.len() ==> white_space(#[trigger] before[i]),
        forall|i: int| 0 <= i < after.len() ==> white_space(#[trigger] after[i]),
    ensures
        core.len() > 0 && !white_space(core[0]) && !white_space(core.last()) ==> trimmed(
            before + core + after,
        ) == core,
        trimmed(before) == Seq::<char>::empty(),
{
    if core.len() > 0 && !white_space(core[0]) && !white_space(core.last()) {
        lemma_trim_start(before, core + after);
        assert(before + core + after =~= before + (core + after));
        lemma_trim_end(core, after);
    }
    lemma_trim_all(before);
}

proof fn lemma_trim_all(space: Seq<char>)
    requires
        forall|i: int| 0 <= i < space.len() ==> white_space(#[trigger] space[i]),
    ensures
        trimmed_start(space) == Seq::<char>::empty(),
    decreases space.len(),
{
    if space.len() > 0 {
        let rest = space.skip(1);
        assert forall|i: int| 0 <= i < rest.len() implies white_space(#[trigger] rest[i]) by {
            assert(rest[i] == space[i + 1]);
        }
        lemma_trim_all(rest);
    } else {
        assert(space =~= Seq::<char>::empty());
    }
}

/// Two characters are the same letter: equal, or one of them is the small letter of the other, of
/// the letters A to Z.
pub open spec fn same_but_for_case(left: char, right: char) -> bool {
    ||| left == right
    ||| 65 <= left as int <= 90 && right as int == left as int + 32
    ||| 65 <= right as int <= 90 && left as int == right as int + 32
}

/// Two texts are taken for the same exactly when they have the same length and, place by place, the
/// same letters but for the case of A to Z.
pub proof fn law_what_is_the_same_text(left: Seq<char>, right: Seq<char>)
    ensures
        all_small(left) == all_small(right) <==> left.len() == right.len() && forall|i: int|
            0 <= i < left.len() ==> #[trigger] same_but_for_case(left[i], right[i]),
{
    if all_small(left) == all_small(right) {
        assert(all_small(left).len() == all_small(right).len());
        assert forall|i: int| 0 <= i < left.len() implies #[trigger] same_but_for_case(
            left[i],
            right[i],
        ) by {
            assert(all_small(left)[i] == all_small(right)[i]);
            lemma_same_small(left[i], right[i]);
        }
    }
    if left.len() == right.len() && forall|i: int|
        0 <= i < left.len() ==> #[trigger] same_but_for_case(left[i], right[i]) {
        assert forall|i: int| 0 <= i < left.len() implies #[trigger] all_small(left)[i]
            == all_small(right)[i] by {
            assert(same_but_for_case(left[i], right[i]));
            lemma_same_small(left[i], right[i]);
        }
        assert(all_small(left) =~= all_small(right));
    }
}

proof fn lemma_same_small(left: char, right: char)
    ensures
        small(left) == small(right) <==> same_but_for_case(left, right),
{
}

/// UTF-16 encodes texts character by character: one code unit for a character that fits, otherwise a
/// high and a low surrogate, which hold the upper and the lower ten bits of what exceeds the
/// characters that fit.
pub proof fn law_utf16_encoding(text: Seq<char>, c: char)
    ensures
        utf16(Seq::empty()) == Seq::<u16>::empty(),
        utf16(text.push(c)).take(utf16(text).len() as int) == utf16(text),
        ({
            let encoded = utf16(text.push(c)).skip(utf16(text).len() as int);
            if (c as int) < 0x1_0000 {
                encoded.len() == 1 && encoded[0] == c as int
            } else {
                &&& encoded.len() == 2
                &&& is_high_surrogate(encoded[0])
                &&& is_low_surrogate(encoded[1])
                &&& 0x1_0000 + (encoded[0] - 0xD800) * 0x400 + (encoded[1] - 0xDC00) == c as int
            }
        }),
{
    assert(text.push(c).drop_last() =~= text);
    let encoded = utf16(text.push(c));
    assert(encoded =~= utf16(text) + units(c));
    assert(encoded.take(utf16(text).len() as int) =~= utf16(text));
    assert(encoded.skip(utf16(text).len() as int) =~= units(c));
    if c as int >= 0x1_0000 {
        let offset = c as int - 0x1_0000;
        assert(offset <= 0xF_FFFF);
        assert((offset / 0x400) * 0x400 + offset % 0x400 == offset);
    }
}

/// A wide string is its code units with one zero behind them.
pub proof fn law_wide_strings_end_with_zero(units: Seq<u16>, i: int)
    ensures
        terminated(units).len() == units.len() + 1,
        0 <= i < units.len() ==> terminated(units)[i] == units[i],
        terminated(units)[units.len() as int] == 0,
{
}

/// What copying into a buffer does to its place `i`, where `count` is the number of code units, or
/// one less than the places if there are not enough: it holds the code unit, the zero behind the
/// last one, or what it held before.
pub proof fn law_copying_into_a_buffer(buffer: Seq<u16>, units: Seq<u16>, i: int)
    requires
        0 <= i < buffer.len(),
    ensures
        overwritten(buffer, units).len() == buffer.len(),
        ({
            let count = if units.len() < buffer.len() {
                units.len() as int
            } else {
                buffer.len() - 1
            };
            overwritten(buffer, units)[i] == if i < count {
                units[i]
            } else if i == count {
                0u16
            } else {
                buffer[i]
            }
        }),
{
}

} // verus!
