//! Texts as sequences of characters: conversions, comparison, and the
//! fixed-width decimal notation in which page numbers are written.

use vstd::prelude::*;

verus! {

/// The character for one decimal digit.
pub open spec fn digit_char(digit: int) -> char {
    ((48 + digit) as u8) as char
}

/// Whether a character is a decimal digit.
pub open spec fn is_digit(c: char) -> bool {
    48 <= c as u32 <= 57
}

/// The value of a decimal digit.
pub open spec fn digit_value(c: char) -> nat {
    (c as u32 - 48) as nat
}

/// Ten to the power of `exponent`.
pub open spec fn pow10(exponent: nat) -> nat
    decreases exponent,
{
    if exponent == 0 {
        1
    } else {
        10 * pow10((exponent - 1) as nat)
    }
}

/// The lowest `width` decimal digits of `value`, most significant first,
/// with leading zeros.
pub open spec fn decimal_digits(value: nat, width: nat) -> Seq<char>
    decreases width,
{
    if width == 0 {
        Seq::empty()
    } else {
        decimal_digits(value / 10, (width - 1) as nat).push(digit_char((value % 10) as int))
    }
}

/// Whether every character of a text is a decimal digit.
pub open spec fn all_digits(text: Seq<char>) -> bool {
    forall|i: int| 0 <= i < text.len() ==> is_digit(#[trigger] text[i])
}

/// The number that a text of decimal digits denotes.
pub open spec fn decimal_value(text: Seq<char>) -> nat
    decreases text.len(),
{
    if text.len() == 0 {
        0
    } else {
        decimal_value(text.drop_last()) * 10 + digit_value(text.last())
    }
}

/// Whether two texts agree before position `at` and the first has the
/// lesser character there.
pub open spec fn differ_at(first: Seq<char>, second: Seq<char>, at: int) -> bool {
    &&& 0 <= at < first.len()
    &&& at < second.len()
    &&& first.take(at) == second.take(at)
    &&& (first[at] as u32) < (second[at] as u32)
}

/// Whether the first text comes before the second in the order in which
/// an object store lists keys: at the first position where they differ the
/// first has the lesser character, or the first is a beginning of the second.
pub open spec fn precedes(first: Seq<char>, second: Seq<char>) -> bool {
    (first.len() < second.len() && second.take(first.len() as int) == first) || exists|at: int|
        differ_at(first, second, at)
}

/// Whether `text` begins with `prefix`.
pub open spec fn starts_with(text: Seq<char>, prefix: Seq<char>) -> bool {
    prefix.len() <= text.len() && text.subrange(0, prefix.len() as int) == prefix
}

/// A text of `width` digits denotes the number it was written from, and
/// has exactly `width` characters, all of them digits.
pub proof fn lemma_decimal_round_trip(value: nat, width: nat)
    requires
        value < pow10(width),
    ensures
        decimal_digits(value, width).len() == width,
        all_digits(decimal_digits(value, width)),
        decimal_value(decimal_digits(value, width)) == value,
    decreases width,
{
    if width > 0 {
        let rest = decimal_digits(value / 10, (width - 1) as nat);
        lemma_decimal_round_trip(value / 10, (width - 1) as nat);
        let text = decimal_digits(value, width);
        assert(text.drop_last() == rest);
        assert(text.last() == digit_char((value % 10) as int));
        assert(digit_value(digit_char((value % 10) as int)) == value % 10);
        assert(is_digit(digit_char((value % 10) as int)));
        assert forall|i: int| 0 <= i < text.len() implies is_digit(#[trigger] text[i]) by {
            if i < rest.len() {
                assert(text[i] == rest[i]);
            }
        }
    }
}

/// Every number that fits 32 bits has twelve digits or fewer.
pub proof fn lemma_page_numbers_fit(value: nat)
    requires
        value <= u32::MAX,
    ensures
        value < pow10(12),
{
    reveal_with_fuel(pow10, 13);
}

/// The characters of a text, one by one.
pub fn chars_of(text: &str) -> (chars: Vec<char>)
    ensures
        chars@ == text@,
{
    let mut chars: Vec<char> = Vec::new();
    for c in it: text.chars()
        invariant
            chars@ == it.seq().take(it.index()),
            it.seq() == text@,
    {
        chars.push(c);
    }
    chars
}

/// Appends the characters at positions `from..to` to a text.
pub fn push_chars(out: &mut String, chars: &Vec<char>, from: usize, to: usize)
    requires
        from <= to <= chars.len(),
    ensures
        final(out)@ == old(out)@ + chars@.subrange(from as int, to as int),
{
    let mut i: usize = from;
    while i < to
        invariant
            from <= i <= to <= chars.len(),
            out@ == old(out)@ + chars@.subrange(from as int, i as int),
        decreases to - i,
    {
        out.push(chars[i]);
        i += 1;
    }
}

/// The text made of the characters at positions `from..to`.
pub fn text_of(chars: &Vec<char>, from: usize, to: usize) -> (text: String)
    requires
        from <= to <= chars.len(),
    ensures
        text@ == chars@.subrange(from as int, to as int),
{
    let mut text = String::new();
    push_chars(&mut text, chars, from, to);
    text
}

/// Whether the characters of `chars` from position `at` on spell out `pattern`.
pub fn matches_at(chars: &Vec<char>, at: usize, pattern: &Vec<char>) -> (r: bool)
    requires
        at <= chars.len(),
    ensures
        r == (at + pattern.len() <= chars.len() && chars@.subrange(
            at as int,
            at + pattern.len(),
        ) == pattern@),
{
    if pattern.len() > chars.len() - at {
        return false;
    }
    let mut i: usize = 0;
    while i < pattern.len()
        invariant
            i <= pattern.len(),
            at + pattern.len() <= chars.len(),
            chars@.subrange(at as int, at + i) == pattern@.take(i as int),
        decreases pattern.len() - i,
    {
        if chars[at + i] != pattern[i] {
            assert(chars@.subrange(at as int, at + pattern.len())[i as int] != pattern@[i as int]);
            return false;
        }
        assert(chars@.subrange(at as int, at + i + 1) == chars@.subrange(
            at as int,
            at + i,
        ).push(chars@[at + i]));
        assert(pattern@.take(i + 1) == pattern@.take(i as int).push(pattern@[i as int]));
        i += 1;
    }
    assert(pattern@.take(pattern.len() as int) == pattern@);
    true
}

/// Appends `value` in decimal, `width` digits wide with leading zeros;
/// digits beyond the width are dropped.
pub fn push_decimal(out: &mut String, value: u64, width: u32)
    ensures
        final(out)@ == old(out)@ + decimal_digits(value as nat, width as nat),
    decreases width,
{
    if width > 0 {
        push_decimal(out, value / 10, width - 1);
        let digit: u8 = (value % 10) as u8;
        out.push((48u8 + digit) as char);
        assert(final(out)@ == old(out)@ + decimal_digits(value as nat, width as nat));
    } else {
        assert(out@ == old(out)@ + decimal_digits(value as nat, 0));
    }
}

/// Reads the characters at positions `from..to` as a decimal number.
/// Nothing is read unless every character is a digit and the number fits
/// 64 bits.
pub fn read_decimal(chars: &Vec<char>, from: usize, to: usize) -> (r: Option<u64>)
    requires
        from <= to <= chars.len(),
    ensures
        r == (if all_digits(chars@.subrange(from as int, to as int)) && decimal_value(
            chars@.subrange(from as int, to as int),
        ) <= u64::MAX {
            Some(decimal_value(chars@.subrange(from as int, to as int)) as u64)
        } else {
            None::<u64>
        }),
{
    let ghost whole = chars@.subrange(from as int, to as int);
    let mut value: u64 = 0;
    let mut i: usize = from;
    while i < to
        invariant
            from <= i <= to <= chars.len(),
            whole == chars@.subrange(from as int, to as int),
            all_digits(whole.take(i - from)),
            value == decimal_value(whole.take(i - from)),
        decreases to - i,
    {
        let c = chars[i];
        let ghost read = whole.take(i - from);
        let ghost next = whole.take(i - from + 1);
        assert(next.drop_last() == read);
        assert(next.last() == c);
        let code: u32 = c as u32;
        if code < 48 || code > 57 {
            assert(!is_digit(whole[i - from]));
            return None;
        }
        let digit: u64 = (code - 48) as u64;
        if value > (u64::MAX - digit) / 10 {
            proof {
                lemma_decimal_value_grows(whole, i - from + 1);
            }
            return None;
        }
        value = value * 10 + digit;
        assert forall|j: int| 0 <= j < next.len() implies is_digit(#[trigger] next[j]) by {
            if j < read.len() {
                assert(next[j] == read[j]);
            }
        }
        i += 1;
    }
    assert(whole.take(to - from) == whole);
    Some(value)
}

/// The number denoted by a text of digits is at least the number denoted
/// by any of its beginnings.
pub proof fn lemma_decimal_value_grows(text: Seq<char>, n: int)
    requires
        0 <= n <= text.len(),
    ensures
        decimal_value(text.take(n)) <= decimal_value(text),
    decreases text.len(),
{
    if n < text.len() {
        lemma_decimal_value_grows(text.drop_last(), n);
        assert(text.drop_last().take(n) == text.take(n));
    } else {
        assert(text.take(n) == text);
    }
}

/// Twelve digits denote a number that fits 64 bits.
pub proof fn lemma_twelve_digits_fit(text: Seq<char>)
    requires
        text.len() == 12,
        all_digits(text),
    ensures
        decimal_value(text) <= u64::MAX,
{
    lemma_decimal_value_bound(text);
    reveal_with_fuel(pow10, 13);
}

/// A text of digits denotes a number below ten to the power of its length.
pub proof fn lemma_decimal_value_bound(text: Seq<char>)
    requires
        all_digits(text),
    ensures
        decimal_value(text) < pow10(text.len()),
    decreases text.len(),
{
    if text.len() > 0 {
        assert forall|i: int| 0 <= i < text.drop_last().len() implies is_digit(
            #[trigger] text.drop_last()[i],
        ) by {
            assert(text.drop_last()[i] == text[i]);
        }
        lemma_decimal_value_bound(text.drop_last());
        assert(is_digit(text[text.len() - 1]));
    }
}

} // verus!
