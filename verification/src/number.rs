//! How the fields of a record line are spelled: decimal numbers and indices.

use vstd::prelude::*;
use vstd::string::{is_ascii_spec_bytes, StrSliceExecFns, StringSliceAdditionalSpecFns};
use vstd::utf8::is_ascii_chars;

verus! {

/// Whether `c` is one of the ten digits `0` to `9`.
pub open spec fn is_digit(c: char) -> bool {
    '0' <= c && c <= '9'
}

/// Where the run of digits that starts at `from` ends: the index of the first
/// character at or after `from` that is no digit.
pub open spec fn digits_end(text: Seq<char>, from: int) -> int
    decreases text.len() - from,
{
    if 0 <= from < text.len() && is_digit(text[from]) {
        digits_end(text, from + 1)
    } else {
        from
    }
}

/// Whether `text` spells a decimal number: an optional `-`, digits with an
/// optional `.` before, among or behind them, and then an optional exponent,
/// written `e-` and at least one digit. At least one digit stands before the
/// exponent.
pub open spec fn is_number(text: Seq<char>) -> bool {
    let whole = if text.len() > 0 && text[0] == '-' {
        1int
    } else {
        0int
    };
    let point = digits_end(text, whole);
    let fraction = if point < text.len() && text[point] == '.' {
        point + 1
    } else {
        point
    };
    let mark = digits_end(text, fraction);
    &&& (point - whole) + (mark - fraction) >= 1
    &&& (mark == text.len() || (mark + 2 < text.len() && text[mark] == 'e' && text[mark + 1] == '-'
        && digits_end(text, mark + 2) == text.len()))
}

/// Whether `text` holds digits only.
pub open spec fn all_digits(text: Seq<char>) -> bool {
    forall|i: int| 0 <= i < text.len() ==> is_digit(#[trigger] text[i])
}

/// The number that a digit stands for.
pub open spec fn digit_value(c: char) -> nat {
    (c as int - '0' as int) as nat
}

/// The number that a run of digits spells in base ten.
pub open spec fn decimal(text: Seq<char>) -> nat
    decreases text.len(),
{
    if text.len() == 0 {
        0
    } else {
        decimal(text.drop_last()) * 10 + digit_value(text.last())
    }
}

/// The index that `text` spells: `text` is one digit or more, and the number
/// they spell fits in 32 bits. Zeros may lead.
pub open spec fn index_of(text: Seq<char>) -> Option<u32> {
    if text.len() > 0 && all_digits(text) && decimal(text) <= u32::MAX {
        Some(decimal(text) as u32)
    } else {
        None
    }
}

/// A run of digits ends where [`digits_end`] says.
pub proof fn lemma_digits_end(text: Seq<char>, from: int, end: int)
    requires
        0 <= from <= end <= text.len(),
        forall|i: int| from <= i < end ==> is_digit(#[trigger] text[i]),
        end == text.len() || !is_digit(text[end]),
    ensures
        digits_end(text, from) == end,
    decreases end - from,
{
    if from < end {
        lemma_digits_end(text, from + 1, end);
    }
}

/// From `from` to [`digits_end`] there are digits only.
pub proof fn lemma_digits_run(text: Seq<char>, from: int)
    requires
        0 <= from <= text.len(),
    ensures
        from <= digits_end(text, from) <= text.len(),
        forall|i: int| from <= i < digits_end(text, from) ==> is_digit(#[trigger] text[i]),
        digits_end(text, from) == text.len() || !is_digit(text[digits_end(text, from)]),
    decreases text.len() - from,
{
    if from < text.len() && is_digit(text[from]) {
        lemma_digits_run(text, from + 1);
    }
}

/// A number is spelled with characters of ASCII alone.
pub proof fn lemma_number_is_ascii(text: Seq<char>)
    requires
        is_number(text),
    ensures
        is_ascii_chars(text),
{
    let whole = if text.len() > 0 && text[0] == '-' {
        1int
    } else {
        0int
    };
    lemma_digits_run(text, whole);
    let point = digits_end(text, whole);
    let fraction = if point < text.len() && text[point] == '.' {
        point + 1
    } else {
        point
    };
    lemma_digits_run(text, fraction);
    let mark = digits_end(text, fraction);
    if mark < text.len() {
        lemma_digits_run(text, mark + 2);
    }
    assert forall|i: int| 0 <= i < text.len() implies '\0' <= #[trigger] text[i] <= '\u{7f}' by {
        if i < whole {
        } else if i < point {
        } else if i < fraction {
        } else if i < mark {
        } else if i < mark + 2 {
        } else {
        }
    }
}

/// The number that a run of digits spells is no smaller than the number that
/// a part of it from the start spells.
pub proof fn lemma_decimal_grows(text: Seq<char>, n: int)
    requires
        0 <= n <= text.len(),
    ensures
        decimal(text.take(n)) <= decimal(text),
    decreases text.len() - n,
{
    if n < text.len() {
        assert(text.take(n + 1).drop_last() =~= text.take(n));
        lemma_decimal_grows(text, n + 1);
    } else {
        assert(text.take(n) =~= text);
    }
}

/// The text of a number put together from its parts: the sign, the digits
/// before the point, the point with the digits behind it, and the exponent.
pub open spec fn spelling(
    negative: bool,
    whole: Seq<char>,
    fraction: Option<Seq<char>>,
    exponent: Option<Seq<char>>,
) -> Seq<char> {
    let sign = if negative {
        seq!['-']
    } else {
        Seq::empty()
    };
    let behind = match fraction {
        Some(digits) => seq!['.'] + digits,
        None => Seq::empty(),
    };
    let power = match exponent {
        Some(digits) => seq!['e', '-'] + digits,
        None => Seq::empty(),
    };
    sign + whole + behind + power
}

/// Whether the parts are those of a number: digits alone, at least one of
/// them before the exponent, and at least one in the exponent where there is
/// one.
pub open spec fn well_spelled(
    whole: Seq<char>,
    fraction: Option<Seq<char>>,
    exponent: Option<Seq<char>>,
) -> bool {
    &&& all_digits(whole)
    &&& match fraction {
        Some(digits) => all_digits(digits) && whole.len() + digits.len() >= 1,
        None => whole.len() >= 1,
    }
    &&& match exponent {
        Some(digits) => all_digits(digits) && digits.len() >= 1,
        None => true,
    }
}

/// Whatever is put together from the parts of a number spells a number.
pub proof fn lemma_spelling_is_number(
    negative: bool,
    whole: Seq<char>,
    fraction: Option<Seq<char>>,
    exponent: Option<Seq<char>>,
)
    requires
        well_spelled(whole, fraction, exponent),
    ensures
        is_number(spelling(negative, whole, fraction, exponent)),
{
    let text = spelling(negative, whole, fraction, exponent);
    let start: int = if negative {
        1
    } else {
        0
    };
    let point = start + whole.len();
    let after = match fraction {
        Some(digits) => point + 1,
        None => point,
    };
    let mark = match fraction {
        Some(digits) => after + digits.len(),
        None => after,
    };
    assert forall|i: int| start <= i < point implies is_digit(#[trigger] text[i]) by {
        assert(text[i] == whole[i - start]);
    }
    if fraction is Some {
        assert(text[point] == '.');
        assert forall|i: int| after <= i < mark implies is_digit(#[trigger] text[i]) by {
            assert(text[i] == fraction->0[i - after]);
        }
    }
    match exponent {
        Some(digits) => {
            assert(text[mark] == 'e');
            assert(text[mark + 1] == '-');
            assert forall|i: int| mark + 2 <= i < text.len() implies is_digit(
                #[trigger] text[i],
            ) by {
                assert(text[i] == digits[i - mark - 2]);
            }
            lemma_digits_end(text, mark + 2, text.len() as int);
        },
        None => {},
    }
    if start < text.len() {
        assert(negative ==> text[0] == '-');
        assert(!negative ==> text[0] != '-') by {
            if !negative {
                if whole.len() > 0 {
                    assert(text[0] == whole[0]);
                } else {
                    assert(text[0] == '.');
                }
            }
        }
    }
    lemma_digits_end(text, start, point);
    lemma_digits_end(text, after, mark);
}

/// Every number can be put together from the parts of a number.
pub proof fn lemma_number_has_parts(text: Seq<char>)
    requires
        is_number(text),
    ensures
        exists|negative: bool, whole: Seq<char>, fraction: Option<Seq<char>>, exponent: Option<Seq<char>>|
            well_spelled(whole, fraction, exponent) && text == #[trigger] spelling(
                negative,
                whole,
                fraction,
                exponent,
            ),
{
    let start = if text.len() > 0 && text[0] == '-' {
        1int
    } else {
        0int
    };
    lemma_digits_run(text, start);
    let point = digits_end(text, start);
    let dotted = point < text.len() && text[point] == '.';
    let after = if dotted {
        point + 1
    } else {
        point
    };
    lemma_digits_run(text, after);
    let mark = digits_end(text, after);
    let negative = start == 1;
    let whole = text.subrange(start, point);
    let fraction = if dotted {
        Some(text.subrange(after, mark))
    } else {
        None
    };
    let exponent = if mark < text.len() {
        Some(text.subrange(mark + 2, text.len() as int))
    } else {
        None
    };
    if mark < text.len() {
        lemma_digits_run(text, mark + 2);
    }
    assert(text =~= spelling(negative, whole, fraction, exponent));
    assert(well_spelled(whole, fraction, exponent));
}

/// Whether the bytes are the characters of `text`, one for one.
spec fn spelled_by(text: Seq<char>, bytes: Seq<u8>) -> bool {
    &&& bytes.len() == text.len()
    &&& forall|i: int| 0 <= i < text.len() ==> (#[trigger] bytes[i]) as int == text[i] as int
}

/// The bytes of a text of ASCII are its characters.
proof fn lemma_ascii_bytes(text: &str)
    requires
        is_ascii_chars(text@),
    ensures
        spelled_by(text@, text.spec_bytes()),
{
    is_ascii_spec_bytes(text);
    assert forall|i: int| 0 <= i < text@.len() implies (#[trigger] text.spec_bytes()[i]) as int
        == text@[i] as int by {
        assert('\0' <= text@[i] <= '\u{7f}');
    }
}

/// Whether the byte is one of the ten digits.
fn is_digit_byte(byte: u8) -> (digit: bool)
    ensures
        digit == (48 <= byte <= 57),
{
    48 <= byte && byte <= 57
}

/// Steps over the digits of `text` from `from` on.
fn skip_digits(text: &str, from: usize) -> (end: usize)
    requires
        is_ascii_chars(text@),
        from <= text@.len(),
    ensures
        end == digits_end(text@, from as int),
        from <= end <= text@.len(),
{
    let bytes: &[u8] = text.as_bytes();
    proof {
        lemma_ascii_bytes(text);
    }
    let len: usize = bytes.len();
    let mut end: usize = from;
    while end < len && is_digit_byte(bytes[end])
        invariant
            from <= end <= len,
            len == text@.len(),
            spelled_by(text@, bytes@),
            forall|i: int| from <= i < end ==> is_digit(#[trigger] text@[i]),
        decreases len - end,
    {
        assert(bytes@[end as int] as int == text@[end as int] as int);
        end += 1;
    }
    proof {
        if end < len {
            assert(bytes@[end as int] as int == text@[end as int] as int);
        }
        lemma_digits_end(text@, from as int, end as int);
    }
    end
}

/// Whether the character of `text` at `at` is the one with the code `byte`.
fn byte_is(text: &str, at: usize, byte: u8) -> (same: bool)
    requires
        is_ascii_chars(text@),
        byte < 128,
    ensures
        same == (at < text@.len() && text@[at as int] as int == byte),
{
    let bytes: &[u8] = text.as_bytes();
    proof {
        lemma_ascii_bytes(text);
    }
    if at < bytes.len() {
        assert(bytes@[at as int] as int == text@[at as int] as int);
        bytes[at] == byte
    } else {
        false
    }
}

/// Whether `text` spells a decimal number.
pub fn spells_number(text: &str) -> (number: bool)
    ensures
        number == is_number(text@),
{
    if !text.is_ascii() {
        proof {
            if is_number(text@) {
                lemma_number_is_ascii(text@);
            }
        }
        return false;
    }
    let len: usize = text.unicode_len();
    let whole: usize = if byte_is(text, 0, 45) {
        1
    } else {
        0
    };
    let point: usize = skip_digits(text, whole);
    let fraction: usize = if byte_is(text, point, 46) {
        point + 1
    } else {
        point
    };
    let mark: usize = skip_digits(text, fraction);
    if (point - whole) + (mark - fraction) < 1 {
        return false;
    }
    if mark == len {
        return true;
    }
    if len - mark > 2 && byte_is(text, mark, 101) && byte_is(text, mark + 1, 45) {
        let end: usize = skip_digits(text, mark + 2);
        return end == len;
    }
    false
}

/// Reads `text` as an index.
pub fn parse_index(text: &str) -> (index: Option<u32>)
    ensures
        index == index_of(text@),
{
    if !text.is_ascii() {
        return None;
    }
    let bytes: &[u8] = text.as_bytes();
    proof {
        lemma_ascii_bytes(text);
    }
    let len: usize = bytes.len();
    if len == 0 {
        return None;
    }
    let mut value: u64 = 0;
    let mut i: usize = 0;
    while i < len
        invariant
            i <= len,
            len == text@.len(),
            spelled_by(text@, bytes@),
            all_digits(text@.take(i as int)),
            value == decimal(text@.take(i as int)),
            value <= u32::MAX,
        decreases len - i,
    {
        let byte: u8 = bytes[i];
        assert(bytes@[i as int] as int == text@[i as int] as int);
        if !is_digit_byte(byte) {
            assert(!is_digit(text@[i as int]));
            return None;
        }
        proof {
            assert(text@.take(i + 1).drop_last() =~= text@.take(i as int));
            assert(text@.take(i + 1).last() == text@[i as int]);
            assert forall|k: int| 0 <= k < i + 1 implies is_digit(
                #[trigger] text@.take(i + 1)[k],
            ) by {
                if k < i {
                    assert(text@.take(i as int)[k] == text@[k]);
                }
            }
        }
        value = value * 10 + (byte - 48) as u64;
        i += 1;
        if value > u32::MAX as u64 {
            proof {
                lemma_decimal_grows(text@, i as int);
            }
            return None;
        }
    }
    assert(text@.take(i as int) =~= text@);
    Some(value as u32)
}

} // verus!
