//! Decimal notation: numbers to text and text to numbers.

use vstd::prelude::*;

verus! {

/// Whether `c` is one of the ten digits `0` to `9`.
pub open spec fn is_digit(c: char) -> bool {
    '0' <= c <= '9'
}

/// The number that the digit `c` stands for.
pub open spec fn digit_value(c: char) -> int {
    c as int - '0' as int
}

/// The digit that stands for `d`, a number from 0 to 9.
pub open spec fn digit_char(d: int) -> char {
    ('0' as int + d) as char
}

/// The number that a run of digits denotes, read as decimal notation. Leading
/// zeros count for nothing, and so does the empty run.
pub open spec fn digits_value(digits: Seq<char>) -> nat
    decreases digits.len(),
{
    if digits.len() == 0 {
        0
    } else {
        (digits_value(digits.drop_last()) * 10 + digit_value(digits.last())) as nat
    }
}

/// Whether `text` holds digits only.
pub open spec fn all_digits(text: Seq<char>) -> bool {
    forall|i: int| 0 <= i < text.len() ==> is_digit(#[trigger] text[i])
}

/// `text` without its first character where that is a `+`.
pub open spec fn without_plus(text: Seq<char>) -> Seq<char> {
    if text.len() > 0 && text[0] == '+' {
        text.drop_first()
    } else {
        text
    }
}

/// The digits of an unsigned number in `text`: the whole of it, or what
/// follows one leading `+`, provided that this is one digit or more and
/// nothing but digits.
pub open spec fn unsigned_digits(text: Seq<char>) -> Option<Seq<char>> {
    let digits = without_plus(text);
    if digits.len() > 0 && all_digits(digits) {
        Some(digits)
    } else {
        None
    }
}

/// The number that `text` denotes as a `usize`: `None` where `text` is no
/// unsigned number in decimal notation, or one beyond `usize::MAX`.
pub open spec fn parsed_usize(text: Seq<char>) -> Option<usize> {
    match unsigned_digits(text) {
        Some(digits) => if digits_value(digits) <= usize::MAX {
            Some(digits_value(digits) as usize)
        } else {
            None
        },
        None => None,
    }
}

/// `n` in decimal notation: its digits without leading zeros, and `0` for
/// zero.
pub open spec fn decimal_digits(n: nat) -> Seq<char>
    decreases n,
{
    if n < 10 {
        seq![digit_char(n as int)]
    } else {
        decimal_digits(n / 10).push(digit_char((n % 10) as int))
    }
}

/// `n` in decimal notation, with a `-` in front where it is negative.
pub open spec fn decimal_text(n: int) -> Seq<char> {
    if n < 0 {
        seq!['-'] + decimal_digits((-n) as nat)
    } else {
        decimal_digits(n as nat)
    }
}

/// Decimal notation reads back as the number it was written for.
pub proof fn decimal_digits_read_back(n: nat)
    ensures
        decimal_digits(n).len() >= 1,
        all_digits(decimal_digits(n)),
        digits_value(decimal_digits(n)) == n,
        unsigned_digits(decimal_digits(n)) == Some(decimal_digits(n)),
        n <= usize::MAX ==> parsed_usize(decimal_digits(n)) == Some(n as usize),
    decreases n,
{
    let digits = decimal_digits(n);
    if n < 10 {
        assert(digits_value(digits.drop_last()) == 0);
    } else {
        decimal_digits_read_back(n / 10);
        assert(digits.drop_last() =~= decimal_digits(n / 10));
    }
}

/// A longer run of digits denotes no smaller a number than its beginning.
pub proof fn digits_value_grows(digits: Seq<char>, len: int)
    requires
        0 <= len <= digits.len(),
        all_digits(digits),
    ensures
        digits_value(digits.take(len)) <= digits_value(digits),
    decreases digits.len() - len,
{
    if len == digits.len() {
        assert(digits.take(len) =~= digits);
    } else {
        assert(digits.drop_last().take(len) =~= digits.take(len));
        digits_value_grows(digits.drop_last(), len);
    }
}

/// Reads `text` as an unsigned number in decimal notation: an optional `+`,
/// then digits only, at least one.
pub fn parse_usize(text: &str) -> (value: Option<usize>)
    ensures
        value == parsed_usize(text@),
{
    let mut value: usize = 0;
    let mut at_start = true;
    let mut any_digit = false;
    let ghost mut start: int = 0;
    for c in iter: text.chars()
        invariant
            iter.seq() == text@,
            at_start == (iter.index() == 0),
            0 <= start <= iter.index(),
            start == if iter.index() > 0 && text@[0] == '+' { 1int } else { 0int },
            any_digit == (iter.index() > start),
            all_digits(text@.subrange(start, iter.index() as int)),
            value == digits_value(text@.subrange(start, iter.index() as int)),
    {
        let ghost position = iter.index() as int;
        let ghost skipped: int = if text@[0] == '+' {
            1
        } else {
            0
        };
        let ghost digits = without_plus(text@);
        if at_start && c == '+' {
            proof {
                start = 1;
            }
        } else if '0' <= c && c <= '9' {
            let digit = (c as u32 - '0' as u32) as usize;
            assert(text@.subrange(start, position + 1).drop_last() =~= text@.subrange(
                start,
                position,
            ));
            proof {
                // Should the digits go on to the end, they denote no less than
                // those read so far.
                if all_digits(digits) {
                    digits_value_grows(digits, position + 1 - skipped);
                    assert(digits.take(position + 1 - skipped) =~= text@.subrange(
                        start,
                        position + 1,
                    ));
                }
            }
            let shifted = match value.checked_mul(10) {
                Some(shifted) => shifted,
                None => {
                    return None;
                },
            };
            value = match shifted.checked_add(digit) {
                Some(sum) => sum,
                None => {
                    return None;
                },
            };
            any_digit = true;
        } else {
            assert(!is_digit(digits[position - skipped]));
            return None;
        }
        at_start = false;
    }
    assert(without_plus(text@) =~= text@.subrange(start, text@.len() as int));
    if any_digit {
        Some(value)
    } else {
        None
    }
}

/// The text of one digit.
fn digit_text(digit: u64) -> (text: &'static str)
    requires
        digit < 10,
    ensures
        text@ == seq![digit_char(digit as int)],
{
    proof {
        reveal_strlit("0");
        reveal_strlit("1");
        reveal_strlit("2");
        reveal_strlit("3");
        reveal_strlit("4");
        reveal_strlit("5");
        reveal_strlit("6");
        reveal_strlit("7");
        reveal_strlit("8");
        reveal_strlit("9");
    }
    match digit {
        0 => "0",
        1 => "1",
        2 => "2",
        3 => "3",
        4 => "4",
        5 => "5",
        6 => "6",
        7 => "7",
        8 => "8",
        _ => "9",
    }
}

/// Appends `n` in decimal notation to `out`.
pub fn append_decimal(out: &mut String, n: u64)
    ensures
        final(out)@ == old(out)@ + decimal_digits(n as nat),
    decreases n,
{
    if n >= 10 {
        append_decimal(out, n / 10);
    }
    out.append(digit_text(n % 10));
}

/// Appends `n` in decimal notation to `out`, with a `-` in front where it is
/// negative.
pub fn append_signed_decimal(out: &mut String, n: i64)
    ensures
        final(out)@ == old(out)@ + decimal_text(n as int),
{
    if n < 0 {
        proof {
            reveal_strlit("-");
        }
        out.append("-");
        let magnitude: u64 = if n == i64::MIN {
            0x8000_0000_0000_0000u64
        } else {
            (-n) as u64
        };
        append_decimal(out, magnitude);
    } else {
        append_decimal(out, n as u64);
    }
}

} // verus!
