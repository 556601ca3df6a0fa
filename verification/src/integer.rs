//! Whole numbers as text: base ten, with a `-` before a negative number.

use vstd::prelude::*;

use crate::digits::{
    all_digits, char_to_digit, digit_char, digit_to_char, digits_of, digits_value, is_digit,
    lemma_digits_of,
};
use crate::text::chars_of;

verus! {

/// The text of `n`: its digits, after a `-` where `n` is negative.
pub open spec fn integer_text(n: int) -> Seq<char> {
    if n < 0 {
        seq!['-'] + digits_of((-n) as nat)
    } else {
        digits_of(n as nat)
    }
}

/// Whether `s` begins with a `-`.
pub open spec fn has_sign(s: Seq<char>) -> bool {
    s.len() > 0 && s[0] == '-'
}

/// `s` without its `-`, if it begins with one.
pub open spec fn unsigned_part(s: Seq<char>) -> Seq<char> {
    if has_sign(s) {
        s.skip(1)
    } else {
        s
    }
}

/// Whether `s` writes a whole number: an optional `-`, then one digit or
/// more, and nothing else.
pub open spec fn is_integer_literal(s: Seq<char>) -> bool {
    unsigned_part(s).len() > 0 && all_digits(unsigned_part(s))
}

/// The number that the literal `s` writes.
pub open spec fn integer_literal_value(s: Seq<char>) -> int {
    if has_sign(s) {
        -(digits_value(unsigned_part(s)) as int)
    } else {
        digits_value(unsigned_part(s)) as int
    }
}

/// The 32-bit number that `s` writes, if `s` is a literal of one.
pub open spec fn parsed_integer(s: Seq<char>) -> Option<i32> {
    if is_integer_literal(s) && i32::MIN <= integer_literal_value(s) <= i32::MAX {
        Some(integer_literal_value(s) as i32)
    } else {
        None
    }
}

/// Digits that follow others only add to what they write.
pub proof fn lemma_digits_value_grows(s: Seq<char>, n: int)
    requires
        0 <= n <= s.len(),
    ensures
        digits_value(s.take(n)) <= digits_value(s),
    decreases s.len() - n,
{
    if n == s.len() {
        assert(s.take(n) == s);
    } else {
        lemma_digits_value_grows(s.drop_last(), n);
        assert(s.drop_last().take(n) == s.take(n));
    }
}

/// Appends the digits of `n` to `out`.
fn push_digits(out: &mut String, n: u32)
    ensures
        final(out)@ == old(out)@ + digits_of(n as nat),
    decreases n,
{
    if n >= 10 {
        push_digits(out, n / 10);
    }
    out.push(digit_to_char((n % 10) as u8));
    proof {
        if n < 10 {
            assert(old(out)@.push(digit_char((n % 10) as int)) == old(out)@ + digits_of(n as nat));
        } else {
            assert((old(out)@ + digits_of((n / 10) as nat)).push(digit_char((n % 10) as int)) == old(out)@
                + digits_of(n as nat));
        }
    }
}

/// The text of `n` in base ten; the sign is kept.
pub fn format_integer(n: i32) -> (r: String)
    ensures
        r@ == integer_text(n as int),
{
    let mut out = String::new();
    if n < 0 {
        out.push('-');
        let magnitude: u32 = (-(n as i64)) as u32;
        push_digits(&mut out, magnitude);
        assert(out@ == seq!['-'] + digits_of((-n) as nat));
    } else {
        push_digits(&mut out, n as u32);
        assert(out@ == digits_of(n as nat));
    }
    out
}

/// The number that the characters `text` write, if they are a literal of a
/// 32-bit number.
pub fn parse_integer_chars(text: &[char]) -> (r: Option<i32>)
    ensures
        r == parsed_integer(text@),
{
    let negative = text.len() > 0 && text[0] == '-';
    let start: usize = if negative {
        1
    } else {
        0
    };
    let ghost body = unsigned_part(text@);
    assert(body == text@.skip(start as int));
    if start == text.len() {
        return None;
    }
    let limit: u64 = 2147483648;
    let mut total: u64 = 0;
    let mut i: usize = start;
    assert(body.take(0) == Seq::<char>::empty());
    while i < text.len()
        invariant
            start <= i <= text@.len(),
            body == text@.skip(start as int),
            body == unsigned_part(text@),
            limit == 2147483648,
            total <= limit,
            all_digits(body.take(i - start)),
            total == digits_value(body.take(i - start)),
        decreases text@.len() - i,
    {
        let ghost before = body.take(i - start);
        let ghost after = body.take(i - start + 1);
        assert(after.drop_last() == before);
        assert(after.last() == text@[i as int]);
        match char_to_digit(text[i]) {
            Some(d) => {
                total = total * 10 + d as u64;
                assert(total == digits_value(after));
                if total > limit {
                    proof {
                        lemma_digits_value_grows(body, i - start + 1);
                    }
                    return None;
                }
            },
            None => {
                assert(!is_digit(body[i - start]));
                return None;
            },
        }
        i = i + 1;
    }
    assert(body.take(i - start) == body);
    if negative {
        Some((-(total as i64)) as i32)
    } else if total == limit {
        None
    } else {
        Some(total as i32)
    }
}

/// The number that `text` writes, if it is a literal of a 32-bit number: an
/// optional `-`, then digits.
pub fn parse_integer(text: &str) -> (r: Option<i32>)
    ensures
        r == parsed_integer(text@),
{
    let chars = chars_of(text);
    parse_integer_chars(chars.as_slice())
}

/// Reading what was written gives the number back.
pub proof fn lemma_integer_round_trip(n: i32)
    ensures
        parsed_integer(integer_text(n as int)) == Some(n),
{
    let s = integer_text(n as int);
    if n < 0 {
        lemma_digits_of((-n) as nat);
        assert(s.skip(1) == digits_of((-n) as nat));
    } else {
        lemma_digits_of(n as nat);
        assert(is_digit(s[0]));
    }
}

} // verus!
