//! Decimal numbers as they stand on a command line.
//!
//! A [`Decimal`] is a number written with an optional `-`, digits, and an
//! optional fraction after a dot. It is kept in its shortest form: the whole
//! part has no zero before its first digit and the fraction has none after
//! its last, so `1.0` is kept and written as `1`, and `0.50` as `0.5`. The
//! sign is kept as written.

use vstd::prelude::*;
use vstd::string::*;

use crate::digits::{all_digits, char_to_digit, is_digit};
use crate::integer::{has_sign, unsigned_part};
use crate::text::{chars_of, first_index, lemma_first_index, lemma_first_index_is, string_of};

verus! {

/// A decimal number as mathematics sees it: a sign, the digits before the
/// dot and the digits after it.
pub struct DecimalText {
    /// Whether a `-` stands before the number.
    pub negative: bool,
    /// The digits before the dot.
    pub whole: Seq<char>,
    /// The digits after the dot; empty where there is no fraction.
    pub fraction: Seq<char>,
}

impl DecimalText {
    /// Whether the number is in its shortest form: digits only, at least
    /// one before the dot, no zero before the first digit but for a lone
    /// `0`, no zero at the end of the fraction.
    pub open spec fn well_formed(self) -> bool {
        &&& self.whole.len() >= 1
        &&& all_digits(self.whole)
        &&& all_digits(self.fraction)
        &&& (self.whole.len() > 1 ==> self.whole[0] != '0')
        &&& (self.fraction.len() > 0 ==> self.fraction.last() != '0')
    }

    /// The number as text: the sign, the whole part, and after a dot the
    /// fraction where there is one.
    pub open spec fn text(self) -> Seq<char> {
        let sign = if self.negative {
            seq!['-']
        } else {
            Seq::<char>::empty()
        };
        let tail = if self.fraction.len() > 0 {
            seq!['.'] + self.fraction
        } else {
            Seq::<char>::empty()
        };
        sign + self.whole + tail
    }
}

/// The place of the first dot in `s`, or the length of `s` where it holds
/// none.
pub open spec fn first_dot(s: Seq<char>) -> int {
    first_index(s, '.')
}

/// What stands before the first dot of the unsigned part of `s`.
pub open spec fn literal_whole(s: Seq<char>) -> Seq<char> {
    unsigned_part(s).take(first_dot(unsigned_part(s)))
}

/// What stands after the first dot of the unsigned part of `s`; empty where
/// there is no dot.
pub open spec fn literal_fraction(s: Seq<char>) -> Seq<char> {
    let body = unsigned_part(s);
    if first_dot(body) < body.len() {
        body.skip(first_dot(body) + 1)
    } else {
        Seq::empty()
    }
}

/// Whether `s` writes a decimal number: an optional `-`, one digit or more,
/// and then nothing or a dot and one digit or more.
pub open spec fn is_decimal_literal(s: Seq<char>) -> bool {
    let body = unsigned_part(s);
    &&& literal_whole(s).len() >= 1
    &&& all_digits(literal_whole(s))
    &&& all_digits(literal_fraction(s))
    &&& (first_dot(body) < body.len() ==> literal_fraction(s).len() >= 1)
}

/// `s` without the zeros at its head; the last character always stays.
pub open spec fn trim_leading_zeros(s: Seq<char>) -> Seq<char>
    decreases s.len(),
{
    if s.len() > 1 && s[0] == '0' {
        trim_leading_zeros(s.skip(1))
    } else {
        s
    }
}

/// `s` without the zeros at its end.
pub open spec fn trim_trailing_zeros(s: Seq<char>) -> Seq<char>
    decreases s.len(),
{
    if s.len() > 0 && s.last() == '0' {
        trim_trailing_zeros(s.drop_last())
    } else {
        s
    }
}

/// The number that `s` writes, in its shortest form, if `s` is a decimal
/// literal.
pub open spec fn decimal_of(s: Seq<char>) -> Option<DecimalText> {
    if is_decimal_literal(s) {
        Some(
            DecimalText {
                negative: has_sign(s),
                whole: trim_leading_zeros(literal_whole(s)),
                fraction: trim_trailing_zeros(literal_fraction(s)),
            },
        )
    } else {
        None
    }
}

/// Trimming keeps digits digits, keeps one character at least, and leaves
/// no zero at the head but a lone one.
pub proof fn lemma_trim_leading_zeros(s: Seq<char>)
    requires
        s.len() >= 1,
        all_digits(s),
    ensures
        trim_leading_zeros(s).len() >= 1,
        all_digits(trim_leading_zeros(s)),
        trim_leading_zeros(s).len() > 1 ==> trim_leading_zeros(s)[0] != '0',
        (s.len() > 1 ==> s[0] != '0') ==> trim_leading_zeros(s) == s,
    decreases s.len(),
{
    if s.len() > 1 && s[0] == '0' {
        assert forall|i: int| 0 <= i < s.skip(1).len() implies is_digit(#[trigger] s.skip(1)[i]) by {
            assert(s.skip(1)[i] == s[i + 1]);
        }
        lemma_trim_leading_zeros(s.skip(1));
    }
}

/// Trimming keeps digits digits and leaves no zero at the end.
pub proof fn lemma_trim_trailing_zeros(s: Seq<char>)
    requires
        all_digits(s),
    ensures
        all_digits(trim_trailing_zeros(s)),
        trim_trailing_zeros(s).len() > 0 ==> trim_trailing_zeros(s).last() != '0',
        (s.len() > 0 ==> s.last() != '0') ==> trim_trailing_zeros(s) == s,
    decreases s.len(),
{
    if s.len() > 0 && s.last() == '0' {
        assert forall|i: int| 0 <= i < s.drop_last().len() implies is_digit(
            #[trigger] s.drop_last()[i],
        ) by {
            assert(s.drop_last()[i] == s[i]);
        }
        lemma_trim_trailing_zeros(s.drop_last());
    }
}

/// What a literal writes is in its shortest form.
pub proof fn lemma_decimal_of_well_formed(s: Seq<char>)
    requires
        is_decimal_literal(s),
    ensures
        decimal_of(s)->0.well_formed(),
{
    lemma_trim_leading_zeros(literal_whole(s));
    lemma_trim_trailing_zeros(literal_fraction(s));
}

/// Reading what was written gives the number back: the text of a number in
/// its shortest form is a literal, and it writes that number.
pub proof fn lemma_decimal_round_trip(d: DecimalText)
    requires
        d.well_formed(),
    ensures
        decimal_of(d.text()) == Some(d),
{
    let t = d.text();
    let body = unsigned_part(t);
    let tail = if d.fraction.len() > 0 {
        seq!['.'] + d.fraction
    } else {
        Seq::<char>::empty()
    };
    assert(is_digit(d.whole[0]));
    if d.negative {
        assert(t[0] == '-');
    } else {
        assert(t[0] == d.whole[0]);
    }
    assert(has_sign(t) == d.negative);
    assert(body == d.whole + tail);
    assert forall|i: int| 0 <= i < d.whole.len() implies body[i] != '.' by {
        assert(is_digit(d.whole[i]));
    }
    lemma_first_index_is(body, '.', d.whole.len() as int);
    assert(literal_whole(t) == d.whole);
    assert(literal_fraction(t) == d.fraction);
    lemma_trim_leading_zeros(d.whole);
    lemma_trim_trailing_zeros(d.fraction);
}

/// In a text that begins with `n` digits and goes on with something else,
/// or ends there, the first dot stands at `n` or later; it stands at `n`
/// where the text ends there or has a dot there.
pub proof fn lemma_whole_part(body: Seq<char>, n: int)
    requires
        0 <= n <= body.len(),
        forall|i: int| 0 <= i < n ==> is_digit(#[trigger] body[i]),
        n < body.len() ==> !is_digit(body[n]),
    ensures
        first_dot(body) >= n,
        n == body.len() || body[n] == '.' ==> first_dot(body) == n,
        n < body.len() && body[n] != '.' ==> !all_digits(body.take(first_dot(body))),
{
    lemma_first_index(body, '.');
    let f = first_dot(body);
    if f < n {
        assert(is_digit(body[f]));
    }
    if n == body.len() || body[n] == '.' {
        assert forall|i: int| 0 <= i < n implies body[i] != '.' by {
            assert(is_digit(body[i]));
        }
        lemma_first_index_is(body, '.', n);
    } else {
        assert(f > n);
        assert(body.take(f)[n] == body[n]);
    }
}

/// The end of the digits that begin at `from`.
fn digits_end(text: &[char], from: usize) -> (end: usize)
    requires
        from <= text@.len(),
    ensures
        from <= end <= text@.len(),
        forall|i: int| from <= i < end ==> is_digit(#[trigger] text@[i]),
        all_digits(text@.subrange(from as int, end as int)),
        end < text@.len() ==> !is_digit(text@[end as int]),
{
    let mut end: usize = from;
    while end < text.len() && char_to_digit(text[end]).is_some()
        invariant
            from <= end <= text@.len(),
            forall|i: int| from <= i < end ==> is_digit(#[trigger] text@[i]),
        decreases text@.len() - end,
    {
        end = end + 1;
    }
    assert forall|i: int| 0 <= i < end - from implies is_digit(
        #[trigger] text@.subrange(from as int, end as int)[i],
    ) by {
        assert(is_digit(text@[from + i]));
    }
    end
}

/// The place behind the zeros at the head of the characters from `from` up
/// to `to`, the last of which always stays.
fn skip_zeros(text: &[char], from: usize, to: usize) -> (first: usize)
    requires
        from < to <= text@.len(),
    ensures
        from <= first < to,
        trim_leading_zeros(text@.subrange(from as int, to as int)) == text@.subrange(
            first as int,
            to as int,
        ),
{
    let mut first: usize = from;
    while first + 1 < to && text[first] == '0'
        invariant
            from <= first < to <= text@.len(),
            trim_leading_zeros(text@.subrange(from as int, to as int)) == trim_leading_zeros(
                text@.subrange(first as int, to as int),
            ),
        decreases to - first,
    {
        assert(text@.subrange(first as int, to as int).skip(1) == text@.subrange(
            first + 1,
            to as int,
        ));
        first = first + 1;
    }
    first
}

/// The place before the zeros at the end of the characters from `from` up
/// to `to`.
fn drop_zeros(text: &[char], from: usize, to: usize) -> (end: usize)
    requires
        from <= to <= text@.len(),
    ensures
        from <= end <= to,
        trim_trailing_zeros(text@.subrange(from as int, to as int)) == text@.subrange(
            from as int,
            end as int,
        ),
{
    let mut end: usize = to;
    while end > from && text[end - 1] == '0'
        invariant
            from <= end <= to <= text@.len(),
            trim_trailing_zeros(text@.subrange(from as int, to as int)) == trim_trailing_zeros(
                text@.subrange(from as int, end as int),
            ),
        decreases end,
    {
        assert(text@.subrange(from as int, end as int).drop_last() == text@.subrange(
            from as int,
            end - 1,
        ));
        end = end - 1;
    }
    end
}

/// A decimal number in its shortest form.
#[derive(Debug, PartialEq, Eq)]
pub struct Decimal {
    negative: bool,
    whole: String,
    fraction: String,
}

impl View for Decimal {
    type V = DecimalText;

    closed spec fn view(&self) -> DecimalText {
        DecimalText { negative: self.negative, whole: self.whole@, fraction: self.fraction@ }
    }
}

impl Decimal {
    /// A `Decimal` is always in its shortest form.
    #[verifier::type_invariant]
    pub open spec fn shortest(&self) -> bool {
        self@.well_formed()
    }

    /// The number that the characters `text` write, if they are a decimal
    /// literal.
    pub fn parse_chars(text: &[char]) -> (r: Option<Decimal>)
        ensures
            match decimal_of(text@) {
                Some(d) => r matches Some(found) && found@ == d,
                None => r is None,
            },
    {
        let negative = text.len() > 0 && text[0] == '-';
        let start: usize = if negative {
            1
        } else {
            0
        };
        let ghost body = unsigned_part(text@);
        assert(body == text@.skip(start as int));
        // The whole part runs up to the first dot.
        let dot = digits_end(text, start);
        proof {
            lemma_whole_part(body, dot - start);
            assert(body.take(dot - start) == text@.subrange(start as int, dot as int));
        }
        if dot == start {
            return None;
        }
        if dot < text.len() && text[dot] != '.' {
            return None;
        }
        // The fraction, where there is one, runs from behind the dot to the end.
        let frac_start: usize = if dot < text.len() {
            dot + 1
        } else {
            dot
        };
        assert(literal_fraction(text@) == text@.subrange(frac_start as int, text@.len() as int));
        if dot < text.len() && frac_start == text.len() {
            return None;
        }
        let frac_end = digits_end(text, frac_start);
        if frac_end < text.len() {
            assert(literal_fraction(text@)[frac_end - frac_start] == text@[frac_end as int]);
            return None;
        }
        assert(is_decimal_literal(text@));
        // Drop the zeros that say nothing.
        let first = skip_zeros(text, start, dot);
        let end = drop_zeros(text, frac_start, frac_end);
        proof {
            lemma_decimal_of_well_formed(text@);
        }
        Some(
            Decimal {
                negative,
                whole: string_of(text, first, dot),
                fraction: string_of(text, frac_start, end),
            },
        )
    }

    /// The number that `text` writes, if it is a decimal literal: an
    /// optional `-`, digits, and then nothing or a dot and digits.
    pub fn parse(text: &str) -> (r: Option<Decimal>)
        ensures
            match decimal_of(text@) {
                Some(d) => r matches Some(found) && found@ == d,
                None => r is None,
            },
    {
        let chars = chars_of(text);
        Decimal::parse_chars(chars.as_slice())
    }

    /// The number as text, in its shortest form: no dot where the fraction
    /// is zero, the sign kept.
    pub fn to_text(&self) -> (r: String)
        ensures
            self@.well_formed(),
            r@ == self@.text(),
    {
        proof {
            use_type_invariant(self);
        }
        let mut out = String::new();
        if self.negative {
            out.push('-');
        }
        out.append(self.whole.as_str());
        if !self.fraction.as_str().is_empty() {
            out.push('.');
            out.append(self.fraction.as_str());
        }
        assert(out@ == self@.text());
        out
    }

    /// A second number, equal to this one.
    pub fn duplicate(&self) -> (r: Decimal)
        ensures
            r@ == self@,
    {
        proof {
            use_type_invariant(self);
        }
        Decimal {
            negative: self.negative,
            whole: self.whole.clone(),
            fraction: self.fraction.clone(),
        }
    }

    /// Whether a `-` stands before the number.
    pub fn is_negative(&self) -> (r: bool)
        ensures
            r == self@.negative,
            self@.well_formed(),
    {
        proof {
            use_type_invariant(self);
        }
        self.negative
    }
}

impl Clone for Decimal {
    fn clone(&self) -> (r: Self)
        ensures
            r@ == self@,
    {
        self.duplicate()
    }
}

} // verus!
