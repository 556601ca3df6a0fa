//! Strings as sequences of characters.

use vstd::prelude::*;
use vstd::string::*;

verus! {

/// `String::push` appends one character to the end of the string.
pub assume_specification[ std::string::String::push ](s: &mut std::string::String, ch: char)
    ensures
        final(s)@ == old(s)@.push(ch),
;

/// The characters of an optional string.
pub open spec fn text_of(s: Option<String>) -> Option<Seq<char>> {
    match s {
        Some(s) => Some(s@),
        None => None,
    }
}

/// The text of an optional text, empty where there is none.
pub open spec fn or_empty(text: Option<Seq<char>>) -> Seq<char> {
    match text {
        Some(t) => t,
        None => Seq::empty(),
    }
}

/// The string in `text`, or the empty string.
pub fn unwrap_or_empty(text: Option<String>) -> (r: String)
    ensures
        r@ == or_empty(text_of(text)),
{
    match text {
        Some(t) => t,
        None => String::new(),
    }
}

/// The characters of `s`, in order.
pub fn chars_of(s: &str) -> (v: Vec<char>)
    ensures
        v@ == s@,
{
    let mut v: Vec<char> = Vec::new();
    for c in it: s.chars()
        invariant
            v@ == it.seq().take(it.index()),
            it.seq() == s@,
    {
        v.push(c);
    }
    v
}

/// The string made of the characters of `text` from `from` up to `to`.
pub fn string_of(text: &[char], from: usize, to: usize) -> (s: String)
    requires
        from <= to <= text@.len(),
    ensures
        s@ == text@.subrange(from as int, to as int),
{
    let mut s = String::new();
    let mut i: usize = from;
    while i < to
        invariant
            from <= i <= to <= text@.len(),
            s@ == text@.subrange(from as int, i as int),
        decreases to - i,
    {
        s.push(text[i]);
        i = i + 1;
    }
    s
}

/// Whether the text from `pos` on begins with `key`.
pub fn has_prefix_at(text: &[char], pos: usize, key: &str) -> (r: bool)
    requires
        pos <= text@.len(),
    ensures
        r == key@.is_prefix_of(text@.skip(pos as int)),
{
    let n = key.unicode_len();
    if n > text.len() - pos {
        return false;
    }
    let mut j: usize = 0;
    while j < n
        invariant
            j <= n,
            n == key@.len(),
            pos + n <= text@.len() <= usize::MAX,
            forall|k: int| 0 <= k < j ==> key@[k] == text@[pos + k],
        decreases n - j,
    {
        if key.get_char(j) != text[pos + j] {
            assert(key@[j as int] != text@.skip(pos as int).subrange(0, key@.len() as int)[j as int]);
            return false;
        }
        j = j + 1;
    }
    assert(key@ =~= text@.skip(pos as int).subrange(0, key@.len() as int));
    true
}

/// Whether the characters of `text` from `from` up to `to` are those of
/// `key`.
pub fn text_equals(text: &[char], from: usize, to: usize, key: &str) -> (r: bool)
    requires
        from <= to <= text@.len(),
    ensures
        r == (key@ == text@.subrange(from as int, to as int)),
{
    let n = key.unicode_len();
    if n != to - from {
        return false;
    }
    let r = has_prefix_at(text, from, key);
    assert(text@.skip(from as int).subrange(0, n as int) == text@.subrange(from as int, to as int));
    r
}

/// The place of the first `c` in `s`, or the length of `s` where it holds
/// none.
pub open spec fn first_index(s: Seq<char>, c: char) -> int
    decreases s.len(),
{
    if s.len() == 0 || s[0] == c {
        0
    } else {
        1 + first_index(s.skip(1), c)
    }
}

/// The first `c` lies within the text, and no `c` comes before it.
pub proof fn lemma_first_index(s: Seq<char>, c: char)
    ensures
        0 <= first_index(s, c) <= s.len(),
        first_index(s, c) < s.len() ==> s[first_index(s, c)] == c,
        forall|i: int| 0 <= i < first_index(s, c) ==> s[i] != c,
    decreases s.len(),
{
    if s.len() > 0 && s[0] != c {
        lemma_first_index(s.skip(1), c);
        assert forall|i: int| 0 <= i < first_index(s, c) implies s[i] != c by {
            if i > 0 {
                assert(s.skip(1)[i - 1] == s[i]);
            }
        }
    }
}

/// The first `c` is the one place that holds a `c` and has none before it.
pub proof fn lemma_first_index_is(s: Seq<char>, c: char, at: int)
    requires
        0 <= at <= s.len(),
        at < s.len() ==> s[at] == c,
        forall|i: int| 0 <= i < at ==> s[i] != c,
    ensures
        first_index(s, c) == at,
{
    lemma_first_index(s, c);
}

/// The place of the first `c` in `text`, or the length of `text` where it
/// holds none.
pub fn find_char(text: &[char], c: char) -> (at: usize)
    ensures
        at == first_index(text@, c),
        at <= text@.len(),
{
    let mut at: usize = 0;
    while at < text.len() && text[at] != c
        invariant
            at <= text@.len(),
            forall|i: int| 0 <= i < at ==> text@[i] != c,
        decreases text@.len() - at,
    {
        at = at + 1;
    }
    proof {
        lemma_first_index_is(text@, c, at as int);
    }
    at
}

} // verus!
