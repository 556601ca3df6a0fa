//! What holds of the library as a whole: of substitution, whatever the
//! context and the template; of a tool's argument lists; and of writing an
//! argument and reading it again.

use vstd::prelude::*;

use crate::arg::{ArgDef, ArgFacts, ArgModel};
use crate::compiler::ArgLists;
use crate::context::{
    key_order, lemma_first_key_from, placeholder_at, recognise, CompilerContext, Placeholder,
};
use crate::parse::{find_row, parsed_arg, segment_of, token_of, ParseFailure};
use crate::text::lemma_first_index_is;
use crate::tool::{default_entries, is_base_row};
use crate::value::{lemma_payload_of_kind, lemma_payload_round_trip};

verus! {

/// The key texts, character by character.
pub proof fn lemma_key_texts()
    ensures
        Placeholder::BinDir.key() == seq!['b', 'i', 'n', 'D', 'i', 'r'],
        Placeholder::GameDir.key() == seq!['g', 'a', 'm', 'e', 'D', 'i', 'r'],
        Placeholder::MapPath.key() == seq!['m', 'a', 'p', 'P', 'a', 't', 'h'],
        Placeholder::OutDir.key() == seq!['o', 'u', 't', 'D', 'i', 'r'],
        Placeholder::MapDir.key() == seq!['m', 'a', 'p', 'D', 'i', 'r'],
        Placeholder::MapNameExt.key() == seq!['m', 'a', 'p', 'N', 'a', 'm', 'e', 'E', 'x', 't'],
        Placeholder::MapName.key() == seq!['m', 'a', 'p', 'N', 'a', 'm', 'e'],
        Placeholder::MapExt.key() == seq!['m', 'a', 'p', 'E', 'x', 't'],
        Placeholder::BspPath.key() == seq!['b', 's', 'p', 'P', 'a', 't', 'h'],
        Placeholder::File.key() == seq!['f', 'i', 'l', 'e'],
        Placeholder::Path.key() == seq!['p', 'a', 't', 'h'],
{
    reveal_strlit("binDir");
    reveal_strlit("gameDir");
    reveal_strlit("mapPath");
    reveal_strlit("outDir");
    reveal_strlit("mapDir");
    reveal_strlit("mapNameExt");
    reveal_strlit("mapName");
    reveal_strlit("mapExt");
    reveal_strlit("bspPath");
    reveal_strlit("file");
    reveal_strlit("path");
    assert("binDir"@ =~= seq!['b', 'i', 'n', 'D', 'i', 'r']);
    assert("gameDir"@ =~= seq!['g', 'a', 'm', 'e', 'D', 'i', 'r']);
    assert("mapPath"@ =~= seq!['m', 'a', 'p', 'P', 'a', 't', 'h']);
    assert("outDir"@ =~= seq!['o', 'u', 't', 'D', 'i', 'r']);
    assert("mapDir"@ =~= seq!['m', 'a', 'p', 'D', 'i', 'r']);
    assert("mapNameExt"@ =~= seq!['m', 'a', 'p', 'N', 'a', 'm', 'e', 'E', 'x', 't']);
    assert("mapName"@ =~= seq!['m', 'a', 'p', 'N', 'a', 'm', 'e']);
    assert("mapExt"@ =~= seq!['m', 'a', 'p', 'E', 'x', 't']);
    assert("bspPath"@ =~= seq!['b', 's', 'p', 'P', 'a', 't', 'h']);
    assert("file"@ =~= seq!['f', 'i', 'l', 'e']);
    assert("path"@ =~= seq!['p', 'a', 't', 'h']);
}

/// A text that begins with a key agrees with it on the characters at 0, 1
/// and 3, which every key has.
proof fn lemma_key_marks(key: Placeholder, rest: Seq<char>)
    requires
        key.key().is_prefix_of(rest),
    ensures
        key.key().len() >= 4,
        rest.len() >= key.key().len(),
        rest[0] == key.key()[0],
        rest[1] == key.key()[1],
        rest[3] == key.key()[3],
{
    lemma_key_texts();
    let k = key.key();
    assert(k == rest.subrange(0, k.len() as int));
    assert(rest.subrange(0, k.len() as int)[0] == rest[0]);
    assert(rest.subrange(0, k.len() as int)[1] == rest[1]);
    assert(rest.subrange(0, k.len() as int)[3] == rest[3]);
}

/// Two keys that one text begins with are the same key, or they are
/// `mapName` and `mapNameExt`.
pub proof fn lemma_keys_apart(first: Placeholder, second: Placeholder, rest: Seq<char>)
    requires
        first.key().is_prefix_of(rest),
        second.key().is_prefix_of(rest),
    ensures
        first == second || (first == Placeholder::MapName && second == Placeholder::MapNameExt) || (
        first == Placeholder::MapNameExt && second == Placeholder::MapName),
{
    lemma_key_texts();
    lemma_key_marks(first, rest);
    lemma_key_marks(second, rest);
}

/// Every key stands in `key_order()`.
proof fn lemma_key_has_place(key: Placeholder) -> (i: int)
    ensures
        0 <= i < key_order().len(),
        key_order()[i] == key,
{
    match key {
        Placeholder::BinDir => 0,
        Placeholder::GameDir => 1,
        Placeholder::MapPath => 2,
        Placeholder::OutDir => 3,
        Placeholder::MapDir => 4,
        Placeholder::MapNameExt => 5,
        Placeholder::MapName => 6,
        Placeholder::MapExt => 7,
        Placeholder::BspPath => 8,
        Placeholder::File => 9,
        Placeholder::Path => 10,
    }
}

/// The longest key wins. The key that is recognised at the head of a text is
/// a key that the text begins with, and no key that the text begins with is
/// longer; where the text begins with no key, none is recognised. So
/// `mapNameExt` is never read as `mapName` followed by `Ext`.
pub proof fn lemma_longest_key_wins(rest: Seq<char>)
    ensures
        recognise(rest) matches Some(found) ==> found.key().is_prefix_of(rest) && forall|
            other: Placeholder,
        |
            other.key().is_prefix_of(rest) ==> #[trigger] other.key().len() <= found.key().len(),
        recognise(rest) is None ==> forall|other: Placeholder|
            !(#[trigger] other.key()).is_prefix_of(rest),
{
    lemma_first_key_from(rest, 0);
    lemma_key_texts();
    if recognise(rest) is Some {
        let found = recognise(rest)->0;
        let i = choose|i: int|
            0 <= i < key_order().len() && key_order()[i] == found && found.key().is_prefix_of(rest)
                && forall|j: int| 0 <= j < i ==> !(#[trigger] key_order()[j]).key().is_prefix_of(rest);
        assert forall|other: Placeholder| other.key().is_prefix_of(rest) implies #[trigger] other.key().len()
            <= found.key().len() by {
            lemma_keys_apart(found, other, rest);
            if found == Placeholder::MapName && other == Placeholder::MapNameExt {
                assert(key_order()[5] == Placeholder::MapNameExt);
                assert(key_order()[6] == Placeholder::MapName);
                assert(i == 6);
                assert(!key_order()[5].key().is_prefix_of(rest));
            }
        }
    } else {
        assert forall|other: Placeholder| !(#[trigger] other.key()).is_prefix_of(rest) by {
            let j = lemma_key_has_place(other);
            assert(!key_order()[j].key().is_prefix_of(rest));
        }
    }
}

/// A placeholder resolves to its text, and the scan goes on behind it:
/// a `$`, a key and a tail give the key's text and then the tail resolved.
/// The one exception is `mapName` before a tail that begins with `Ext`,
/// which reads as `mapNameExt`.
pub proof fn lemma_placeholder_resolves(ctx: CompilerContext, key: Placeholder, tail: Seq<char>)
    requires
        !(key == Placeholder::MapName && seq!['E', 'x', 't'].is_prefix_of(tail)),
    ensures
        ctx.substitute(seq!['$'] + key.key() + tail) == ctx.value_of(key) + ctx.substitute(tail),
{
    let text = seq!['$'] + key.key() + tail;
    let rest = text.skip(1);
    lemma_key_texts();
    assert(rest == key.key() + tail);
    assert(rest.subrange(0, key.key().len() as int) == key.key());
    assert(key.key().is_prefix_of(rest));
    lemma_longest_key_wins(rest);
    let found = recognise(rest)->0;
    lemma_keys_apart(found, key, rest);
    if found != key {
        assert(found == Placeholder::MapNameExt && key == Placeholder::MapName);
        assert(found.key() == rest.subrange(0, 10));
        assert(tail[0] == rest[7] && tail[1] == rest[8] && tail[2] == rest[9]);
        assert(rest.subrange(0, 10)[7] == rest[7]);
        assert(rest.subrange(0, 10)[8] == rest[8]);
        assert(rest.subrange(0, 10)[9] == rest[9]);
        assert(tail.subrange(0, 3) == seq!['E', 'x', 't']);
        assert(false);
    }
    assert(text.skip(1 + key.key().len() as int) == tail);
    assert(placeholder_at(text) == Some(key));
}

/// `$mapNameExt` gives the map's file name with its extension, whatever
/// follows: never the name without it and then `Ext`.
pub proof fn lemma_map_name_ext_resolves(ctx: CompilerContext, tail: Seq<char>)
    ensures
        ctx.substitute(seq!['$'] + Placeholder::MapNameExt.key() + tail) == ctx.map_name_ext@
            + ctx.substitute(tail),
{
    lemma_placeholder_resolves(ctx, Placeholder::MapNameExt, tail);
}

/// Whether no placeholder stands anywhere in `text`: no `$` of it is
/// followed by a key.
pub open spec fn free_of_placeholders(text: Seq<char>) -> bool {
    forall|i: int| 0 <= i < text.len() ==> (#[trigger] placeholder_at(text.skip(i))) is None
}

/// A text that holds no placeholder passes through unchanged, whatever `$`
/// it holds.
pub proof fn lemma_unknown_passes_through(ctx: CompilerContext, text: Seq<char>)
    requires
        free_of_placeholders(text),
    ensures
        ctx.substitute(text) == text,
    decreases text.len(),
{
    if text.len() > 0 {
        let tail = text.skip(1);
        assert(text.skip(0) == text);
        assert(placeholder_at(text.skip(0)) is None);
        assert forall|i: int| 0 <= i < tail.len() implies (#[trigger] placeholder_at(tail.skip(i))) is None by {
            assert(tail.skip(i) == text.skip(i + 1));
        }
        lemma_unknown_passes_through(ctx, tail);
        assert(seq![text[0]] + tail == text);
    }
}

/// A text without a `$` holds no placeholder.
pub proof fn lemma_plain_text_is_free(text: Seq<char>)
    requires
        forall|i: int| 0 <= i < text.len() ==> text[i] != '$',
    ensures
        free_of_placeholders(text),
{
    assert forall|i: int| 0 <= i < text.len() implies (#[trigger] placeholder_at(text.skip(i))) is None by {
        assert(text.skip(i)[0] == text[i]);
    }
}

/// Substituting twice gives what substituting once gives, where the first
/// result holds no placeholder.
pub proof fn lemma_substitute_idempotent(ctx: CompilerContext, text: Seq<char>)
    requires
        free_of_placeholders(ctx.substitute(text)),
    ensures
        ctx.substitute(ctx.substitute(text)) == ctx.substitute(text),
{
    lemma_unknown_passes_through(ctx, ctx.substitute(text));
}

/// In a context whose texts are all empty a placeholder vanishes: a `$`, a
/// key and a tail give the tail resolved. (`mapName` before `Ext` reads as
/// `mapNameExt`, and is left out.)
pub proof fn lemma_blank_context_erases(ctx: CompilerContext, key: Placeholder, tail: Seq<char>)
    requires
        ctx.is_blank(),
        !(key == Placeholder::MapName && seq!['E', 'x', 't'].is_prefix_of(tail)),
    ensures
        ctx.value_of(key) == Seq::<char>::empty(),
        ctx.substitute(seq!['$'] + key.key() + tail) == ctx.substitute(tail),
{
    lemma_placeholder_resolves(ctx, key, tail);
    assert(Seq::<char>::empty() + ctx.substitute(tail) == ctx.substitute(tail));
}

/// In a context whose texts are all empty nothing is added: the result is no
/// longer than the template.
pub proof fn lemma_blank_context_shrinks(ctx: CompilerContext, text: Seq<char>)
    requires
        ctx.is_blank(),
    ensures
        ctx.substitute(text).len() <= text.len(),
    decreases text.len(),
{
    if text.len() > 0 {
        lemma_first_key_from(text.skip(1), 0);
        match placeholder_at(text) {
            Some(key) => {
                lemma_blank_context_shrinks(ctx, text.skip(1 + key.key().len() as int));
            },
            None => {
                lemma_blank_context_shrinks(ctx, text.skip(1));
            },
        }
    }
}

/// Clearing leaves exactly the base arguments, whatever was added before.
pub proof fn lemma_clear_leaves_base<A>(lists: ArgLists<A>)
    ensures
        lists.cleared().all() == lists.base,
        lists.cleared().base == lists.base,
{
    assert(lists.base + Seq::<A>::empty() == lists.base);
}

/// Adding and then clearing is clearing: what was added is gone and the
/// base arguments are as they were.
pub proof fn lemma_add_then_clear<A>(lists: ArgLists<A>, arg: A)
    ensures
        lists.added(arg).cleared() == lists.cleared(),
{
}

/// An added argument stands last and nothing is replaced, also where an
/// earlier argument is the same.
pub proof fn lemma_add_appends<A>(lists: ArgLists<A>, arg: A)
    ensures
        lists.added(arg).all() == lists.all().push(arg),
        lists.added(arg).all().len() == lists.all().len() + 1,
{
    assert(lists.base + lists.user.push(arg) == (lists.base + lists.user).push(arg));
}

/// A catalog with a base row gives a base list that is not empty.
pub proof fn lemma_base_not_empty(catalog: Seq<ArgDef>, i: int)
    requires
        0 <= i < catalog.len(),
        is_base_row(catalog[i]),
    ensures
        default_entries(catalog).len() >= 1,
    decreases catalog.len(),
{
    if i < catalog.len() - 1 {
        assert(catalog.drop_last()[i] == catalog[i]);
        lemma_base_not_empty(catalog.drop_last(), i);
    }
}

/// Every base argument that a catalog gives is valid: its value is of its
/// row's kind.
pub proof fn lemma_default_entries_valid(catalog: Seq<ArgDef>)
    ensures
        forall|i: int|
            0 <= i < default_entries(catalog).len() ==> (#[trigger] default_entries(
                catalog,
            )[i]).well_formed(),
    decreases catalog.len(),
{
    if catalog.len() > 0 {
        lemma_default_entries_valid(catalog.drop_last());
        let row = catalog.last();
        let before = default_entries(catalog.drop_last());
        if is_base_row(row) && row.default_value is Some {
            lemma_payload_of_kind(row.value_type, Some(row.default_value->0@));
        }
        assert forall|i: int| 0 <= i < default_entries(catalog).len() implies (
        #[trigger] default_entries(catalog)[i]).well_formed() by {
            if i < before.len() {
                assert(default_entries(catalog)[i] == before[i]);
            }
        }
    }
}

/// An argument as one text: its token, and behind a space its value, if it
/// has one.
pub open spec fn command_text(arg: ArgFacts) -> Seq<char> {
    match arg.value {
        Some(v) => arg.token + seq![' '] + v,
        None => arg.token,
    }
}

/// Reading what was written gives the argument back, for every kind of
/// value: the text of a valid argument whose row is the one that the
/// catalog has for its token, and whose token holds no space, reads as that
/// argument.
pub proof fn lemma_parse_round_trip(catalog: Seq<ArgDef>, entry: ArgModel)
    requires
        entry.well_formed(),
        find_row(catalog, entry.def.token@) matches Some(i) && catalog[i] == entry.def,
        !entry.def.token@.contains(' '),
    ensures
        parsed_arg(catalog, command_text(entry.facts())) == Ok::<ArgModel, ParseFailure>(entry),
{
    let token = entry.def.token@;
    let text = command_text(entry.facts());
    assert forall|i: int| 0 <= i < token.len() implies text[i] != ' ' by {
        assert(text[i] == token[i]);
        assert(token.contains(token[i]));
    }
    lemma_first_index_is(text, ' ', token.len() as int);
    assert(token_of(text) == token);
    match entry.value.text() {
        Some(v) => {
            assert(text.skip(token.len() as int + 1) == v);
            assert(segment_of(text) == Some(v));
        },
        None => {
            assert(segment_of(text) is None);
        },
    }
    lemma_payload_round_trip(entry.value);
}

} // verus!
