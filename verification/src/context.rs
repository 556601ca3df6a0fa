//! Placeholders and the context that resolves them.
//!
//! A template such as `-game $gameDir` holds placeholders: a `$` followed by
//! one of a fixed set of keys. A [`CompilerContext`] gives each key its text,
//! and [`CompilerContext::replace`] rewrites a template in one pass from left
//! to right.

use vstd::prelude::*;
use vstd::string::*;

use crate::paths::{
    extension, file_name, file_stem, parent, path_extension, path_file_name, path_file_stem,
    path_parent, path_with_extension, with_extension,
};
use crate::text::{chars_of, has_prefix_at, or_empty, text_of, unwrap_or_empty};

verus! {

/// The keys that may follow a `$` in a template.
#[derive(Debug, Clone, Copy, PartialEq, Eq, Structural)]
pub enum Placeholder {
    /// `binDir`: the directory of the tools.
    BinDir,
    /// `gameDir`: the directory of the game.
    GameDir,
    /// `mapPath`: the path of the map.
    MapPath,
    /// `outDir`: the output directory.
    OutDir,
    /// `mapDir`: the directory that holds the map.
    MapDir,
    /// `mapNameExt`: the map's file name with its extension.
    MapNameExt,
    /// `mapName`: the map's file name without its extension.
    MapName,
    /// `mapExt`: the map's extension.
    MapExt,
    /// `bspPath`: the path of the compiled map.
    BspPath,
    /// `file`: another name for `mapName`.
    File,
    /// `path`: another name for `mapPath`.
    Path,
}

impl Placeholder {
    /// The text of the key, without the `$`.
    pub open spec fn key(self) -> Seq<char> {
        match self {
            Placeholder::BinDir => "binDir"@,
            Placeholder::GameDir => "gameDir"@,
            Placeholder::MapPath => "mapPath"@,
            Placeholder::OutDir => "outDir"@,
            Placeholder::MapDir => "mapDir"@,
            Placeholder::MapNameExt => "mapNameExt"@,
            Placeholder::MapName => "mapName"@,
            Placeholder::MapExt => "mapExt"@,
            Placeholder::BspPath => "bspPath"@,
            Placeholder::File => "file"@,
            Placeholder::Path => "path"@,
        }
    }

    /// The text of the key, without the `$`.
    pub fn key_str(self) -> (r: &'static str)
        ensures
            r@ == self.key(),
    {
        match self {
            Placeholder::BinDir => "binDir",
            Placeholder::GameDir => "gameDir",
            Placeholder::MapPath => "mapPath",
            Placeholder::OutDir => "outDir",
            Placeholder::MapDir => "mapDir",
            Placeholder::MapNameExt => "mapNameExt",
            Placeholder::MapName => "mapName",
            Placeholder::MapExt => "mapExt",
            Placeholder::BspPath => "bspPath",
            Placeholder::File => "file",
            Placeholder::Path => "path",
        }
    }
}

/// The keys in the order in which they are tried. `mapNameExt` stands before
/// `mapName`, which is a prefix of it.
pub open spec fn key_order() -> Seq<Placeholder> {
    seq![
        Placeholder::BinDir,
        Placeholder::GameDir,
        Placeholder::MapPath,
        Placeholder::OutDir,
        Placeholder::MapDir,
        Placeholder::MapNameExt,
        Placeholder::MapName,
        Placeholder::MapExt,
        Placeholder::BspPath,
        Placeholder::File,
        Placeholder::Path,
    ]
}

/// The first key of `key_order()`, from index `from` on, that `rest` begins
/// with.
pub open spec fn first_key_from(rest: Seq<char>, from: int) -> Option<Placeholder>
    decreases key_order().len() - from,
{
    if from < 0 || from >= key_order().len() {
        None
    } else if key_order()[from].key().is_prefix_of(rest) {
        Some(key_order()[from])
    } else {
        first_key_from(rest, from + 1)
    }
}

/// The key that the text after a `$` begins with, if it begins with one.
pub open spec fn recognise(rest: Seq<char>) -> Option<Placeholder> {
    first_key_from(rest, 0)
}

/// The key of the placeholder at the head of `text`: `text` begins with a
/// `$` and that key.
pub open spec fn placeholder_at(text: Seq<char>) -> Option<Placeholder> {
    if text.len() > 0 && text[0] == '$' {
        recognise(text.skip(1))
    } else {
        None
    }
}

/// A key that `first_key_from` finds stands in `key_order()` at `from` or
/// later, the text begins with it, and with none of the keys between.
pub proof fn lemma_first_key_from(rest: Seq<char>, from: int)
    requires
        0 <= from,
    ensures
        first_key_from(rest, from) matches Some(key) ==> exists|i: int|
            from <= i < key_order().len() && key_order()[i] == key && key.key().is_prefix_of(rest)
                && forall|j: int| from <= j < i ==> !(#[trigger] key_order()[j]).key().is_prefix_of(rest),
        first_key_from(rest, from) is None ==> forall|j: int|
            from <= j < key_order().len() ==> !(#[trigger] key_order()[j]).key().is_prefix_of(rest),
    decreases key_order().len() - from,
{
    if from < key_order().len() && !key_order()[from].key().is_prefix_of(rest) {
        lemma_first_key_from(rest, from + 1);
        if first_key_from(rest, from) is Some {
            let key = first_key_from(rest, from)->0;
            let i = choose|i: int|
                from + 1 <= i < key_order().len() && key_order()[i] == key && key.key().is_prefix_of(rest)
                    && forall|j: int| from + 1 <= j < i ==> !(#[trigger] key_order()[j]).key().is_prefix_of(rest);
            assert(from <= i < key_order().len() && key_order()[i] == key && key.key().is_prefix_of(rest)
                && forall|j: int| from <= j < i ==> !(#[trigger] key_order()[j]).key().is_prefix_of(rest));
        }
    } else if from < key_order().len() {
        let key = key_order()[from];
        assert(from <= from < key_order().len() && key_order()[from] == key && key.key().is_prefix_of(rest)
            && forall|j: int| from <= j < from ==> !(#[trigger] key_order()[j]).key().is_prefix_of(rest));
    }
}

/// The number of keys.
pub const KEY_COUNT: usize = 11;

/// The key at place `index` of `key_order()`.
pub fn key_at(index: usize) -> (r: Placeholder)
    requires
        index < KEY_COUNT,
    ensures
        r == key_order()[index as int],
{
    if index == 0 {
        Placeholder::BinDir
    } else if index == 1 {
        Placeholder::GameDir
    } else if index == 2 {
        Placeholder::MapPath
    } else if index == 3 {
        Placeholder::OutDir
    } else if index == 4 {
        Placeholder::MapDir
    } else if index == 5 {
        Placeholder::MapNameExt
    } else if index == 6 {
        Placeholder::MapName
    } else if index == 7 {
        Placeholder::MapExt
    } else if index == 8 {
        Placeholder::BspPath
    } else if index == 9 {
        Placeholder::File
    } else {
        Placeholder::Path
    }
}

/// The key that the text from `pos` on begins with, if it begins with one.
pub fn match_key(text: &[char], pos: usize) -> (r: Option<Placeholder>)
    requires
        pos <= text@.len(),
    ensures
        r == recognise(text@.skip(pos as int)),
{
    let mut i: usize = 0;
    while i < KEY_COUNT
        invariant
            i <= KEY_COUNT,
            pos <= text@.len(),
            recognise(text@.skip(pos as int)) == first_key_from(text@.skip(pos as int), i as int),
        decreases KEY_COUNT - i,
    {
        let p = key_at(i);
        if has_prefix_at(text, pos, p.key_str()) {
            return Some(p);
        }
        i = i + 1;
    }
    None
}

/// The texts that placeholders stand for.
///
/// The first four are given by the caller. The other five describe the map
/// and are derived from `map_path` by [`CompilerContext::new`].
#[derive(Debug, Clone)]
pub struct CompilerContext {
    /// The directory of the tools.
    pub bin_dir: String,
    /// The directory of the game.
    pub game_dir: String,
    /// The path of the map.
    pub map_path: String,
    /// The output directory.
    pub out_dir: String,
    /// The directory that holds the map.
    pub map_dir: String,
    /// The map's file name without its extension.
    pub map_name: String,
    /// The map's file name with its extension.
    pub map_name_ext: String,
    /// The map's extension.
    pub map_ext: String,
    /// The path of the compiled map.
    pub bsp_path: String,
}

impl CompilerContext {
    /// The text that `key` stands for.
    pub open spec fn value_of(&self, key: Placeholder) -> Seq<char> {
        match key {
            Placeholder::BinDir => self.bin_dir@,
            Placeholder::GameDir => self.game_dir@,
            Placeholder::MapPath => self.map_path@,
            Placeholder::OutDir => self.out_dir@,
            Placeholder::MapDir => self.map_dir@,
            Placeholder::MapNameExt => self.map_name_ext@,
            Placeholder::MapName => self.map_name@,
            Placeholder::MapExt => self.map_ext@,
            Placeholder::BspPath => self.bsp_path@,
            Placeholder::File => self.map_name@,
            Placeholder::Path => self.map_path@,
        }
    }

    /// Whether every text of the context is empty.
    pub open spec fn is_blank(&self) -> bool {
        forall|key: Placeholder| #[trigger] self.value_of(key) == Seq::<char>::empty()
    }

    /// The template `text` with its placeholders resolved, scanning once from
    /// left to right: a `$` followed by a key gives the key's text, and any
    /// other character, a `$` that no key follows too, gives itself.
    pub open spec fn substitute(&self, text: Seq<char>) -> Seq<char>
        decreases text.len(),
    {
        if text.len() == 0 {
            Seq::empty()
        } else {
            proof {
                lemma_first_key_from(text.skip(1), 0);
            }
            match placeholder_at(text) {
                Some(key) => self.value_of(key) + self.substitute(
                    text.skip(1 + key.key().len() as int),
                ),
                None => seq![text[0]] + self.substitute(text.skip(1)),
            }
        }
    }

    /// The text that `key` stands for.
    pub fn value(&self, key: Placeholder) -> (r: &str)
        ensures
            r@ == self.value_of(key),
    {
        match key {
            Placeholder::BinDir => self.bin_dir.as_str(),
            Placeholder::GameDir => self.game_dir.as_str(),
            Placeholder::MapPath => self.map_path.as_str(),
            Placeholder::OutDir => self.out_dir.as_str(),
            Placeholder::MapDir => self.map_dir.as_str(),
            Placeholder::MapNameExt => self.map_name_ext.as_str(),
            Placeholder::MapName => self.map_name.as_str(),
            Placeholder::MapExt => self.map_ext.as_str(),
            Placeholder::BspPath => self.bsp_path.as_str(),
            Placeholder::File => self.map_name.as_str(),
            Placeholder::Path => self.map_path.as_str(),
        }
    }
}

impl CompilerContext {
    /// Resolves the placeholders of `input` in a single pass and returns the
    /// new string. A `$` that no key follows stays as it is.
    pub fn replace(&self, input: &str) -> (output: String)
        ensures
            output@ == self.substitute(input@),
    {
        let text = chars_of(input);
        let mut output = String::new();
        let mut pos: usize = 0;
        assert(text@.skip(0) == text@);
        assert(output@ + self.substitute(text@) == self.substitute(text@));
        while pos < text.len()
            invariant
                pos <= text@.len(),
                text@ == input@,
                output@ + self.substitute(text@.skip(pos as int)) == self.substitute(text@),
            decreases text@.len() - pos,
        {
            let ghost rest = text@.skip(pos as int);
            let ghost done = output@;
            assert(rest.skip(1) == text@.skip(pos + 1));
            let c = text[pos];
            if c != '$' {
                output.push(c);
                pos = pos + 1;
                assert(output@ + self.substitute(rest.skip(1)) == done + self.substitute(rest));
            } else {
                proof {
                    lemma_first_key_from(rest.skip(1), 0);
                }
                match match_key(text.as_slice(), pos + 1) {
                    Some(key) => {
                        let n = key.key_str().unicode_len();
                        assert(rest.skip(1 + n as int) == text@.skip(pos + 1 + n));
                        output.append(self.value(key));
                        pos = pos + 1 + n;
                        assert(output@ + self.substitute(rest.skip(1 + n as int)) == done
                            + self.substitute(rest));
                    },
                    None => {
                        output.push('$');
                        pos = pos + 1;
                        assert(output@ + self.substitute(rest.skip(1)) == done + self.substitute(
                            rest,
                        ));
                    },
                }
            }
        }
        assert(output@ + Seq::<char>::empty() == output@);
        output
    }
}

/// The directory that holds the map: the parent of its path, empty where the
/// path has none or there is no map.
pub open spec fn map_dir_of(map_path: Option<Seq<char>>) -> Seq<char> {
    match map_path {
        Some(p) => or_empty(path_parent(p)),
        None => Seq::empty(),
    }
}

/// The map's file name without its extension, empty where the path has none
/// or there is no map.
pub open spec fn map_name_of(map_path: Option<Seq<char>>) -> Seq<char> {
    match map_path {
        Some(p) => or_empty(path_file_stem(p)),
        None => Seq::empty(),
    }
}

/// The map's file name with its extension, empty where the path has none or
/// there is no map.
pub open spec fn map_name_ext_of(map_path: Option<Seq<char>>) -> Seq<char> {
    match map_path {
        Some(p) => or_empty(path_file_name(p)),
        None => Seq::empty(),
    }
}

/// The map's extension, empty where the path has none or there is no map.
pub open spec fn map_ext_of(map_path: Option<Seq<char>>) -> Seq<char> {
    match map_path {
        Some(p) => or_empty(path_extension(p)),
        None => Seq::empty(),
    }
}

/// The path of the compiled map: the map's path with the extension `bsp`,
/// empty where there is no map.
pub open spec fn bsp_path_of(map_path: Option<Seq<char>>) -> Seq<char> {
    match map_path {
        Some(p) => path_with_extension(p, "bsp"@),
        None => Seq::empty(),
    }
}

impl CompilerContext {
    /// A context for the given paths. A path that is not given is empty,
    /// but for the output directory, which is then the map's directory.
    /// What describes the map is derived from `map_path`; without a map it is
    /// empty.
    pub fn new(
        bin_dir: Option<String>,
        game_dir: Option<String>,
        map_path: Option<String>,
        out_dir: Option<String>,
    ) -> (ctx: Self)
        ensures
            ctx.bin_dir@ == or_empty(text_of(bin_dir)),
            ctx.game_dir@ == or_empty(text_of(game_dir)),
            ctx.map_path@ == or_empty(text_of(map_path)),
            ctx.out_dir@ == (match out_dir {
                Some(d) => d@,
                None => map_dir_of(text_of(map_path)),
            }),
            ctx.map_dir@ == map_dir_of(text_of(map_path)),
            ctx.map_name@ == map_name_of(text_of(map_path)),
            ctx.map_name_ext@ == map_name_ext_of(text_of(map_path)),
            ctx.map_ext@ == map_ext_of(text_of(map_path)),
            ctx.bsp_path@ == bsp_path_of(text_of(map_path)),
            map_path is None && or_empty(text_of(bin_dir)).len() == 0 && or_empty(
                text_of(game_dir),
            ).len() == 0 && or_empty(text_of(out_dir)).len() == 0 ==> ctx.is_blank(),
    {
        let map_dir: String;
        let map_name: String;
        let map_name_ext: String;
        let map_ext: String;
        let bsp_path: String;
        match &map_path {
            Some(p) => {
                map_dir = unwrap_or_empty(parent(p.as_str()));
                map_name = unwrap_or_empty(file_stem(p.as_str()));
                map_name_ext = unwrap_or_empty(file_name(p.as_str()));
                map_ext = unwrap_or_empty(extension(p.as_str()));
                proof {
                    reveal_strlit("bsp");
                }
                bsp_path = with_extension(p.as_str(), "bsp");
            },
            None => {
                map_dir = String::new();
                map_name = String::new();
                map_name_ext = String::new();
                map_ext = String::new();
                bsp_path = String::new();
            },
        }
        let out_dir = match out_dir {
            Some(d) => d,
            None => map_dir.clone(),
        };
        let ctx = CompilerContext {
            bin_dir: unwrap_or_empty(bin_dir),
            game_dir: unwrap_or_empty(game_dir),
            map_path: unwrap_or_empty(map_path),
            out_dir,
            map_dir,
            map_name,
            map_name_ext,
            map_ext,
            bsp_path,
        };
        assert forall|key: Placeholder| #[trigger] ctx.value_of(key).len() == 0 implies ctx.value_of(
            key,
        ) == Seq::<char>::empty() by {
            assert(ctx.value_of(key) =~= Seq::<char>::empty());
        }
        ctx
    }

    /// The key that follows the `$` at the head of `remaining_slice`, and
    /// the text it stands for; `None` where the slice does not begin with a
    /// `$` and a key.
    pub fn get_placeholder_value(&self, remaining_slice: &str) -> (r: Option<
        (&'static str, String),
    >)
        ensures
            match placeholder_at(remaining_slice@) {
                Some(key) => r matches Some(found) && found.0@ == key.key() && found.1@
                    == self.value_of(key),
                None => r is None,
            },
    {
        let text = chars_of(remaining_slice);
        if text.len() == 0 || text[0] != '$' {
            return None;
        }
        match match_key(text.as_slice(), 1) {
            Some(key) => Some((key.key_str(), self.value(key).to_owned())),
            None => None,
        }
    }
}

impl Default for CompilerContext {
    /// The context in which every text is empty.
    fn default() -> (ctx: Self)
        ensures
            ctx.bin_dir@ == Seq::<char>::empty(),
            ctx.game_dir@ == Seq::<char>::empty(),
            ctx.map_path@ == Seq::<char>::empty(),
            ctx.out_dir@ == Seq::<char>::empty(),
            ctx.map_dir@ == Seq::<char>::empty(),
            ctx.map_name@ == Seq::<char>::empty(),
            ctx.map_name_ext@ == Seq::<char>::empty(),
            ctx.map_ext@ == Seq::<char>::empty(),
            ctx.bsp_path@ == Seq::<char>::empty(),
            ctx.is_blank(),
    {
        CompilerContext {
            bin_dir: String::new(),
            game_dir: String::new(),
            map_path: String::new(),
            out_dir: String::new(),
            map_dir: String::new(),
            map_name: String::new(),
            map_name_ext: String::new(),
            map_ext: String::new(),
            bsp_path: String::new(),
        }
    }
}

} // verus!
