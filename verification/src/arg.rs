//! Arguments: what a tool's catalog says of a flag, and a flag with its
//! value.

use vstd::prelude::*;
use vstd::string::*;

use crate::text::text_of;
use crate::value::{lemma_payload_of_kind, payload_of, ArgValue, Payload, ValueType};

verus! {

/// What an argument shows of itself.
pub struct ArgFacts {
    /// The name for people.
    pub name: Seq<char>,
    /// The token that stands on the command line; empty for an argument
    /// that is written as its value alone.
    pub token: Seq<char>,
    /// What the argument is for.
    pub description: Seq<char>,
    /// The kind of value it carries.
    pub kind: ValueType,
    /// The value as it stands on the command line.
    pub value: Option<Seq<char>>,
    /// Whether the tool uses the argument by default.
    pub is_default: bool,
    /// The games it works with; `None` where it works with all.
    pub games: Option<Seq<u32>>,
}

/// Defines the common interface for a compiler argument.
pub trait CompilerArg: Sized {
    /// What the argument shows of itself. An argument of kind `Flag` has no
    /// value text, and every other one has one.
    spec fn facts(&self) -> ArgFacts;

    /// What the argument with its default value shows of itself, if it has
    /// a default value.
    spec fn default_facts(&self) -> Option<ArgFacts>;

    /// Returns the human-readable name of the argument.
    fn name(&self) -> (r: &'static str)
        ensures
            r@ == self.facts().name,
    ;

    /// Returns a detailed description of the argument's purpose.
    fn description(&self) -> (r: &'static str)
        ensures
            r@ == self.facts().description,
    ;

    /// Returns the type of value this argument holds.
    fn value_type(&self) -> (r: ValueType)
        ensures
            r == self.facts().kind,
    ;

    /// Returns the default value for this argument, if one is defined.
    fn get_default_value(&self) -> (r: Option<Self>)
        ensures
            match r {
                Some(entry) => self.default_facts() == Some(entry.facts()),
                None => self.default_facts() is None,
            },
    ;

    /// Formats the argument and its value (if any) for the command line:
    /// the token, and the value text of every argument that is no flag.
    fn as_arg(&self) -> (r: (&'static str, Option<String>))
        ensures
            r.0@ == self.facts().token,
            text_of(r.1) == self.facts().value,
            r.1 is None <==> self.facts().kind == ValueType::Flag,
    ;

    /// Whether this argument is used by the compiler by default.
    fn is_default(&self) -> (r: bool)
        ensures
            r == self.facts().is_default,
    ;

    /// Returns the game App IDs this argument is compatible with, or `None`
    /// if it is compatible with every game.
    fn compatible_games(&self) -> (r: Option<&'static [u32]>)
        ensures
            match r {
                Some(games) => self.facts().games == Some(games@),
                None => self.facts().games is None,
            },
    ;

    /// Checks if this argument is compatible with a specific game App ID:
    /// it is where it names no games, or names this one.
    fn is_compatible_with_game(&self, app_id: u32) -> (r: bool)
        ensures
            r == compatible_with(self.facts().games, app_id),
    {
        match self.compatible_games() {
            Some(games) => {
                let mut i: usize = 0;
                while i < games.len()
                    invariant
                        i <= games@.len(),
                        self.facts().games == Some(games@),
                        forall|j: int| 0 <= j < i ==> games@[j] != app_id,
                    decreases games@.len() - i,
                {
                    if games[i] == app_id {
                        return true;
                    }
                    i = i + 1;
                }
                false
            },
            None => true,
        }
    }
}

/// Whether an argument that names `games` works with the game `app_id`.
pub open spec fn compatible_with(games: Option<Seq<u32>>, app_id: u32) -> bool {
    match games {
        Some(g) => g.contains(app_id),
        None => true,
    }
}

/// One row of a tool's catalog: what is fixed of a flag.
#[derive(Debug, Clone, Copy)]
pub struct ArgDef {
    /// The name for people.
    pub name: &'static str,
    /// The token that stands on the command line; empty for an argument
    /// that is written as its value alone.
    pub token: &'static str,
    /// What the argument is for.
    pub description: &'static str,
    /// The kind of value it carries.
    pub value_type: ValueType,
    /// The default value as it stands on the command line; not read for a
    /// flag.
    pub default_value: Option<&'static str>,
    /// Whether the tool uses the argument by default.
    pub is_default: bool,
    /// The games it works with; `None` where it works with all.
    pub compatible_games: Option<&'static [u32]>,
}

impl ArgDef {
    /// The games of the row, as a sequence.
    pub open spec fn games(self) -> Option<Seq<u32>> {
        match self.compatible_games {
            Some(g) => Some(g@),
            None => None,
        }
    }

    /// The default value of the row: a flag is its own default, and another
    /// kind has the value that its default text gives, if it has such a
    /// text and the text is a literal of the kind.
    pub open spec fn default_payload(self) -> Option<Payload> {
        match self.value_type {
            ValueType::Flag => Some(Payload::Flag),
            _ => match self.default_value {
                Some(text) => match payload_of(self.value_type, Some(text@)) {
                    Ok(v) => Some(v),
                    Err(_) => None,
                },
                None => None,
            },
        }
    }
}

/// An argument as mathematics sees it: its row and its value.
pub struct ArgModel {
    /// The row of the catalog.
    pub def: ArgDef,
    /// The value.
    pub value: Payload,
}

impl ArgModel {
    /// Whether the value is valid and of the row's kind.
    pub open spec fn well_formed(self) -> bool {
        self.value.kind() == self.def.value_type && self.value.well_formed()
    }

    /// What the argument shows of itself.
    pub open spec fn facts(self) -> ArgFacts {
        ArgFacts {
            name: self.def.name@,
            token: self.def.token@,
            description: self.def.description@,
            kind: self.def.value_type,
            value: self.value.text(),
            is_default: self.def.is_default,
            games: self.def.games(),
        }
    }
}

/// A configured argument: a row of the catalog with a value of its kind.
#[derive(Debug)]
pub struct Arg {
    def: ArgDef,
    value: ArgValue,
}

impl View for Arg {
    type V = ArgModel;

    closed spec fn view(&self) -> ArgModel {
        ArgModel { def: self.def, value: self.value@ }
    }
}

impl Arg {
    /// The value of an argument is always valid and of its row's kind.
    #[verifier::type_invariant]
    pub closed spec fn matched(&self) -> bool {
        self@.well_formed()
    }

    /// The argument of row `def` with the value `value`; `None` where the
    /// value is not of the row's kind.
    pub fn new(def: ArgDef, value: ArgValue) -> (r: Option<Arg>)
        ensures
            match r {
                Some(arg) => value@.kind() == def.value_type && arg@ == (ArgModel {
                    def,
                    value: value@,
                }),
                None => value@.kind() != def.value_type,
            },
    {
        if value.value_type() == def.value_type {
            Some(Arg { def, value })
        } else {
            None
        }
    }

    /// The argument of row `def` with the row's default value, if the row
    /// has one.
    pub fn with_default(def: ArgDef) -> (r: Option<Arg>)
        ensures
            match def.default_payload() {
                Some(v) => r matches Some(arg) && arg@ == (ArgModel { def, value: v }),
                None => r is None,
            },
    {
        match def.value_type {
            ValueType::Flag => Some(Arg { def, value: ArgValue::Flag }),
            _ => match def.default_value {
                Some(text) => match ArgValue::parse(def.value_type, Some(text)) {
                    Ok(value) => {
                        proof {
                            lemma_payload_of_kind(def.value_type, Some(text@));
                        }
                        Some(Arg { def, value })
                    },
                    Err(_) => None,
                },
                None => None,
            },
        }
    }

    /// The argument of row `def` with a value of the row's kind.
    pub(crate) fn from_parts(def: ArgDef, value: ArgValue) -> (r: Arg)
        requires
            value@.kind() == def.value_type,
            value@.well_formed(),
        ensures
            r@ == (ArgModel { def, value: value@ }),
    {
        Arg { def, value }
    }

    /// The row of the catalog.
    pub fn def(&self) -> (r: ArgDef)
        ensures
            r == self@.def,
            self@.well_formed(),
    {
        proof {
            use_type_invariant(self);
        }
        self.def
    }

    /// The value.
    pub fn value(&self) -> (r: &ArgValue)
        ensures
            r@ == self@.value,
            self@.well_formed(),
    {
        proof {
            use_type_invariant(self);
        }
        &self.value
    }
}

impl Clone for Arg {
    fn clone(&self) -> (r: Self)
        ensures
            r@ == self@,
    {
        proof {
            use_type_invariant(self);
        }
        Arg { def: self.def, value: self.value.clone() }
    }
}

impl CompilerArg for Arg {
    open spec fn facts(&self) -> ArgFacts {
        self@.facts()
    }

    open spec fn default_facts(&self) -> Option<ArgFacts> {
        match self@.def.default_payload() {
            Some(v) => Some((ArgModel { def: self@.def, value: v }).facts()),
            None => None,
        }
    }

    fn name(&self) -> (r: &'static str) {
        self.def.name
    }

    fn description(&self) -> (r: &'static str) {
        self.def.description
    }

    fn value_type(&self) -> (r: ValueType) {
        self.def.value_type
    }

    fn get_default_value(&self) -> (r: Option<Self>) {
        Arg::with_default(self.def)
    }

    fn as_arg(&self) -> (r: (&'static str, Option<String>)) {
        proof {
            use_type_invariant(self);
        }
        (self.def.token, self.value.format())
    }

    fn is_default(&self) -> (r: bool) {
        self.def.is_default
    }

    fn compatible_games(&self) -> (r: Option<&'static [u32]>) {
        self.def.compatible_games
    }
}

} // verus!
