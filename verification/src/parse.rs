//! Reading an argument from text: a token, and behind one space its value.

use vstd::prelude::*;
use vstd::string::*;

use crate::arg::{Arg, ArgDef, ArgModel};
use crate::text::{
    chars_of, find_char, first_index, string_of, text_equals, text_of, unwrap_or_empty,
};
use crate::value::{lemma_payload_of_kind, payload_of, ArgValue, ValueError};

verus! {

/// Why a text is not an argument of the catalog.
#[derive(Debug, PartialEq)]
pub enum ParseArgError {
    /// The provided argument was not recognized by the compiler.
    UnknownArgument(String),
    /// An argument that requires a value was provided without one.
    MissingValue(&'static str),
    /// A flag argument, which does not accept a value, was provided with
    /// one.
    UnexpectedValue(&'static str),
    /// The value provided for an argument was not in the expected format.
    InvalidValue {
        /// The token of the argument.
        argument: &'static str,
        /// The value as it was given.
        value: String,
    },
}

/// An error as mathematics sees it.
pub enum ParseFailure {
    /// No row of the catalog has the token.
    UnknownArgument(Seq<char>),
    /// The row of the token needs a value and there is none.
    MissingValue(Seq<char>),
    /// The row of the token is a flag and there is a value.
    UnexpectedValue(Seq<char>),
    /// The value is no literal of the row's kind.
    InvalidValue {
        /// The token of the argument.
        argument: Seq<char>,
        /// The value as it was given.
        value: Seq<char>,
    },
}

impl View for ParseArgError {
    type V = ParseFailure;

    open spec fn view(&self) -> ParseFailure {
        match self {
            ParseArgError::UnknownArgument(token) => ParseFailure::UnknownArgument(token@),
            ParseArgError::MissingValue(token) => ParseFailure::MissingValue(token@),
            ParseArgError::UnexpectedValue(token) => ParseFailure::UnexpectedValue(token@),
            ParseArgError::InvalidValue { argument, value } => ParseFailure::InvalidValue {
                argument: argument@,
                value: value@,
            },
        }
    }
}

impl ParseFailure {
    /// The error in words.
    pub open spec fn message(self) -> Seq<char> {
        match self {
            ParseFailure::UnknownArgument(token) => "unknown argument: "@ + token,
            ParseFailure::MissingValue(token) => "argument '"@ + token
                + "' requires a value, but none was provided"@,
            ParseFailure::UnexpectedValue(token) => "argument '"@ + token
                + "' is a flag and does not accept a value"@,
            ParseFailure::InvalidValue { argument, value } => "invalid value '"@ + value
                + "' for argument '"@ + argument + "'"@,
        }
    }
}

impl ParseArgError {
    /// The error in words.
    pub fn message(&self) -> (r: String)
        ensures
            r@ == self@.message(),
    {
        match self {
            ParseArgError::UnknownArgument(token) => {
                let mut out = String::from_str("unknown argument: ");
                out.append(token.as_str());
                out
            },
            ParseArgError::MissingValue(token) => {
                let mut out = String::from_str("argument '");
                out.append(token);
                out.append("' requires a value, but none was provided");
                out
            },
            ParseArgError::UnexpectedValue(token) => {
                let mut out = String::from_str("argument '");
                out.append(token);
                out.append("' is a flag and does not accept a value");
                out
            },
            ParseArgError::InvalidValue { argument, value } => {
                let mut out = String::from_str("invalid value '");
                out.append(value.as_str());
                out.append("' for argument '");
                out.append(argument);
                out.append("'");
                out
            },
        }
    }
}

/// The token of a text: what stands before its first space.
pub open spec fn token_of(text: Seq<char>) -> Seq<char> {
    text.take(first_index(text, ' '))
}

/// The value segment of a text: what stands behind its first space, if it
/// has one.
pub open spec fn segment_of(text: Seq<char>) -> Option<Seq<char>> {
    if first_index(text, ' ') < text.len() {
        Some(text.skip(first_index(text, ' ') + 1))
    } else {
        None
    }
}

/// The place of the first row at `from` or later whose token is `token`.
pub open spec fn find_row_from(catalog: Seq<ArgDef>, token: Seq<char>, from: int) -> Option<int>
    decreases catalog.len() - from,
{
    if from < 0 || from >= catalog.len() {
        None
    } else if catalog[from].token@ == token {
        Some(from)
    } else {
        find_row_from(catalog, token, from + 1)
    }
}

/// The place of the first row whose token is `token`.
pub open spec fn find_row(catalog: Seq<ArgDef>, token: Seq<char>) -> Option<int> {
    find_row_from(catalog, token, 0)
}

/// The argument that `text` writes for the catalog, or why it writes none.
///
/// The token is looked up in the catalog. The row that is found says of
/// which kind the value is, and the segment behind the token is read as a
/// value of that kind.
pub open spec fn parsed_arg(catalog: Seq<ArgDef>, text: Seq<char>) -> Result<
    ArgModel,
    ParseFailure,
> {
    match find_row(catalog, token_of(text)) {
        None => Err(ParseFailure::UnknownArgument(token_of(text))),
        Some(i) => match payload_of(catalog[i].value_type, segment_of(text)) {
            Ok(value) => Ok(ArgModel { def: catalog[i], value }),
            Err(ValueError::Missing) => Err(ParseFailure::MissingValue(catalog[i].token@)),
            Err(ValueError::Unexpected) => Err(ParseFailure::UnexpectedValue(catalog[i].token@)),
            Err(ValueError::Invalid) => Err(
                ParseFailure::InvalidValue {
                    argument: catalog[i].token@,
                    value: segment_of(text)->0,
                },
            ),
        },
    }
}

/// The first row of `catalog` whose token is the text from the start up to
/// `to`.
fn lookup(catalog: &[ArgDef], text: &[char], to: usize) -> (r: Option<usize>)
    requires
        to <= text@.len(),
    ensures
        match find_row(catalog@, text@.take(to as int)) {
            Some(i) => r == Some(i as usize) && 0 <= i < catalog@.len(),
            None => r is None,
        },
{
    let ghost token = text@.take(to as int);
    let mut i: usize = 0;
    while i < catalog.len()
        invariant
            i <= catalog@.len(),
            to <= text@.len(),
            token == text@.take(to as int),
            find_row(catalog@, token) == find_row_from(catalog@, token, i as int),
        decreases catalog@.len() - i,
    {
        assert(text@.subrange(0, to as int) == token);
        if text_equals(text, 0, to, catalog[i].token) {
            return Some(i);
        }
        i = i + 1;
    }
    None
}

impl Arg {
    /// Reads an argument of the catalog from `text`: a token, and behind
    /// the first space the value.
    ///
    /// Fails where no row has the token, where the row needs a value and
    /// none is given, where the row is a flag and a value is given, and
    /// where the value is no literal of the row's kind.
    pub fn parse(catalog: &[ArgDef], text: &str) -> (r: Result<Arg, ParseArgError>)
        ensures
            match parsed_arg(catalog@, text@) {
                Ok(model) => r matches Ok(arg) && arg@ == model,
                Err(failure) => r matches Err(e) && e@ == failure,
            },
    {
        let chars = chars_of(text);
        let space = find_char(chars.as_slice(), ' ');
        assert(chars@.subrange(0, space as int) == token_of(text@));
        let segment: Option<String> = if space < chars.len() {
            assert(chars@.subrange(space + 1, chars@.len() as int) == chars@.skip(space + 1));
            Some(string_of(chars.as_slice(), space + 1, chars.len()))
        } else {
            None
        };
        assert(text_of(segment) == segment_of(text@));
        let row = match lookup(catalog, chars.as_slice(), space) {
            Some(i) => catalog[i],
            None => {
                return Err(
                    ParseArgError::UnknownArgument(string_of(chars.as_slice(), 0, space)),
                );
            },
        };
        let given: Option<&str> = match &segment {
            Some(s) => Some(s.as_str()),
            None => None,
        };
        proof {
            lemma_payload_of_kind(row.value_type, segment_of(text@));
        }
        match ArgValue::parse(row.value_type, given) {
            Ok(value) => Ok(Arg::from_parts(row, value)),
            Err(ValueError::Missing) => Err(ParseArgError::MissingValue(row.token)),
            Err(ValueError::Unexpected) => Err(ParseArgError::UnexpectedValue(row.token)),
            Err(ValueError::Invalid) => Err(
                ParseArgError::InvalidValue { argument: row.token, value: unwrap_or_empty(segment) },
            ),
        }
    }

    /// Reads an argument of the catalog from an owned text, as `parse`
    /// does from a borrowed one.
    pub fn parse_string(catalog: &[ArgDef], text: String) -> (r: Result<Arg, ParseArgError>)
        ensures
            match parsed_arg(catalog@, text@) {
                Ok(model) => r matches Ok(arg) && arg@ == model,
                Err(failure) => r matches Err(e) && e@ == failure,
            },
    {
        Arg::parse(catalog, text.as_str())
    }
}

} // verus!
