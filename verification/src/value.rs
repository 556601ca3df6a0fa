//! The values that an argument can carry, and how each is written and read.

use vstd::prelude::*;
use vstd::string::*;

use crate::decimal::{
    decimal_of, is_decimal_literal, lemma_decimal_of_well_formed, lemma_decimal_round_trip, Decimal,
    DecimalText,
};
use crate::integer::{
    format_integer, integer_text, lemma_integer_round_trip, parse_integer, parsed_integer,
};
use crate::text::text_of;

verus! {

/// The kind of value an argument carries on the command line.
#[derive(Debug, Clone, Copy, PartialEq, Eq, Structural)]
pub enum ValueType {
    /// No value: the token alone.
    Flag,
    /// A decimal number with an optional fraction.
    Float,
    /// A whole number.
    Integer,
    /// Free text.
    String,
    /// A filesystem path.
    Path,
}

/// A value as mathematics sees it.
pub enum Payload {
    /// No value.
    Flag,
    /// A decimal number.
    Float(DecimalText),
    /// A whole number.
    Integer(i32),
    /// Free text.
    String(Seq<char>),
    /// A filesystem path, as text.
    Path(Seq<char>),
}

impl Payload {
    /// The kind of the value.
    pub open spec fn kind(self) -> ValueType {
        match self {
            Payload::Flag => ValueType::Flag,
            Payload::Float(_) => ValueType::Float,
            Payload::Integer(_) => ValueType::Integer,
            Payload::String(_) => ValueType::String,
            Payload::Path(_) => ValueType::Path,
        }
    }

    /// Whether the value is valid: a decimal number is in its shortest
    /// form.
    pub open spec fn well_formed(self) -> bool {
        self matches Payload::Float(d) ==> d.well_formed()
    }

    /// The value as it stands on a command line: nothing for a flag, the
    /// shortest decimal text for a number, text and paths as they are.
    pub open spec fn text(self) -> Option<Seq<char>> {
        match self {
            Payload::Flag => None,
            Payload::Float(d) => Some(d.text()),
            Payload::Integer(n) => Some(integer_text(n as int)),
            Payload::String(s) => Some(s),
            Payload::Path(p) => Some(p),
        }
    }
}

/// Why a value segment does not give a value of the kind asked for.
#[derive(Debug, Clone, Copy, PartialEq, Eq, Structural)]
pub enum ValueError {
    /// The kind needs a value and there is none.
    Missing,
    /// The kind takes no value and there is one.
    Unexpected,
    /// The segment is no literal of the kind.
    Invalid,
}

/// The value of kind `kind` that the segment behind a token gives.
///
/// A flag takes no segment. Every other kind needs one: a number needs a
/// literal of its kind, text and paths take the segment as it is.
pub open spec fn payload_of(kind: ValueType, segment: Option<Seq<char>>) -> Result<
    Payload,
    ValueError,
> {
    match kind {
        ValueType::Flag => match segment {
            Some(_) => Err(ValueError::Unexpected),
            None => Ok(Payload::Flag),
        },
        ValueType::Float => match segment {
            None => Err(ValueError::Missing),
            Some(s) => match decimal_of(s) {
                Some(d) => Ok(Payload::Float(d)),
                None => Err(ValueError::Invalid),
            },
        },
        ValueType::Integer => match segment {
            None => Err(ValueError::Missing),
            Some(s) => match parsed_integer(s) {
                Some(n) => Ok(Payload::Integer(n)),
                None => Err(ValueError::Invalid),
            },
        },
        ValueType::String => match segment {
            None => Err(ValueError::Missing),
            Some(s) => Ok(Payload::String(s)),
        },
        ValueType::Path => match segment {
            None => Err(ValueError::Missing),
            Some(s) => Ok(Payload::Path(s)),
        },
    }
}

/// A value that a segment gives is valid and of the kind asked for.
pub proof fn lemma_payload_of_kind(kind: ValueType, segment: Option<Seq<char>>)
    ensures
        payload_of(kind, segment) matches Ok(v) ==> v.kind() == kind && v.well_formed(),
{
    if let Some(s) = segment {
        if is_decimal_literal(s) {
            lemma_decimal_of_well_formed(s);
        }
    }
}

/// Reading what was written gives the value back, for every kind.
pub proof fn lemma_payload_round_trip(value: Payload)
    requires
        value.well_formed(),
    ensures
        payload_of(value.kind(), value.text()) == Ok::<Payload, ValueError>(value),
{
    match value {
        Payload::Flag => {},
        Payload::Float(d) => {
            lemma_decimal_round_trip(d);
        },
        Payload::Integer(n) => {
            lemma_integer_round_trip(n);
        },
        Payload::String(_) => {},
        Payload::Path(_) => {},
    }
}

/// The value that an argument carries.
#[derive(Debug, PartialEq)]
pub enum ArgValue {
    /// No value: the argument is its token.
    Flag,
    /// A decimal number.
    Float(Decimal),
    /// A whole number.
    Integer(i32),
    /// Free text.
    String(String),
    /// A filesystem path, as text.
    Path(String),
}

impl View for ArgValue {
    type V = Payload;

    open spec fn view(&self) -> Payload {
        match self {
            ArgValue::Flag => Payload::Flag,
            ArgValue::Float(d) => Payload::Float(d@),
            ArgValue::Integer(n) => Payload::Integer(*n),
            ArgValue::String(s) => Payload::String(s@),
            ArgValue::Path(p) => Payload::Path(p@),
        }
    }
}

impl ArgValue {
    /// The kind of the value.
    pub fn value_type(&self) -> (r: ValueType)
        ensures
            r == self@.kind(),
            self@.well_formed(),
    {
        match self {
            ArgValue::Flag => ValueType::Flag,
            ArgValue::Float(d) => {
                proof {
                    use_type_invariant(d);
                }
                ValueType::Float
            },
            ArgValue::Integer(_) => ValueType::Integer,
            ArgValue::String(_) => ValueType::String,
            ArgValue::Path(_) => ValueType::Path,
        }
    }

    /// The value as it stands on a command line; `None` for a flag.
    pub fn format(&self) -> (r: Option<String>)
        ensures
            self@.well_formed(),
            text_of(r) == self@.text(),
    {
        match self {
            ArgValue::Flag => None,
            ArgValue::Float(d) => Some(d.to_text()),
            ArgValue::Integer(n) => Some(format_integer(*n)),
            ArgValue::String(s) => Some(s.clone()),
            ArgValue::Path(p) => Some(p.clone()),
        }
    }

    /// The value of kind `kind` that the segment behind a token gives.
    pub fn parse(kind: ValueType, segment: Option<&str>) -> (r: Result<ArgValue, ValueError>)
        ensures
            match payload_of(kind, segment_text(segment)) {
                Ok(v) => r matches Ok(found) && found@ == v,
                Err(e) => r == Err::<ArgValue, ValueError>(e),
            },
    {
        match kind {
            ValueType::Flag => match segment {
                Some(_) => Err(ValueError::Unexpected),
                None => Ok(ArgValue::Flag),
            },
            ValueType::Float => match segment {
                None => Err(ValueError::Missing),
                Some(s) => match Decimal::parse(s) {
                    Some(d) => Ok(ArgValue::Float(d)),
                    None => Err(ValueError::Invalid),
                },
            },
            ValueType::Integer => match segment {
                None => Err(ValueError::Missing),
                Some(s) => match parse_integer(s) {
                    Some(n) => Ok(ArgValue::Integer(n)),
                    None => Err(ValueError::Invalid),
                },
            },
            ValueType::String => match segment {
                None => Err(ValueError::Missing),
                Some(s) => Ok(ArgValue::String(s.to_owned())),
            },
            ValueType::Path => match segment {
                None => Err(ValueError::Missing),
                Some(s) => Ok(ArgValue::Path(s.to_owned())),
            },
        }
    }
}

/// The characters of an optional string slice.
pub open spec fn segment_text(segment: Option<&str>) -> Option<Seq<char>> {
    match segment {
        Some(s) => Some(s@),
        None => None,
    }
}

impl Clone for ArgValue {
    fn clone(&self) -> (r: Self)
        ensures
            r@ == self@,
    {
        match self {
            ArgValue::Flag => ArgValue::Flag,
            ArgValue::Float(d) => ArgValue::Float(d.clone()),
            ArgValue::Integer(n) => ArgValue::Integer(*n),
            ArgValue::String(s) => ArgValue::String(s.clone()),
            ArgValue::Path(p) => ArgValue::Path(p.clone()),
        }
    }
}

} // verus!
