//! Variant access: what a tagged value hands to a consumer that decodes it
//! as an enum variant.
//!
//! The tag, without its marker, names the variant. The value under the tag
//! is the variant's content. A tuple variant takes its fields from a
//! sequence and a struct variant takes them from a mapping; any other shape
//! is refused with serde's "invalid type" message.

use crate::value::Mapping;
use crate::value::Sequence;
use crate::value::TaggedValue;
use crate::value::Value;
use crate::tag::nobang;
use vstd::prelude::*;

verus! {

/// What was found where something else was expected: the shape of a value,
/// with the content of a scalar.
#[derive(Debug)]
pub enum Unexpected {
    /// The absent value.
    Unit,
    /// A boolean.
    Bool(bool),
    /// An integer.
    Signed(i64),
    /// A string.
    Str(String),
    /// A sequence.
    Sequence,
    /// A mapping.
    Mapping,
    /// A tagged value.
    Enum,
}

/// The content of an `Unexpected`, with a string by its characters.
pub enum UnexpectedView {
    Unit,
    Bool(bool),
    Signed(i64),
    Str(Seq<char>),
    Sequence,
    Mapping,
    Enum,
}

impl View for Unexpected {
    type V = UnexpectedView;

    open spec fn view(&self) -> UnexpectedView {
        match *self {
            Unexpected::Unit => UnexpectedView::Unit,
            Unexpected::Bool(b) => UnexpectedView::Bool(b),
            Unexpected::Signed(n) => UnexpectedView::Signed(n),
            Unexpected::Str(s) => UnexpectedView::Str(s@),
            Unexpected::Sequence => UnexpectedView::Sequence,
            Unexpected::Mapping => UnexpectedView::Mapping,
            Unexpected::Enum => UnexpectedView::Enum,
        }
    }
}

/// The kind of variant content that a consumer asked for.
#[derive(Clone, Copy, Debug, PartialEq, Eq, Structural)]
pub enum VariantKind {
    /// Fields by position.
    Tuple,
    /// Fields by name.
    Struct,
}

impl VariantKind {
    /// How the kind is called in a message.
    pub open spec fn phrase(self) -> Seq<char> {
        match self {
            VariantKind::Tuple => "tuple variant"@,
            VariantKind::Struct => "struct variant"@,
        }
    }

    /// How the kind is called in a message.
    pub fn name(self) -> (name: &'static str)
        ensures
            name@ == self.phrase(),
    {
        match self {
            VariantKind::Tuple => "tuple variant",
            VariantKind::Struct => "struct variant",
        }
    }
}

/// The text of serde's "invalid type" error for what was found and a phrase
/// for what was expected.
pub uninterp spec fn invalid_type_text(found: UnexpectedView, expected: Seq<char>) -> Seq<char>;

/// How serde describes what was found, where it does so by a fixed phrase.
/// An integer and a string are described with their content, in serde's
/// own formatting, which is not spelled out here.
pub open spec fn fixed_phrase(found: UnexpectedView) -> Option<Seq<char>> {
    match found {
        UnexpectedView::Unit => Some("unit value"@),
        UnexpectedView::Bool(true) => Some("boolean `true`"@),
        UnexpectedView::Bool(false) => Some("boolean `false`"@),
        UnexpectedView::Sequence => Some("sequence"@),
        UnexpectedView::Mapping => Some("map"@),
        UnexpectedView::Enum => Some("enum"@),
        _ => None,
    }
}

/// Whether `message` is the text of serde's "invalid type" error for `found`
/// and `expected`. For a shape with a fixed phrase the text is spelled out.
pub open spec fn is_invalid_type_message(
    message: Seq<char>,
    found: UnexpectedView,
    expected: Seq<char>,
) -> bool {
    &&& message == invalid_type_text(found, expected)
    &&& fixed_phrase(found) matches Some(phrase) ==> message == "invalid type: "@ + phrase
        + ", expected "@ + expected
}

/// Trusted: `serde::de::Error::invalid_type`, on `serde::de::value::Error`,
/// read back through that error's `Display`.
///
/// serde formats the message as `invalid type: {found}, expected {expected}`
/// and keeps it as the error's text. The claim is that the text depends on
/// the two arguments alone, and that for the unit value, a boolean, a
/// sequence, a map and an enum `{found}` is what serde's `Unexpected` prints
/// for it.
#[verifier::external_body]
fn invalid_type(found: &Unexpected, expected: &str) -> (message: String)
    ensures
        message@ == invalid_type_text(found@, expected@),
        fixed_phrase(found@) matches Some(phrase) ==> message@ == "invalid type: "@ + phrase
            + ", expected "@ + expected@,
{
    let unexp = match found {
        Unexpected::Unit => serde::de::Unexpected::Unit,
        Unexpected::Bool(b) => serde::de::Unexpected::Bool(*b),
        Unexpected::Signed(n) => serde::de::Unexpected::Signed(*n),
        Unexpected::Str(s) => serde::de::Unexpected::Str(s),
        Unexpected::Sequence => serde::de::Unexpected::Seq,
        Unexpected::Mapping => serde::de::Unexpected::Map,
        Unexpected::Enum => serde::de::Unexpected::Enum,
    };
    let error: serde::de::value::Error = serde::de::Error::invalid_type(unexp, &expected);
    error.to_string()
}

/// A value of the wrong shape for the variant content that was asked for.
#[derive(Debug)]
pub struct Error {
    /// The shape of the value that was found.
    pub found: Unexpected,
    /// The kind of content that was asked for.
    pub expected: VariantKind,
    /// serde's "invalid type" message for the two.
    pub message: String,
}

impl Error {
    /// The message is serde's for what was found and what was expected.
    pub open spec fn wf(self) -> bool {
        is_invalid_type_message(self.message@, self.found@, self.expected.phrase())
    }

    /// The error for a value of shape `found` where `expected` was asked for.
    pub fn invalid_type(found: Unexpected, expected: VariantKind) -> (error: Error)
        ensures
            error.found == found,
            error.expected == expected,
            error.wf(),
    {
        let message = invalid_type(&found, expected.name());
        Error { found, expected, message }
    }

    /// The message, as an owned string.
    pub fn to_string(&self) -> (text: String)
        ensures
            text@ == self.message@,
    {
        self.message.clone()
    }
}

impl Value {
    /// The shape of the value, as an error reports it.
    pub open spec fn shape(self) -> UnexpectedView {
        match self {
            Value::Null => UnexpectedView::Unit,
            Value::Bool(b) => UnexpectedView::Bool(b),
            Value::Number(n) => UnexpectedView::Signed(n),
            Value::String(s) => UnexpectedView::Str(s@),
            Value::Sequence(_) => UnexpectedView::Sequence,
            Value::Mapping(_) => UnexpectedView::Mapping,
            Value::Tagged(_) => UnexpectedView::Enum,
        }
    }

    /// What an error says was found when this value is of the wrong shape.
    pub fn unexpected(&self) -> (found: Unexpected)
        ensures
            found@ == self.shape(),
    {
        match self {
            Value::Null => Unexpected::Unit,
            Value::Bool(b) => Unexpected::Bool(*b),
            Value::Number(n) => Unexpected::Signed(*n),
            Value::String(s) => Unexpected::Str(s.clone()),
            Value::Sequence(_) => Unexpected::Sequence,
            Value::Mapping(_) => Unexpected::Mapping,
            Value::Tagged(_) => Unexpected::Enum,
        }
    }

    /// The fields of a tuple variant: the items of the value when it is a
    /// sequence. Any other shape is an error that names the value and
    /// expects a tuple variant. The number of fields asked for plays no part.
    pub fn tuple_variant(self, _len: usize) -> (fields: Result<Sequence, Error>)
        ensures
            self is Sequence ==> fields == Ok::<Sequence, Error>(self->Sequence_0),
            !(self is Sequence) ==> fields is Err && is_mismatch(
                fields->Err_0,
                self,
                VariantKind::Tuple,
            ),
    {
        match self {
            Value::Sequence(items) => Ok(items),
            other => Err(Error::invalid_type(other.unexpected(), VariantKind::Tuple)),
        }
    }

    /// The fields of a struct variant: the entries of the value when it is a
    /// mapping. Any other shape is an error that names the value and expects
    /// a struct variant. The field names asked for play no part.
    pub fn struct_variant(self, _fields: &'static [&'static str]) -> (fields: Result<
        Mapping,
        Error,
    >)
        ensures
            self is Mapping ==> fields == Ok::<Mapping, Error>(self->Mapping_0),
            !(self is Mapping) ==> fields is Err && is_mismatch(
                fields->Err_0,
                self,
                VariantKind::Struct,
            ),
    {
        match self {
            Value::Mapping(entries) => Ok(entries),
            other => Err(Error::invalid_type(other.unexpected(), VariantKind::Struct)),
        }
    }

    /// `tuple_variant` on a borrowed value: the items stay where they are.
    pub fn tuple_variant_ref(&self, _len: usize) -> (fields: Result<&Sequence, Error>)
        ensures
            *self is Sequence ==> fields == Ok::<&Sequence, Error>(&self->Sequence_0),
            !(*self is Sequence) ==> fields is Err && is_mismatch(
                fields->Err_0,
                *self,
                VariantKind::Tuple,
            ),
    {
        match self {
            Value::Sequence(items) => Ok(items),
            other => Err(Error::invalid_type(other.unexpected(), VariantKind::Tuple)),
        }
    }

    /// `struct_variant` on a borrowed value: the entries stay where they are.
    pub fn struct_variant_ref(&self, _fields: &'static [&'static str]) -> (fields: Result<
        &Mapping,
        Error,
    >)
        ensures
            *self is Mapping ==> fields == Ok::<&Mapping, Error>(&self->Mapping_0),
            !(*self is Mapping) ==> fields is Err && is_mismatch(
                fields->Err_0,
                *self,
                VariantKind::Struct,
            ),
    {
        match self {
            Value::Mapping(entries) => Ok(entries),
            other => Err(Error::invalid_type(other.unexpected(), VariantKind::Struct)),
        }
    }
}

/// Whether `error` is the shape mismatch of `value` against `expected`: it
/// reports the value's shape, the kind asked for, and serde's message for
/// the two.
pub open spec fn is_mismatch(error: Error, value: Value, expected: VariantKind) -> bool {
    &&& error.found@ == value.shape()
    &&& error.expected == expected
    &&& error.wf()
}

impl TaggedValue {
    /// The name by which a consumer picks the variant: the tag without its
    /// marker.
    pub fn discriminator(&self) -> (name: &str)
        ensures
            name@ == self.tag.payload(),
    {
        nobang(self.tag.as_str())
    }
}

} // verus!
