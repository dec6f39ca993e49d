//! Decode failures: a structured kind, the field concerned, and the offending
//! text. A failure aborts the whole record; an empty field never fails.

use vstd::prelude::*;

verus! {

/// What went wrong with a present field.
#[derive(Clone, Copy, Debug, PartialEq, Eq, Structural)]
pub enum ParseErrorKind {
    /// A present field could not be read as the expected numeral.
    MalformedNumeral,
    /// A present field held a letter outside its recognized alphabet.
    InvalidEnumeration,
    /// The sentence's type code names no handler of this crate.
    UnsupportedSentence,
}

/// The positional field a failure speaks of.
#[derive(Clone, Copy, Debug, PartialEq, Eq, Structural)]
pub enum FieldName {
    SentenceType,
    Status,
    Latitude,
    LatitudeHemisphere,
    Longitude,
    LongitudeHemisphere,
    SpeedOverGround,
    TrackAngle,
    Variation,
    VariationSide,
}

/// Ghost image of a decode failure.
pub ghost struct ErrorView {
    pub kind: ParseErrorKind,
    pub field: FieldName,
    pub value: Seq<char>,
}

/// A decode failure: its kind, the field it names, and a copy of the
/// offending field text.
#[derive(Clone, Debug, PartialEq, Eq)]
pub struct ParseError {
    pub kind: ParseErrorKind,
    pub field: FieldName,
    pub value: String,
}

impl View for ParseError {
    type V = ErrorView;

    open spec fn view(&self) -> ErrorView {
        ErrorView { kind: self.kind, field: self.field, value: self.value@ }
    }
}

impl ParseError {
    /// Record a failure, copying the offending field text out of the sentence.
    pub fn new(kind: ParseErrorKind, field: FieldName, value: &str) -> (e: ParseError)
        ensures
            e@ == (ErrorView { kind, field, value: value@ }),
    {
        ParseError { kind, field, value: value.to_owned() }
    }
}

} // verus!
