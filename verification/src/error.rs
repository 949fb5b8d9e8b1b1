//! Failures that decoding journey metadata can report.

use vstd::prelude::*;

verus! {

/// Why a piece of journey metadata was rejected.
///
/// The first three variants are validation failures: the record is malformed
/// and is rejected rather than repaired. The last one marks a record that is
/// well formed but asks for something this library has no representation for.
#[derive(Clone, Debug, PartialEq, Eq)]
pub enum JourneyError {
    /// An integer that is not the number of any journey type.
    InvalidJourneyTypeInt(i8),
    /// A wire enum number that is not the number of any journey type.
    UnknownJourneyType(i32),
    /// The wire header carries no `kind` field.
    MissingKind,
    /// The wire header asks for a custom kind, given here by its name.
    UnsupportedKind(String),
}

/// What a `JourneyError` stands for.
pub ghost enum JourneyErrorView {
    InvalidJourneyTypeInt(int),
    UnknownJourneyType(int),
    MissingKind,
    UnsupportedKind(Seq<char>),
}

impl JourneyErrorView {
    /// Whether this failure is a validation failure.
    pub open spec fn is_validation(self) -> bool {
        !(self is UnsupportedKind)
    }
}

impl View for JourneyError {
    type V = JourneyErrorView;

    open spec fn view(&self) -> JourneyErrorView {
        match *self {
            JourneyError::InvalidJourneyTypeInt(i) => JourneyErrorView::InvalidJourneyTypeInt(
                i as int,
            ),
            JourneyError::UnknownJourneyType(value) => JourneyErrorView::UnknownJourneyType(
                value as int,
            ),
            JourneyError::MissingKind => JourneyErrorView::MissingKind,
            JourneyError::UnsupportedKind(name) => JourneyErrorView::UnsupportedKind(name@),
        }
    }
}

/// What the outcome of a fallible step stands for: the value as it is, the
/// failure by its view.
pub open spec fn outcome<T>(r: Result<T, JourneyError>) -> Result<T, JourneyErrorView> {
    match r {
        Ok(value) => Ok(value),
        Err(e) => Err(e@),
    }
}

impl JourneyError {
    /// Whether this failure is a validation failure, as opposed to an
    /// unsupported custom kind.
    pub fn is_validation(&self) -> (r: bool)
        ensures
            r == self@.is_validation(),
    {
        match self {
            JourneyError::UnsupportedKind(_) => false,
            _ => true,
        }
    }

    /// Whether this failure reports an unsupported custom kind.
    pub fn is_unsupported_kind(&self) -> (r: bool)
        ensures
            r == (self@ is UnsupportedKind),
    {
        match self {
            JourneyError::UnsupportedKind(_) => true,
            _ => false,
        }
    }
}

} // verus!
