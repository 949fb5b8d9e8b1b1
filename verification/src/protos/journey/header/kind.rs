//! What the `kind` field of a header's `Kind` message can hold.

use vstd::prelude::*;

verus! {

/// The kinds that are built in, as the wire enumerates them.
#[allow(non_camel_case_types)]
#[derive(Copy, Clone, Debug, PartialEq, Eq, Hash)]
pub enum BuiltIn {
    DEFAULT,
    FLIGHT,
}

impl BuiltIn {
    /// The wire number of this value: 0 for `DEFAULT`, 1 for `FLIGHT`.
    pub open spec fn spec_value(self) -> int {
        match self {
            BuiltIn::DEFAULT => 0,
            BuiltIn::FLIGHT => 1,
        }
    }

    /// The value that a wire number stands for, if any.
    pub open spec fn spec_from_i32(value: int) -> Option<BuiltIn> {
        if value == 0 {
            Some(BuiltIn::DEFAULT)
        } else if value == 1 {
            Some(BuiltIn::FLIGHT)
        } else {
            None
        }
    }

    /// The value that reading a wire number yields: an unknown number reads
    /// as `DEFAULT`.
    pub open spec fn spec_from_i32_or_default(value: int) -> BuiltIn {
        match Self::spec_from_i32(value) {
            Some(built_in) => built_in,
            None => BuiltIn::DEFAULT,
        }
    }

    /// The wire number of this value.
    pub fn value(&self) -> (r: i32)
        ensures
            r == self.spec_value(),
    {
        match self {
            BuiltIn::DEFAULT => 0,
            BuiltIn::FLIGHT => 1,
        }
    }

    /// The value that a wire number stands for, if any.
    pub fn from_i32(value: i32) -> (r: Option<BuiltIn>)
        ensures
            r == Self::spec_from_i32(value as int),
    {
        match value {
            0 => Some(BuiltIn::DEFAULT),
            1 => Some(BuiltIn::FLIGHT),
            _ => None,
        }
    }
}

/// The alternatives of the `kind` field: the number of a built-in kind, kept
/// as it came so that an unknown number survives, or the name of a custom one.
#[derive(Clone, Debug, PartialEq, Eq)]
pub enum Kind {
    BuildIn(i32),
    CustomKind(String),
}

/// What a `Kind` alternative stands for.
pub ghost enum KindView {
    BuildIn(int),
    CustomKind(Seq<char>),
}

impl View for Kind {
    type V = KindView;

    open spec fn view(&self) -> KindView {
        match *self {
            Kind::BuildIn(value) => KindView::BuildIn(value as int),
            Kind::CustomKind(name) => KindView::CustomKind(name@),
        }
    }
}

} // verus!
