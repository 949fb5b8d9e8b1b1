//! The enumerations and messages nested in the wire header.

use vstd::prelude::*;

pub mod kind;

verus! {

/// How a journey's track is stored, as the wire enumerates it.
#[allow(non_camel_case_types)]
#[derive(Copy, Clone, Debug, PartialEq, Eq, Hash)]
pub enum Type {
    VECTOR,
    BITMAP,
}

impl Type {
    /// The wire number of this value: 0 for `VECTOR`, 1 for `BITMAP`.
    pub open spec fn spec_value(self) -> int {
        match self {
            Type::VECTOR => 0,
            Type::BITMAP => 1,
        }
    }

    /// The value that a wire number stands for, if any.
    pub open spec fn spec_from_i32(value: int) -> Option<Type> {
        if value == 0 {
            Some(Type::VECTOR)
        } else if value == 1 {
            Some(Type::BITMAP)
        } else {
            None
        }
    }

    /// The wire number of this value.
    pub fn value(&self) -> (r: i32)
        ensures
            r == self.spec_value(),
    {
        match self {
            Type::VECTOR => 0,
            Type::BITMAP => 1,
        }
    }

    /// The value that a wire number stands for, if any.
    pub fn from_i32(value: i32) -> (r: Option<Type>)
        ensures
            r == Self::spec_from_i32(value as int),
    {
        match value {
            0 => Some(Type::VECTOR),
            1 => Some(Type::BITMAP),
            _ => None,
        }
    }

    /// A value's wire number is read back as that value, and a number is
    /// read as a value only if it is that value's number.
    pub proof fn lemma_value_round_trip(t: Type, value: int)
        ensures
            Self::spec_from_i32(t.spec_value()) == Some(t),
            Self::spec_from_i32(value) matches Some(read) ==> read.spec_value() == value,
            Self::spec_from_i32(value) is Some <==> value == 0 || value == 1,
    {
    }
}

/// The message that says what kind of journey a header describes. Its one
/// field holds at most one alternative.
#[derive(Clone, Debug, PartialEq, Eq)]
pub struct Kind {
    pub kind: Option<kind::Kind>,
}

impl View for Kind {
    type V = Option<kind::KindView>;

    open spec fn view(&self) -> Option<kind::KindView> {
        match self.kind {
            Some(alternative) => Some(alternative@),
            None => None,
        }
    }
}

impl Kind {
    /// Whether a message holds the name of a custom kind.
    pub open spec fn spec_has_custom_kind(message: Option<kind::KindView>) -> bool {
        message matches Some(kind::KindView::CustomKind(_))
    }

    /// The custom kind's name that reading a message yields: the empty
    /// string where it holds none.
    pub open spec fn spec_custom_kind(message: Option<kind::KindView>) -> Seq<char> {
        match message {
            Some(kind::KindView::CustomKind(name)) => name,
            _ => Seq::empty(),
        }
    }

    /// The built-in kind that reading a message yields: `DEFAULT` where it
    /// holds none, or a number that stands for none.
    pub open spec fn spec_build_in(message: Option<kind::KindView>) -> kind::BuiltIn {
        match message {
            Some(kind::KindView::BuildIn(value)) => kind::BuiltIn::spec_from_i32_or_default(value),
            _ => kind::BuiltIn::DEFAULT,
        }
    }

    /// A message with its field unset.
    pub fn new() -> (r: Kind)
        ensures
            r@ is None,
    {
        Kind { kind: None }
    }

    /// Whether the field holds the name of a custom kind.
    pub fn has_custom_kind(&self) -> (r: bool)
        ensures
            r == Self::spec_has_custom_kind(self@),
    {
        match &self.kind {
            Some(kind::Kind::CustomKind(_)) => true,
            _ => false,
        }
    }

    /// The name of the custom kind that the field holds; the empty string
    /// where it holds none.
    pub fn custom_kind(&self) -> (r: &str)
        ensures
            r@ == Self::spec_custom_kind(self@),
    {
        match &self.kind {
            Some(kind::Kind::CustomKind(name)) => name.as_str(),
            _ => {
                proof {
                    reveal_strlit("");
                }
                assert(""@ =~= Seq::<char>::empty());
                ""
            },
        }
    }

    /// The built-in kind that the field holds; `DEFAULT` where it holds none,
    /// or a number that stands for none.
    pub fn build_in(&self) -> (r: kind::BuiltIn)
        ensures
            r == Self::spec_build_in(self@),
    {
        match &self.kind {
            Some(kind::Kind::BuildIn(value)) => match kind::BuiltIn::from_i32(*value) {
                Some(built_in) => built_in,
                None => kind::BuiltIn::DEFAULT,
            },
            _ => kind::BuiltIn::DEFAULT,
        }
    }

    /// Makes the field hold the given built-in kind, whatever it held.
    pub fn set_build_in(&mut self, v: kind::BuiltIn)
        ensures
            final(self)@ == Some(kind::KindView::BuildIn(v.spec_value())),
    {
        self.kind = Some(kind::Kind::BuildIn(v.value()));
    }
}

} // verus!
