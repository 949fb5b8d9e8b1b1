//! The wire form of a journey's header.

use vstd::prelude::*;

pub mod header;

verus! {

/// The header message as it crosses the wire: strings, integers and optional
/// fields, with the enumerated `type` kept as its number.
#[derive(Clone, Debug, PartialEq, Eq)]
pub struct Header {
    pub id: String,
    pub revision: String,
    pub journey_date__days_since_epoch: i32,
    pub created_at__timestamp_sec: i64,
    pub updated_at__timestamp_sec: Option<i64>,
    pub end__timestamp_sec: Option<i64>,
    pub start__timestamp_sec: Option<i64>,
    pub type_: i32,
    pub kind: Option<header::Kind>,
    pub note: Option<String>,
    pub postprocessor_algo: Option<String>,
}

/// What a `Header` stands for.
pub ghost struct HeaderView {
    pub id: Seq<char>,
    pub revision: Seq<char>,
    pub journey_date__days_since_epoch: int,
    pub created_at__timestamp_sec: int,
    pub updated_at__timestamp_sec: Option<int>,
    pub end__timestamp_sec: Option<int>,
    pub start__timestamp_sec: Option<int>,
    pub type_: int,
    pub kind: Option<Option<header::kind::KindView>>,
    pub note: Option<Seq<char>>,
    pub postprocessor_algo: Option<Seq<char>>,
}

/// What an optional string stands for.
pub open spec fn optional_text(text: Option<String>) -> Option<Seq<char>> {
    match text {
        Some(s) => Some(s@),
        None => None,
    }
}

/// What an optional count of seconds stands for.
pub open spec fn optional_seconds(secs: Option<i64>) -> Option<int> {
    match secs {
        Some(s) => Some(s as int),
        None => None,
    }
}

impl View for Header {
    type V = HeaderView;

    open spec fn view(&self) -> HeaderView {
        HeaderView {
            id: self.id@,
            revision: self.revision@,
            journey_date__days_since_epoch: self.journey_date__days_since_epoch as int,
            created_at__timestamp_sec: self.created_at__timestamp_sec as int,
            updated_at__timestamp_sec: optional_seconds(self.updated_at__timestamp_sec),
            end__timestamp_sec: optional_seconds(self.end__timestamp_sec),
            start__timestamp_sec: optional_seconds(self.start__timestamp_sec),
            type_: self.type_ as int,
            kind: match self.kind {
                Some(message) => Some(message@),
                None => None,
            },
            note: optional_text(self.note),
            postprocessor_algo: optional_text(self.postprocessor_algo),
        }
    }
}

impl Header {
    /// The header in which every field has its default: empty strings,
    /// zeroes, the first `type`, and nothing in the optional fields.
    pub open spec fn spec_new() -> HeaderView {
        HeaderView {
            id: Seq::empty(),
            revision: Seq::empty(),
            journey_date__days_since_epoch: 0,
            created_at__timestamp_sec: 0,
            updated_at__timestamp_sec: None,
            end__timestamp_sec: None,
            start__timestamp_sec: None,
            type_: 0,
            kind: None,
            note: None,
            postprocessor_algo: None,
        }
    }

    /// The header in which every field has its default.
    pub fn new() -> (r: Header)
        ensures
            r@ == Self::spec_new(),
    {
        Header {
            id: String::new(),
            revision: String::new(),
            journey_date__days_since_epoch: 0,
            created_at__timestamp_sec: 0,
            updated_at__timestamp_sec: None,
            end__timestamp_sec: None,
            start__timestamp_sec: None,
            type_: 0,
            kind: None,
            note: None,
            postprocessor_algo: None,
        }
    }
}

} // verus!
