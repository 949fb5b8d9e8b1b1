//! The in-memory journey header, its closed variants, and the conversion of
//! each to and from its wire form.

use vstd::prelude::*;
use crate::error::{outcome, JourneyError, JourneyErrorView};
use crate::protos;
use crate::protos::journey::header::kind::{BuiltIn, KindView};
use crate::protos::journey::{optional_text, HeaderView};
use crate::time::{date_in_range, instant_in_range, seconds_in_range, CalendarDate, Instant,
    Timestamp};
use crate::utils;

verus! {

/// How a journey's track is stored.
#[derive(Copy, Clone, Debug, PartialEq, Eq, Hash)]
pub enum JourneyType {
    Vector,
    Bitmap,
}

impl JourneyType {
    /// The number that stands for this type: 0 for `Vector`, 1 for `Bitmap`.
    pub open spec fn spec_to_int(self) -> int {
        match self {
            JourneyType::Vector => 0,
            JourneyType::Bitmap => 1,
        }
    }

    /// The type that a number stands for, or the validation failure that
    /// rejects the number.
    pub open spec fn spec_of_int(i: int) -> Result<JourneyType, JourneyErrorView> {
        if i == 0 {
            Ok(JourneyType::Vector)
        } else if i == 1 {
            Ok(JourneyType::Bitmap)
        } else {
            Err(JourneyErrorView::InvalidJourneyTypeInt(i))
        }
    }

    /// The wire value of this type.
    pub open spec fn spec_to_proto(self) -> protos::journey::header::Type {
        match self {
            JourneyType::Vector => protos::journey::header::Type::VECTOR,
            JourneyType::Bitmap => protos::journey::header::Type::BITMAP,
        }
    }

    /// The type that a wire value stands for.
    pub open spec fn spec_of_proto(proto: protos::journey::header::Type) -> JourneyType {
        match proto {
            protos::journey::header::Type::VECTOR => JourneyType::Vector,
            protos::journey::header::Type::BITMAP => JourneyType::Bitmap,
        }
    }

    /// Every journey type, in the order of their numbers.
    pub open spec fn spec_all() -> Seq<JourneyType> {
        seq![JourneyType::Vector, JourneyType::Bitmap]
    }

    /// Every journey type, each once, in the order of their numbers.
    pub fn all() -> (r: Vec<JourneyType>)
        ensures
            r@ == Self::spec_all(),
    {
        vec![JourneyType::Vector, JourneyType::Bitmap]
    }

    /// The list of all types leaves no type out and holds none twice.
    pub proof fn lemma_all_is_complete(t: JourneyType)
        ensures
            Self::spec_all().contains(t),
            Self::spec_all().no_duplicates(),
            Self::spec_all()[t.spec_to_int()] == t,
    {
        assert(Self::spec_all()[t.spec_to_int()] == t);
    }

    /// The number that stands for this type.
    pub fn to_int(&self) -> (r: i8)
        ensures
            r == self.spec_to_int(),
    {
        match self {
            JourneyType::Vector => 0,
            JourneyType::Bitmap => 1,
        }
    }

    /// The type that a number stands for. A number that stands for none is
    /// rejected as invalid.
    pub fn of_int(i: i8) -> (r: Result<Self, JourneyError>)
        ensures
            outcome(r) == Self::spec_of_int(i as int),
    {
        match i {
            0 => Ok(JourneyType::Vector),
            1 => Ok(JourneyType::Bitmap),
            _ => Err(JourneyError::InvalidJourneyTypeInt(i)),
        }
    }

    /// The wire value of this type.
    pub fn to_proto(self) -> (r: protos::journey::header::Type)
        ensures
            r == self.spec_to_proto(),
    {
        match self {
            JourneyType::Vector => protos::journey::header::Type::VECTOR,
            JourneyType::Bitmap => protos::journey::header::Type::BITMAP,
        }
    }

    /// The type that a wire value stands for.
    pub fn of_proto(proto: protos::journey::header::Type) -> (r: Self)
        ensures
            r == Self::spec_of_proto(proto),
    {
        match proto {
            protos::journey::header::Type::VECTOR => JourneyType::Vector,
            protos::journey::header::Type::BITMAP => JourneyType::Bitmap,
        }
    }

    /// Turning a type into its number and the number back into a type gives
    /// the type that was started from.
    pub proof fn lemma_int_round_trip(t: JourneyType)
        ensures
            -128 <= t.spec_to_int() <= 127,
            Self::spec_of_int(t.spec_to_int()) == Ok::<JourneyType, JourneyErrorView>(t),
    {
    }

    /// A number is accepted exactly when it is the number of some type, which
    /// is then the one that comes back; any other number is rejected with a
    /// validation failure that names it.
    pub proof fn lemma_of_int_accepts_only_type_numbers(i: int)
        ensures
            Self::spec_of_int(i) is Ok <==> exists|t: JourneyType| #[trigger] t.spec_to_int() == i,
            Self::spec_of_int(i) matches Ok(t) ==> t.spec_to_int() == i,
            Self::spec_of_int(i) matches Err(e) ==> e == JourneyErrorView::InvalidJourneyTypeInt(i)
                && e.is_validation(),
    {
        if i == 0 {
            assert(JourneyType::Vector.spec_to_int() == i);
        } else if i == 1 {
            assert(JourneyType::Bitmap.spec_to_int() == i);
        }
    }

    /// Turning a type into its wire value and back gives the type that was
    /// started from, and so does the same walk begun at a wire value.
    pub proof fn lemma_proto_round_trip(t: JourneyType, proto: protos::journey::header::Type)
        ensures
            Self::spec_of_proto(t.spec_to_proto()) == t,
            Self::spec_of_proto(proto).spec_to_proto() == proto,
            t.spec_to_proto().spec_value() == t.spec_to_int(),
    {
    }
}

/// What a journey was: an ordinary one, or a flight.
#[derive(Eq, Hash, Clone, Copy, Debug, PartialEq)]
pub enum JourneyKind {
    DefaultKind,
    Flight,
}

impl JourneyKind {
    /// The built-in wire kind that this kind is written as.
    pub open spec fn spec_built_in(self) -> BuiltIn {
        match self {
            JourneyKind::DefaultKind => BuiltIn::DEFAULT,
            JourneyKind::Flight => BuiltIn::FLIGHT,
        }
    }

    /// The wire message of this kind: its field holds the number of the
    /// built-in kind.
    pub open spec fn spec_to_proto(self) -> Option<KindView> {
        Some(KindView::BuildIn(self.spec_built_in().spec_value()))
    }

    /// The kind that a wire message stands for. A custom kind is rejected
    /// under its name. Any other message is read as the built-in kind that
    /// its accessor yields, which is `DEFAULT` for an unset field and for a
    /// number that stands for no kind.
    pub open spec fn spec_of_proto(proto: Option<KindView>) -> Result<
        JourneyKind,
        JourneyErrorView,
    > {
        if protos::journey::header::Kind::spec_has_custom_kind(proto) {
            Err(
                JourneyErrorView::UnsupportedKind(
                    protos::journey::header::Kind::spec_custom_kind(proto),
                ),
            )
        } else {
            match protos::journey::header::Kind::spec_build_in(proto) {
                BuiltIn::DEFAULT => Ok(JourneyKind::DefaultKind),
                BuiltIn::FLIGHT => Ok(JourneyKind::Flight),
            }
        }
    }

    /// The wire message of this kind.
    pub fn to_proto(self) -> (r: protos::journey::header::Kind)
        ensures
            r@ == self.spec_to_proto(),
    {
        let mut kind = protos::journey::header::Kind::new();
        match self {
            JourneyKind::DefaultKind => kind.set_build_in(BuiltIn::DEFAULT),
            JourneyKind::Flight => kind.set_build_in(BuiltIn::FLIGHT),
        };
        kind
    }

    /// The kind that a wire message stands for. A custom kind is rejected as
    /// unsupported, under its name.
    pub fn of_proto(proto: protos::journey::header::Kind) -> (r: Result<Self, JourneyError>)
        ensures
            outcome(r) == Self::spec_of_proto(proto@),
    {
        if proto.has_custom_kind() {
            let custom_kind = proto.custom_kind();
            return Err(JourneyError::UnsupportedKind(custom_kind.to_owned()));
        }
        match proto.build_in() {
            BuiltIn::DEFAULT => Ok(JourneyKind::DefaultKind),
            BuiltIn::FLIGHT => Ok(JourneyKind::Flight),
        }
    }

    /// Writing a kind as a wire message and reading the message gives the
    /// kind that was started from.
    pub proof fn lemma_proto_round_trip(k: JourneyKind)
        ensures
            Self::spec_of_proto(k.spec_to_proto()) == Ok::<JourneyKind, JourneyErrorView>(k),
    {
    }

    /// A message is rejected exactly when it holds a custom kind, and the
    /// failure is then the unsupported kind under the custom kind's name: no
    /// validation failure.
    pub proof fn lemma_custom_kind_rejected(proto: Option<KindView>)
        ensures
            Self::spec_of_proto(proto) is Err <==> proto matches Some(KindView::CustomKind(_)),
            proto matches Some(KindView::CustomKind(name)) ==> Self::spec_of_proto(proto) == Err::<
                JourneyKind,
                JourneyErrorView,
            >(JourneyErrorView::UnsupportedKind(name)),
            Self::spec_of_proto(proto) matches Err(e) ==> !e.is_validation(),
    {
    }
}

/// A journey's metadata.
#[derive(Clone, Debug, PartialEq)]
pub struct JourneyHeader {
    pub id: String,
    pub revision: String,
    pub journey_date: CalendarDate,
    pub created_at: Timestamp,
    pub updated_at: Option<Timestamp>,
    pub start: Option<Timestamp>,
    pub end: Option<Timestamp>,
    pub journey_type: JourneyType,
    pub journey_kind: JourneyKind,
    pub note: Option<String>,
    pub postprocessor_algo: Option<String>,
}

/// What a `JourneyHeader` stands for.
pub ghost struct JourneyHeaderView {
    pub id: Seq<char>,
    pub revision: Seq<char>,
    pub journey_date: int,
    pub created_at: Instant,
    pub updated_at: Option<Instant>,
    pub start: Option<Instant>,
    pub end: Option<Instant>,
    pub journey_type: JourneyType,
    pub journey_kind: JourneyKind,
    pub note: Option<Seq<char>>,
    pub postprocessor_algo: Option<Seq<char>>,
}

/// What an optional instant stands for.
pub open spec fn optional_instant(instant: Option<Timestamp>) -> Option<Instant> {
    match instant {
        Some(t) => Some(t@),
        None => None,
    }
}

/// The seconds of an optional instant; what lies below a second is left out.
pub open spec fn optional_instant_seconds(instant: Option<Instant>) -> Option<int> {
    match instant {
        Some(t) => Some(t.secs),
        None => None,
    }
}

/// The instant that an optional count of seconds is read as: the whole
/// second that it counts, where that can be represented, and nothing
/// otherwise.
pub open spec fn optional_instant_of_seconds(secs: Option<int>) -> Option<Instant> {
    match secs {
        Some(s) if seconds_in_range(s) => Some(Instant { secs: s, nanos: 0 }),
        _ => None,
    }
}

/// Whether an optional instant, where there is one, can be represented.
pub open spec fn optional_instant_in_range(instant: Option<Instant>) -> bool {
    instant matches Some(t) ==> instant_in_range(t.secs, t.nanos)
}

/// Whether an optional instant, where there is one, falls on a whole second.
pub open spec fn optional_instant_is_whole_second(instant: Option<Instant>) -> bool {
    instant matches Some(t) ==> t.nanos == 0
}

impl JourneyHeaderView {
    /// Whether the date and every instant of the header can be represented.
    pub open spec fn wf(self) -> bool {
        &&& date_in_range(self.journey_date)
        &&& instant_in_range(self.created_at.secs, self.created_at.nanos)
        &&& optional_instant_in_range(self.updated_at)
        &&& optional_instant_in_range(self.start)
        &&& optional_instant_in_range(self.end)
    }

    /// Whether every instant of the header falls on a whole second.
    pub open spec fn is_whole_seconds(self) -> bool {
        &&& self.created_at.nanos == 0
        &&& optional_instant_is_whole_second(self.updated_at)
        &&& optional_instant_is_whole_second(self.start)
        &&& optional_instant_is_whole_second(self.end)
    }
}

impl View for JourneyHeader {
    type V = JourneyHeaderView;

    open spec fn view(&self) -> JourneyHeaderView {
        JourneyHeaderView {
            id: self.id@,
            revision: self.revision@,
            journey_date: self.journey_date@,
            created_at: self.created_at@,
            updated_at: optional_instant(self.updated_at),
            start: optional_instant(self.start),
            end: optional_instant(self.end),
            journey_type: self.journey_type,
            journey_kind: self.journey_kind,
            note: optional_text(self.note),
            postprocessor_algo: optional_text(self.postprocessor_algo),
        }
    }
}

/// What the outcome of decoding a header stands for.
pub open spec fn header_outcome(r: Result<JourneyHeader, JourneyError>) -> Result<
    JourneyHeaderView,
    JourneyErrorView,
> {
    match r {
        Ok(header) => Ok(header@),
        Err(e) => Err(e@),
    }
}

impl JourneyHeader {
    /// A header is well formed when its date and every instant in it can be
    /// represented.
    pub open spec fn wf(self) -> bool {
        self@.wf()
    }

    /// The wire form of a header. Every field is carried over; of an instant
    /// only the whole seconds are, and the kind is always present.
    pub open spec fn spec_to_proto(header: JourneyHeaderView) -> HeaderView {
        HeaderView {
            id: header.id,
            revision: header.revision,
            journey_date__days_since_epoch: header.journey_date,
            created_at__timestamp_sec: header.created_at.secs,
            updated_at__timestamp_sec: optional_instant_seconds(header.updated_at),
            end__timestamp_sec: optional_instant_seconds(header.end),
            start__timestamp_sec: optional_instant_seconds(header.start),
            type_: header.journey_type.spec_to_proto().spec_value(),
            kind: Some(header.journey_kind.spec_to_proto()),
            note: header.note,
            postprocessor_algo: header.postprocessor_algo,
        }
    }

    /// Whether decoding can read the date and the time of creation of a wire
    /// header. Nothing is asked of a header whose `type` is unknown, since
    /// that one is rejected before either is read.
    pub open spec fn spec_decodable(proto: HeaderView) -> bool {
        protos::journey::header::Type::spec_from_i32(proto.type_) is Some ==> {
            &&& date_in_range(proto.journey_date__days_since_epoch)
            &&& seconds_in_range(proto.created_at__timestamp_sec)
        }
    }

    /// The header that a wire header stands for, or the failure that rejects
    /// it. An unknown `type` number is rejected first, then a missing kind,
    /// then a custom kind. In a header that is accepted every instant falls
    /// on a whole second, and an optional instant that cannot be represented
    /// is absent.
    pub open spec fn spec_of_proto(proto: HeaderView) -> Result<
        JourneyHeaderView,
        JourneyErrorView,
    > {
        match protos::journey::header::Type::spec_from_i32(proto.type_) {
            None => Err(JourneyErrorView::UnknownJourneyType(proto.type_)),
            Some(journey_type) => match proto.kind {
                None => Err(JourneyErrorView::MissingKind),
                Some(kind) => match JourneyKind::spec_of_proto(kind) {
                    Err(e) => Err(e),
                    Ok(journey_kind) => Ok(
                        JourneyHeaderView {
                            id: proto.id,
                            revision: proto.revision,
                            journey_date: proto.journey_date__days_since_epoch,
                            created_at: Instant { secs: proto.created_at__timestamp_sec, nanos: 0 },
                            updated_at: optional_instant_of_seconds(
                                proto.updated_at__timestamp_sec,
                            ),
                            start: optional_instant_of_seconds(proto.start__timestamp_sec),
                            end: optional_instant_of_seconds(proto.end__timestamp_sec),
                            journey_type: JourneyType::spec_of_proto(journey_type),
                            journey_kind,
                            note: proto.note,
                            postprocessor_algo: proto.postprocessor_algo,
                        },
                    ),
                },
            },
        }
    }

    /// Whether the date and the time of creation of a wire header can be
    /// read, which `of_proto` asks of its argument.
    pub fn decodable(proto: &protos::journey::Header) -> (r: bool)
        ensures
            r == Self::spec_decodable(proto@),
    {
        if protos::journey::header::Type::from_i32(proto.type_).is_none() {
            return true;
        }
        CalendarDate::from_days_since_epoch(proto.journey_date__days_since_epoch).is_some()
            && Timestamp::from_secs(proto.created_at__timestamp_sec).is_some()
    }

    /// Reads a header from its wire form. The header is rejected where its
    /// `type` number is unknown, its kind is missing, or its kind is a custom
    /// one. The date and the time of creation must be ones that can be
    /// represented, which `decodable` tests; an optional instant that cannot
    /// be is read as absent.
    pub fn of_proto(proto: protos::journey::Header) -> (r: Result<Self, JourneyError>)
        requires
            Self::spec_decodable(proto@),
        ensures
            header_outcome(r) == Self::spec_of_proto(proto@),
            r matches Ok(header) ==> header.wf(),
    {
        let mut proto = proto;
        let journey_type = match protos::journey::header::Type::from_i32(proto.type_) {
            Some(journey_type) => journey_type,
            None => {
                return Err(JourneyError::UnknownJourneyType(proto.type_));
            },
        };
        let journey_date = utils::date_of_days_since_epoch(proto.journey_date__days_since_epoch);
        let created_at = Timestamp::from_secs(proto.created_at__timestamp_sec).unwrap();
        let updated_at = optional_timestamp(proto.updated_at__timestamp_sec);
        let end = optional_timestamp(proto.end__timestamp_sec);
        let start = optional_timestamp(proto.start__timestamp_sec);
        let journey_kind = match proto.kind.take() {
            None => {
                return Err(JourneyError::MissingKind);
            },
            Some(kind) => match JourneyKind::of_proto(kind) {
                Ok(journey_kind) => journey_kind,
                Err(e) => {
                    return Err(e);
                },
            },
        };
        Ok(
            JourneyHeader {
                id: proto.id,
                revision: proto.revision,
                journey_date,
                created_at,
                updated_at,
                start,
                end,
                journey_type: JourneyType::of_proto(journey_type),
                journey_kind,
                note: proto.note,
                postprocessor_algo: proto.postprocessor_algo,
            },
        )
    }

    /// Writes the header in its wire form. Of each instant the whole seconds
    /// are written; what lies below a second is left out.
    pub fn to_proto(self) -> (r: protos::journey::Header)
        ensures
            r@ == Self::spec_to_proto(self@),
    {
        let JourneyHeader {
            id,
            revision,
            journey_date,
            created_at,
            updated_at,
            start,
            end,
            journey_type,
            journey_kind,
            note,
            postprocessor_algo,
        } = self;
        let mut proto = protos::journey::Header::new();
        proto.id = id;
        proto.revision = revision;
        proto.journey_date__days_since_epoch = utils::date_to_days_since_epoch(journey_date);
        proto.created_at__timestamp_sec = created_at.timestamp();
        proto.updated_at__timestamp_sec = optional_seconds_of(updated_at);
        proto.end__timestamp_sec = optional_seconds_of(end);
        proto.start__timestamp_sec = optional_seconds_of(start);
        proto.type_ = journey_type.to_proto().value();
        proto.kind = Some(journey_kind.to_proto());
        proto.note = note;
        proto.postprocessor_algo = postprocessor_algo;
        proto
    }

    /// Headers that stand for the same thing have the same date, instants,
    /// type and kind, and strings of the same characters.
    pub proof fn lemma_view_determines_fields(a: JourneyHeader, b: JourneyHeader)
        requires
            a@ == b@,
        ensures
            a.journey_date == b.journey_date,
            a.created_at == b.created_at,
            a.updated_at == b.updated_at,
            a.start == b.start,
            a.end == b.end,
            a.journey_type == b.journey_type,
            a.journey_kind == b.journey_kind,
            a.id@ == b.id@,
            a.revision@ == b.revision@,
            optional_text(a.note) == optional_text(b.note),
            optional_text(a.postprocessor_algo) == optional_text(b.postprocessor_algo),
    {
        CalendarDate::lemma_view_injective(a.journey_date, b.journey_date);
        Timestamp::lemma_view_injective(a.created_at, b.created_at);
        lemma_optional_instant_injective(a.updated_at, b.updated_at);
        lemma_optional_instant_injective(a.start, b.start);
        lemma_optional_instant_injective(a.end, b.end);
    }

    /// A wire header is rejected exactly when its `type` number is unknown,
    /// its kind is missing, or its kind is a custom one. The first two are
    /// validation failures, the first naming the number; the third is the
    /// unsupported kind under the custom kind's name. Where more than one
    /// applies, the one named first here is reported.
    pub proof fn lemma_rejections(proto: HeaderView)
        ensures
            Self::spec_of_proto(proto) is Err <==> {
                ||| protos::journey::header::Type::spec_from_i32(proto.type_) is None
                ||| proto.kind is None
                ||| proto.kind matches Some(Some(KindView::CustomKind(_)))
            },
            !(proto.type_ == 0 || proto.type_ == 1) ==> Self::spec_of_proto(proto) == Err::<
                JourneyHeaderView,
                JourneyErrorView,
            >(JourneyErrorView::UnknownJourneyType(proto.type_)),
            (proto.type_ == 0 || proto.type_ == 1) && proto.kind is None ==> Self::spec_of_proto(
                proto,
            ) == Err::<JourneyHeaderView, JourneyErrorView>(JourneyErrorView::MissingKind),
            (proto.type_ == 0 || proto.type_ == 1) ==> (proto.kind matches Some(
                Some(KindView::CustomKind(name)),
            ) ==> Self::spec_of_proto(proto) == Err::<JourneyHeaderView, JourneyErrorView>(
                JourneyErrorView::UnsupportedKind(name),
            )),
            Self::spec_of_proto(proto) matches Err(e) ==> (e.is_validation() <==> {
                ||| protos::journey::header::Type::spec_from_i32(proto.type_) is None
                ||| proto.kind is None
            }),
    {
    }

    /// A header that was read from the wire is well formed wherever reading
    /// was possible, and all its instants fall on whole seconds.
    pub proof fn lemma_decoded_is_well_formed(proto: HeaderView)
        requires
            Self::spec_decodable(proto),
        ensures
            Self::spec_of_proto(proto) matches Ok(header) ==> header.wf()
                && header.is_whole_seconds(),
    {
    }

    /// Reading a wire header and writing the result gives the wire header
    /// that was started from, provided it is in the form that writing
    /// produces: each optional instant can be represented, and the kind holds
    /// the number of a built-in kind.
    pub proof fn lemma_wire_round_trip(proto: HeaderView, header: JourneyHeaderView)
        requires
            Self::spec_of_proto(proto) == Ok::<JourneyHeaderView, JourneyErrorView>(header),
            proto.updated_at__timestamp_sec matches Some(s) ==> seconds_in_range(s),
            proto.start__timestamp_sec matches Some(s) ==> seconds_in_range(s),
            proto.end__timestamp_sec matches Some(s) ==> seconds_in_range(s),
            proto.kind matches Some(Some(KindView::BuildIn(value))) && (value == 0 || value == 1),
        ensures
            Self::spec_to_proto(header) == proto,
    {
    }

    /// Writing a well-formed header whose instants fall on whole seconds as a
    /// wire header and reading that one gives the header that was started
    /// from, and reading it is possible.
    pub proof fn lemma_proto_round_trip(header: JourneyHeaderView)
        requires
            header.wf(),
            header.is_whole_seconds(),
        ensures
            Self::spec_decodable(Self::spec_to_proto(header)),
            Self::spec_of_proto(Self::spec_to_proto(header)) == Ok::<
                JourneyHeaderView,
                JourneyErrorView,
            >(header),
    {
        JourneyKind::lemma_proto_round_trip(header.journey_kind);
        JourneyType::lemma_proto_round_trip(
            header.journey_type,
            protos::journey::header::Type::VECTOR,
        );
    }
}

/// Optional instants that stand for the same thing are the same.
proof fn lemma_optional_instant_injective(a: Option<Timestamp>, b: Option<Timestamp>)
    requires
        optional_instant(a) == optional_instant(b),
    ensures
        a == b,
{
    if let (Some(s), Some(t)) = (a, b) {
        Timestamp::lemma_view_injective(s, t);
    }
}

/// The instant that an optional count of seconds is read as.
fn optional_timestamp(secs: Option<i64>) -> (r: Option<Timestamp>)
    ensures
        optional_instant(r) == optional_instant_of_seconds(crate::protos::journey::optional_seconds(secs)),
        r matches Some(t) ==> t.wf(),
{
    match secs {
        Some(sec) => Timestamp::from_secs(sec),
        None => None,
    }
}

/// The whole seconds of an optional instant.
fn optional_seconds_of(instant: Option<Timestamp>) -> (r: Option<i64>)
    ensures
        crate::protos::journey::optional_seconds(r) == optional_instant_seconds(optional_instant(instant)),
{
    match instant {
        Some(t) => Some(t.timestamp()),
        None => None,
    }
}

} // verus!
