use memolanes_core::error::JourneyError;
use memolanes_core::journey_header::{JourneyHeader, JourneyKind, JourneyType};
use memolanes_core::protos;
use memolanes_core::protos::journey::header::kind::BuiltIn;
use memolanes_core::protos::journey::header::Type;
use memolanes_core::time::{CalendarDate, Timestamp};
use memolanes_core::utils;

fn sample_header() -> JourneyHeader {
    JourneyHeader {
        id: "5f0c0e2a".to_string(),
        revision: "rev-17".to_string(),
        journey_date: CalendarDate::from_days_since_epoch(19_723).unwrap(),
        created_at: Timestamp::from_secs(1_704_067_200).unwrap(),
        updated_at: Some(Timestamp::from_secs(1_704_070_800).unwrap()),
        start: Some(Timestamp::from_secs(1_704_060_000).unwrap()),
        end: None,
        journey_type: JourneyType::Bitmap,
        journey_kind: JourneyKind::Flight,
        note: Some("over the alps".to_string()),
        postprocessor_algo: None,
    }
}

fn sample_proto() -> protos::journey::Header {
    protos::journey::Header {
        id: "5f0c0e2a".to_string(),
        revision: "rev-17".to_string(),
        journey_date__days_since_epoch: 19_723,
        created_at__timestamp_sec: 1_704_067_200,
        updated_at__timestamp_sec: Some(1_704_070_800),
        end__timestamp_sec: None,
        start__timestamp_sec: Some(1_704_060_000),
        type_: 1,
        kind: Some(protos::journey::header::Kind {
            kind: Some(protos::journey::header::kind::Kind::BuildIn(1)),
        }),
        note: Some("over the alps".to_string()),
        postprocessor_algo: None,
    }
}

#[test]
fn int_conversion() {
    for type_ in JourneyType::all() {
        assert_eq!(
            type_,
            JourneyType::of_int(JourneyType::to_int(&type_)).unwrap()
        )
    }
}

#[test]
fn all_lists_each_type_once_in_number_order() {
    assert_eq!(
        JourneyType::all(),
        vec![JourneyType::Vector, JourneyType::Bitmap]
    );
}

#[test]
fn type_numbers() {
    assert_eq!(JourneyType::Vector.to_int(), 0);
    assert_eq!(JourneyType::Bitmap.to_int(), 1);
    assert_eq!(JourneyType::of_int(0), Ok(JourneyType::Vector));
    assert_eq!(JourneyType::of_int(1), Ok(JourneyType::Bitmap));
}

#[test]
fn of_int_rejects_other_numbers() {
    for i in [2i8, 3, 17, 127, -1, -128] {
        let rejected = JourneyType::of_int(i);
        assert_eq!(rejected, Err(JourneyError::InvalidJourneyTypeInt(i)));
        assert!(rejected.unwrap_err().is_validation());
    }
}

#[test]
fn type_proto_round_trip() {
    assert_eq!(JourneyType::Vector.to_proto(), Type::VECTOR);
    assert_eq!(JourneyType::Bitmap.to_proto(), Type::BITMAP);
    assert_eq!(JourneyType::of_proto(Type::VECTOR), JourneyType::Vector);
    assert_eq!(JourneyType::of_proto(Type::BITMAP), JourneyType::Bitmap);
    for type_ in JourneyType::all() {
        assert_eq!(JourneyType::of_proto(type_.to_proto()), type_);
        assert_eq!(type_.to_proto().value(), i32::from(type_.to_int()));
    }
}

#[test]
fn wire_type_numbers() {
    assert_eq!(Type::VECTOR.value(), 0);
    assert_eq!(Type::BITMAP.value(), 1);
    assert_eq!(Type::from_i32(0), Some(Type::VECTOR));
    assert_eq!(Type::from_i32(1), Some(Type::BITMAP));
    assert_eq!(Type::from_i32(2), None);
    assert_eq!(Type::from_i32(-1), None);
    assert_eq!(Type::from_i32(i32::MAX), None);
}

#[test]
fn wire_built_in_numbers() {
    assert_eq!(BuiltIn::DEFAULT.value(), 0);
    assert_eq!(BuiltIn::FLIGHT.value(), 1);
    assert_eq!(BuiltIn::from_i32(0), Some(BuiltIn::DEFAULT));
    assert_eq!(BuiltIn::from_i32(1), Some(BuiltIn::FLIGHT));
    assert_eq!(BuiltIn::from_i32(2), None);
    assert_eq!(BuiltIn::from_i32(i32::MIN), None);
}

#[test]
fn kind_round_trip() {
    for kind in [JourneyKind::DefaultKind, JourneyKind::Flight] {
        assert_eq!(JourneyKind::of_proto(kind.to_proto()), Ok(kind));
    }
}

#[test]
fn kind_to_proto_holds_the_built_in_number() {
    assert_eq!(
        JourneyKind::DefaultKind.to_proto().kind,
        Some(protos::journey::header::kind::Kind::BuildIn(0))
    );
    assert_eq!(
        JourneyKind::Flight.to_proto().kind,
        Some(protos::journey::header::kind::Kind::BuildIn(1))
    );
}

#[test]
fn custom_kind_is_an_error_not_a_crash() {
    let proto = protos::journey::header::Kind {
        kind: Some(protos::journey::header::kind::Kind::CustomKind(
            "balloon".to_string(),
        )),
    };
    let rejected = JourneyKind::of_proto(proto);
    assert_eq!(
        rejected,
        Err(JourneyError::UnsupportedKind("balloon".to_string()))
    );
    let error = rejected.unwrap_err();
    assert!(error.is_unsupported_kind());
    assert!(!error.is_validation());
}

#[test]
fn unset_or_unknown_built_in_reads_as_default() {
    assert_eq!(
        JourneyKind::of_proto(protos::journey::header::Kind::new()),
        Ok(JourneyKind::DefaultKind)
    );
    let unknown = protos::journey::header::Kind {
        kind: Some(protos::journey::header::kind::Kind::BuildIn(9)),
    };
    assert_eq!(JourneyKind::of_proto(unknown), Ok(JourneyKind::DefaultKind));
}

#[test]
fn kind_message_accessors() {
    let mut kind = protos::journey::header::Kind::new();
    assert_eq!(kind.kind, None);
    assert!(!kind.has_custom_kind());
    assert_eq!(kind.custom_kind(), "");
    assert_eq!(kind.build_in(), BuiltIn::DEFAULT);
    kind.set_build_in(BuiltIn::FLIGHT);
    assert_eq!(kind.build_in(), BuiltIn::FLIGHT);
    assert!(!kind.has_custom_kind());
    let custom = protos::journey::header::Kind {
        kind: Some(protos::journey::header::kind::Kind::CustomKind(
            "raft".to_string(),
        )),
    };
    assert!(custom.has_custom_kind());
    assert_eq!(custom.custom_kind(), "raft");
    assert_eq!(custom.build_in(), BuiltIn::DEFAULT);
}

#[test]
fn new_wire_header_has_defaults() {
    let proto = protos::journey::Header::new();
    assert_eq!(proto.id, "");
    assert_eq!(proto.revision, "");
    assert_eq!(proto.journey_date__days_since_epoch, 0);
    assert_eq!(proto.created_at__timestamp_sec, 0);
    assert_eq!(proto.updated_at__timestamp_sec, None);
    assert_eq!(proto.end__timestamp_sec, None);
    assert_eq!(proto.start__timestamp_sec, None);
    assert_eq!(proto.type_, 0);
    assert_eq!(proto.kind, None);
    assert_eq!(proto.note, None);
    assert_eq!(proto.postprocessor_algo, None);
}

#[test]
fn header_to_proto_carries_every_field() {
    assert_eq!(sample_header().to_proto(), sample_proto());
}

#[test]
fn header_of_proto_reads_every_field() {
    let proto = sample_proto();
    assert!(JourneyHeader::decodable(&proto));
    assert_eq!(JourneyHeader::of_proto(proto), Ok(sample_header()));
}

#[test]
fn header_round_trip() {
    let header = sample_header();
    let proto = header.clone().to_proto();
    assert!(JourneyHeader::decodable(&proto));
    assert_eq!(JourneyHeader::of_proto(proto), Ok(header));
}

#[test]
fn header_round_trip_with_every_field_set() {
    let header = JourneyHeader {
        id: "a".to_string(),
        revision: "b".to_string(),
        journey_date: CalendarDate::from_days_since_epoch(-1).unwrap(),
        created_at: Timestamp::from_secs(-86_401).unwrap(),
        updated_at: Some(Timestamp::from_secs(0).unwrap()),
        start: Some(Timestamp::from_secs(59).unwrap()),
        end: Some(Timestamp::from_secs(8_210_266_876_799).unwrap()),
        journey_type: JourneyType::Vector,
        journey_kind: JourneyKind::DefaultKind,
        note: Some(String::new()),
        postprocessor_algo: Some("kalman".to_string()),
    };
    let proto = header.clone().to_proto();
    assert_eq!(proto.journey_date__days_since_epoch, -1);
    assert_eq!(proto.created_at__timestamp_sec, -86_401);
    assert_eq!(proto.end__timestamp_sec, Some(8_210_266_876_799));
    assert_eq!(proto.type_, 0);
    assert_eq!(JourneyHeader::of_proto(proto), Ok(header));
}

#[test]
fn wire_round_trip() {
    let proto = sample_proto();
    let header = JourneyHeader::of_proto(proto.clone()).unwrap();
    assert_eq!(header.to_proto(), proto);
}

#[test]
fn to_proto_discards_what_lies_below_a_second() {
    let mut header = sample_header();
    header.created_at = Timestamp::new(1_704_067_200, 999_999_999).unwrap();
    header.end = Some(Timestamp::new(1_704_067_201, 1).unwrap());
    let proto = header.clone().to_proto();
    assert_eq!(proto.created_at__timestamp_sec, 1_704_067_200);
    assert_eq!(proto.end__timestamp_sec, Some(1_704_067_201));
    let decoded = JourneyHeader::of_proto(proto).unwrap();
    assert_ne!(decoded, header);
    assert_eq!(decoded.created_at, Timestamp::from_secs(1_704_067_200).unwrap());
    assert_eq!(decoded.end, Some(Timestamp::from_secs(1_704_067_201).unwrap()));
    header.created_at = decoded.created_at;
    header.end = decoded.end;
    assert_eq!(decoded, header);
}

#[test]
fn unknown_type_number_is_a_validation_failure() {
    for number in [2, -1, 100, i32::MAX, i32::MIN] {
        let mut proto = sample_proto();
        proto.type_ = number;
        assert!(JourneyHeader::decodable(&proto));
        let rejected = JourneyHeader::of_proto(proto);
        assert_eq!(rejected, Err(JourneyError::UnknownJourneyType(number)));
        assert!(rejected.unwrap_err().is_validation());
    }
}

#[test]
fn unknown_type_is_reported_before_anything_else() {
    let mut proto = sample_proto();
    proto.type_ = 7;
    proto.kind = None;
    proto.created_at__timestamp_sec = i64::MAX;
    proto.journey_date__days_since_epoch = i32::MIN;
    assert!(JourneyHeader::decodable(&proto));
    assert_eq!(
        JourneyHeader::of_proto(proto),
        Err(JourneyError::UnknownJourneyType(7))
    );
}

#[test]
fn missing_kind_is_a_validation_failure() {
    let mut proto = sample_proto();
    proto.kind = None;
    let rejected = JourneyHeader::of_proto(proto);
    assert_eq!(rejected, Err(JourneyError::MissingKind));
    assert!(rejected.unwrap_err().is_validation());
}

#[test]
fn custom_kind_in_a_header_is_unsupported() {
    let mut proto = sample_proto();
    proto.kind = Some(protos::journey::header::Kind {
        kind: Some(protos::journey::header::kind::Kind::CustomKind(
            "submarine".to_string(),
        )),
    });
    let rejected = JourneyHeader::of_proto(proto);
    assert_eq!(
        rejected,
        Err(JourneyError::UnsupportedKind("submarine".to_string()))
    );
    assert!(!rejected.unwrap_err().is_validation());
}

#[test]
fn kind_message_with_unset_field_reads_as_default_kind() {
    let mut proto = sample_proto();
    proto.kind = Some(protos::journey::header::Kind::new());
    let header = JourneyHeader::of_proto(proto).unwrap();
    assert_eq!(header.journey_kind, JourneyKind::DefaultKind);
}

#[test]
fn optional_instant_out_of_range_reads_as_absent() {
    let mut proto = sample_proto();
    proto.updated_at__timestamp_sec = Some(8_210_266_876_800);
    proto.start__timestamp_sec = Some(i64::MIN);
    proto.end__timestamp_sec = Some(-8_334_601_228_800);
    let header = JourneyHeader::of_proto(proto).unwrap();
    assert_eq!(header.updated_at, None);
    assert_eq!(header.start, None);
    assert_eq!(
        header.end,
        Some(Timestamp::from_secs(-8_334_601_228_800).unwrap())
    );
}

#[test]
fn decodable_tests_date_and_time_of_creation() {
    let mut proto = sample_proto();
    proto.created_at__timestamp_sec = 8_210_266_876_800;
    assert!(!JourneyHeader::decodable(&proto));
    proto.created_at__timestamp_sec = 8_210_266_876_799;
    assert!(JourneyHeader::decodable(&proto));
    proto.journey_date__days_since_epoch = 95_026_237;
    assert!(!JourneyHeader::decodable(&proto));
    proto.journey_date__days_since_epoch = 95_026_236;
    assert!(JourneyHeader::decodable(&proto));
    proto.journey_date__days_since_epoch = -96_465_293;
    assert!(!JourneyHeader::decodable(&proto));
}

#[test]
fn date_helpers_round_trip() {
    for days in [0, 1, -1, 19_723, -719_162, 95_026_236, -96_465_292] {
        let date = utils::date_of_days_since_epoch(days);
        assert_eq!(date.days_since_epoch(), days);
        assert_eq!(utils::date_to_days_since_epoch(date), days);
    }
}
