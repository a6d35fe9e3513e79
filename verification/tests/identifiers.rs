use backend::api::{
    FlagCheckQuery, Id, OptionalId, ParticipateQuery, ParticipationFilter, UidQuery,
};
use backend::id::{id_code, parse_id, Rejection, Uid};

const HYPHENATED: &str = "550e8400-e29b-41d4-a716-446655440000";

fn bytes_of(text: &str) -> [u8; 16] {
    *uuid::Uuid::parse_str(text).unwrap().as_bytes()
}

#[test]
fn uuids_in_every_form_are_read() {
    let expected = bytes_of(HYPHENATED);
    assert_eq!(parse_id(HYPHENATED).unwrap().bytes, expected);
    assert_eq!(parse_id("550e8400e29b41d4a716446655440000").unwrap().bytes, expected);
    assert_eq!(parse_id("{550e8400-e29b-41d4-a716-446655440000}").unwrap().bytes, expected);
    assert_eq!(parse_id("urn:uuid:550e8400-e29b-41d4-a716-446655440000").unwrap().bytes, expected);
}

#[test]
fn codes_read_back_as_their_identifier() {
    let id = Uid { bytes: bytes_of(HYPHENATED) };
    let code = id_code(&id);
    assert_eq!(code.len(), 22);
    assert_eq!(parse_id(&code).unwrap().bytes, id.bytes);
}

#[test]
fn short_base64_is_padded_with_zeros() {
    // "AQI" decodes to the two bytes 1, 2.
    let id = parse_id("AQI").unwrap();
    let mut expected = [0u8; 16];
    expected[0] = 1;
    expected[1] = 2;
    assert_eq!(id.bytes, expected);
}

#[test]
fn undecodable_ids_are_rejected() {
    assert_eq!(parse_id("not an id!").err(), Some(Rejection::IdUndecodable));
    // Twenty bytes do not fit in an identifier.
    assert_eq!(
        parse_id("AAAAAAAAAAAAAAAAAAAAAAAAAAA").err(),
        Some(Rejection::IdUndecodable)
    );
    assert_eq!(Rejection::IdUndecodable.reason(), "id could not be decoded");
    assert_eq!(Rejection::IdUndecodable.status(), 400);
}

#[test]
fn a_required_id_must_be_named() {
    assert_eq!(Id::from_query(None).err(), Some(Rejection::IdMissing));
    assert_eq!(Id::from_query(Some(UidQuery { id: None })).err(), Some(Rejection::IdMissing));
    let Id(id) = Id::from_query(Some(UidQuery { id: Some(HYPHENATED.to_string()) })).ok().unwrap();
    assert_eq!(id.bytes, bytes_of(HYPHENATED));
    assert_eq!(Rejection::IdMissing.reason(), "id query missing");
}

#[test]
fn an_optional_id_may_be_left_out() {
    assert!(matches!(OptionalId::from_query(None), Ok(OptionalId(None))));
    assert!(matches!(OptionalId::from_query(Some(UidQuery { id: None })), Ok(OptionalId(None))));
    let named = OptionalId::from_query(Some(UidQuery { id: Some(HYPHENATED.to_string()) }));
    assert!(matches!(named, Ok(OptionalId(Some(_)))));
    let bad = OptionalId::from_query(Some(UidQuery { id: Some("!".to_string()) }));
    assert_eq!(bad.err(), Some(Rejection::IdUndecodable));
}

#[test]
fn participations_name_user_and_event() {
    let event = Uid { bytes: [7; 16] };
    assert_eq!(ParticipateQuery::participant(None).err(), Some(Rejection::QueriesMissing));
    let q = ParticipateQuery { user: None, event: Some(event) };
    assert_eq!(ParticipateQuery::participant(Some(q)).err(), Some(Rejection::UserMissing));
    let q = ParticipateQuery { user: Some(HYPHENATED.to_string()), event: None };
    assert_eq!(ParticipateQuery::participant(Some(q)).err(), Some(Rejection::EventMissing));
    let q = ParticipateQuery { user: Some(HYPHENATED.to_string()), event: Some(event) };
    let (user, ev) = ParticipateQuery::participant(Some(q)).ok().unwrap();
    assert_eq!(user.bytes, bytes_of(HYPHENATED));
    assert_eq!(ev.bytes, [7; 16]);
}

#[test]
fn a_user_filter_takes_precedence() {
    let event = Uid { bytes: [3; 16] };
    let q = ParticipateQuery { user: Some(HYPHENATED.to_string()), event: Some(event) };
    assert!(matches!(ParticipationFilter::from_query(Some(q)), Ok(ParticipationFilter::User(_))));
    let q = ParticipateQuery { user: None, event: Some(event) };
    assert!(matches!(ParticipationFilter::from_query(Some(q)), Ok(ParticipationFilter::Event(e)) if e.bytes == [3; 16]));
    let q = ParticipateQuery { user: None, event: None };
    assert!(matches!(ParticipationFilter::from_query(Some(q)), Ok(ParticipationFilter::All)));
    assert!(matches!(ParticipationFilter::from_query(None), Err(Rejection::QueriesMissing)));
}

#[test]
fn identifiers_display_hyphenated() {
    let id = Uid { bytes: bytes_of(HYPHENATED) };
    assert_eq!(id.hyphenated_text(), HYPHENATED);
    let other = Uid { bytes: [0xab; 16] };
    assert_eq!(other.hyphenated_text(), uuid::Uuid::from_bytes([0xab; 16]).to_string());
    assert!(id.equals(&id));
    assert!(!id.equals(&other));
    let q = FlagCheckQuery { id, flag: "x".to_string() };
    assert_eq!(q.flag, "x");
}

#[test]
fn an_identifier_text_reads_back() {
    for bytes in [[0u8; 16], [0xff; 16], bytes_of(HYPHENATED), [7, 0, 1, 2, 3, 4, 5, 6, 8, 9, 10, 11, 12, 13, 14, 15]] {
        let id = Uid { bytes };
        assert_eq!(parse_id(&id.hyphenated_text()).ok().map(|u| u.bytes), Some(bytes));
        assert_eq!(parse_id(&id_code(&id)).ok().map(|u| u.bytes), Some(bytes));
    }
}
