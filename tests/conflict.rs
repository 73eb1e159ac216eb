use reservation::{
    parse_datetime, parse_timespan, Error, ParsedClause, ParsedInfo, ReservationConflict, ReservationConflictInfo,
    ReservationWindow, StorageFailure, Timestamp,
};

const ERR_MSG: &str = "Key (resource_id, timespan)=(ocean-view-room-713, [\"2022-12-26 22:00:00+00\",\"2022-12-30 19:00:00+00\")) conflicts with existing key (resource_id, timespan)=(ocean-view-room-713, [\"2022-12-25 22:00:00+00\",\"2022-12-28 19:00:00+00\")).";

// 2022-12-26T22:00:00Z and its neighbours, in seconds since the epoch.
const DEC_25_22H: i64 = 1672005600;
const DEC_26_22H: i64 = 1672092000;
const DEC_28_19H: i64 = 1672254000;
const DEC_30_19H: i64 = 1672426800;

fn at(seconds: i64) -> Timestamp {
    Timestamp::new(seconds, 0)
}

#[test]
fn parse_datetime_should_work() {
    let datetime = parse_datetime("2022-12-26 22:00:00+00").unwrap();
    assert_eq!(datetime, at(DEC_26_22H));
}

#[test]
fn parse_datetime_applies_offset() {
    let datetime = parse_datetime("2022-12-27 06:00:00+08").unwrap();
    assert_eq!(datetime, at(DEC_26_22H));
}

#[test]
fn parse_datetime_rejects_garbage() {
    assert!(parse_datetime("2022-12-26T22:00:00Z").is_none());
    assert!(parse_datetime("").is_none());
}

#[test]
fn parsed_info_should_work() {
    let info: ParsedInfo = ERR_MSG.parse().unwrap();
    println!("{:?}", info.new);
    println!("{:?}", info.old);
    assert_eq!(info.new.get("resource_id").unwrap(), "ocean-view-room-713");
    assert_eq!(
        info.new.get("timespan").unwrap(),
        "\"2022-12-26 22:00:00+00\",\"2022-12-30 19:00:00+00\""
    );
    assert_eq!(info.old.get("resource_id").unwrap(), "ocean-view-room-713");
    assert_eq!(
        info.old.get("timespan").unwrap(),
        "\"2022-12-25 22:00:00+00\",\"2022-12-28 19:00:00+00\""
    );
}

#[test]
fn conflict_parse_fails_on_one_clause() {
    let one = "Key (resource_id, timespan)=(room, [\"2022-12-26 22:00:00+00\",\"2022-12-30 19:00:00+00\"))";
    assert!(one.parse::<ReservationConflict>().is_err());
}

#[test]
fn parsed_info_needs_two_clauses() {
    assert!(ParsedInfo::parse("Key (resource_id, timespan)=(room, [\"a\",\"b\"))").is_none());
}

#[test]
fn hash_map_to_reservation_window_should_work() {
    let clause = ParsedClause {
        k1: "resource_id".to_string(),
        v1: "ocean-view-room-713".to_string(),
        k2: "timespan".to_string(),
        v2: "\"2022-12-26 22:00:00+00\",\"2022-12-30 19:00:00+00\"".to_string(),
    };
    let window = ReservationWindow::from_clause(&clause).unwrap();
    assert_eq!(window.rid, "ocean-view-room-713");
    assert_eq!(window.start, at(DEC_26_22H));
    assert_eq!(window.end, at(DEC_30_19H));
}

#[test]
fn window_needs_both_keys() {
    let clause = ParsedClause {
        k1: "room".to_string(),
        v1: "ocean-view-room-713".to_string(),
        k2: "timespan".to_string(),
        v2: "\"2022-12-26 22:00:00+00\",\"2022-12-30 19:00:00+00\"".to_string(),
    };
    assert!(ReservationWindow::from_clause(&clause).is_none());
}

#[test]
fn timespan_splits_at_first_comma() {
    let (start, end) =
        parse_timespan("2022-12-25 22:00:00+00,2022-12-28 19:00:00+00").unwrap();
    assert_eq!(start, at(DEC_25_22H));
    assert_eq!(end, at(DEC_28_19H));
    assert!(parse_timespan("2022-12-25 22:00:00+00").is_none());
}

#[test]
fn conflict_error_message_should_parse() {
    let info: ReservationConflictInfo = ERR_MSG.parse().unwrap();
    match info {
        ReservationConflictInfo::Parsed(conflict) => {
            assert_eq!(conflict.new.rid, "ocean-view-room-713");
            assert_eq!(conflict.new.start, at(DEC_26_22H));
            assert_eq!(conflict.new.end, at(DEC_30_19H));
            assert_eq!(conflict.old.rid, "ocean-view-room-713");
            assert_eq!(conflict.old.start, at(DEC_25_22H));
            assert_eq!(conflict.old.end, at(DEC_28_19H));
        }
        ReservationConflictInfo::UnParsed => panic!("should have parsed"),
    }
}

#[test]
fn malformed_diagnostic_is_unparsed() {
    let texts = [
        "",
        "something went wrong",
        "Key (resource_id, timespan)=(ocean-view-room-713, [\"2022-12-26 22:00:00+00\",\"2022-12-30 19:00:00+00\"))",
        "Key (resource_id, timespan)=(r, [\"bad\",\"2022-12-30 19:00:00+00\")) conflicts with existing key (resource_id, timespan)=(r, [\"2022-12-25 22:00:00+00\",\"2022-12-28 19:00:00+00\")).",
    ];
    for t in texts {
        assert!(matches!(ReservationConflictInfo::parse(t), ReservationConflictInfo::UnParsed));
    }
}

#[test]
fn exclusion_violation_becomes_conflict() {
    let e = Error::from_storage(StorageFailure::Database {
        code: "23P01".to_string(),
        schema: Some("rsvp".to_string()),
        table: Some("reservations".to_string()),
        detail: Some(ERR_MSG.to_string()),
        message: "conflicting key value".to_string(),
    });
    match e {
        Error::ConflictReservation(ReservationConflictInfo::Parsed(c)) => {
            assert_eq!(c.new.start, at(DEC_26_22H));
            assert_eq!(c.old.end, at(DEC_28_19H));
        }
        other => panic!("unexpected {:?}", other),
    }
}

#[test]
fn exclusion_violation_without_detail_is_unparsed_conflict() {
    let e = Error::from_storage(StorageFailure::Database {
        code: "23P01".to_string(),
        schema: Some("rsvp".to_string()),
        table: Some("reservations".to_string()),
        detail: None,
        message: "conflicting key value".to_string(),
    });
    assert!(matches!(e, Error::ConflictReservation(ReservationConflictInfo::UnParsed)));
}

#[test]
fn other_database_errors_are_db_errors() {
    let e = Error::from_storage(StorageFailure::Database {
        code: "23505".to_string(),
        schema: Some("rsvp".to_string()),
        table: Some("reservations".to_string()),
        detail: Some(ERR_MSG.to_string()),
        message: "duplicate key".to_string(),
    });
    match e {
        Error::DbError(m) => assert_eq!(m, "duplicate key"),
        other => panic!("unexpected {:?}", other),
    }
    assert_eq!(Error::from_storage(StorageFailure::RowNotFound), Error::NotFound);
    assert_eq!(
        Error::from_storage(StorageFailure::Other("pool timed out".to_string())),
        Error::DbError(String::new())
    );
}

#[test]
fn timespan_reads_parts_as_given() {
    assert!(parse_timespan("2022-12-25 22:00:00+00,2022-12-28 19:00:00+00").is_some());
    assert!(parse_timespan("\"2022-12-25 22:00:00+00\",\"2022-12-28 19:00:00+00\"").is_none());
}

#[test]
fn from_str_is_always_ok() {
    assert!("garbage".parse::<ReservationConflictInfo>().is_ok());
    assert!(matches!(
        "garbage".parse::<ReservationConflictInfo>().unwrap(),
        ReservationConflictInfo::UnParsed
    ));
}
