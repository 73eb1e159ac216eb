use reservation::{
    Error, Reservation, ReservationConflictInfo, ReservationFilter, ReservationManage,
    ReservationQuery, ReservationStatus, RsvpServie, Timestamp, Validator,
};

// Times of the scenarios, in seconds since the epoch (UTC).
const JAN_21_19H: i64 = 1705863600;
const JAN_22_08H: i64 = 1705910400;
const JAN_22_12H: i64 = 1705924800;
const JAN_23_12H: i64 = 1706011200;

fn at(seconds: i64) -> Timestamp {
    Timestamp::new(seconds, 0)
}

fn pending(user: &str, resource: &str, start: i64, end: i64, note: &str) -> Reservation {
    Reservation::new_pending(
        user.to_string(),
        resource.to_string(),
        at(start),
        at(end),
        note.to_string(),
    )
}

#[test]
fn test_reservation_validate_fn() {
    let rsvp = pending("user_id", "resource_id", JAN_21_19H, JAN_22_12H, "");
    assert!(rsvp.validate().is_ok());
}

#[test]
fn validate_checks_in_order() {
    let r = pending("", "", JAN_22_12H, JAN_21_19H, "");
    assert_eq!(r.validate(), Err(Error::InvalidUserId(String::new())));
    let r = pending("u", "", JAN_22_12H, JAN_21_19H, "");
    assert_eq!(r.validate(), Err(Error::InvalidResourceId(String::new())));
    let r = pending("u", "r", JAN_22_12H, JAN_21_19H, "");
    assert_eq!(r.validate(), Err(Error::InvalidTime));
    let r = pending("u", "r", JAN_22_12H, JAN_22_12H, "");
    assert_eq!(r.validate(), Err(Error::InvalidTime));
    let mut r = pending("u", "r", JAN_21_19H, JAN_22_12H, "");
    r.end = None;
    assert_eq!(r.validate(), Err(Error::InvalidTime));
}

#[test]
fn reserve_should_work_for_valid_window() {
    let mut pool = ReservationManage::new();
    let rsvp = pending(
        "xiaozhangId",
        "testResourceId",
        JAN_21_19H,
        JAN_22_12H,
        "test_reserve_should_work_for_valid_window",
    );
    let rsvp_new = pool.reserve(rsvp.clone()).unwrap();
    println!("{:?}", rsvp_new);
    assert!(rsvp_new.id != 0);
    assert!(rsvp_new.id > 0);
    assert_eq!(rsvp_new.status, ReservationStatus::Pending);
    assert_eq!(Reservation { id: 0, ..rsvp_new }, rsvp);
}

#[test]
fn reserve_rejects_invalid_input() {
    let mut pool = ReservationManage::new();
    let e = pool.reserve(pending("", "r", JAN_21_19H, JAN_22_12H, "")).unwrap_err();
    assert_eq!(e, Error::InvalidUserId(String::new()));
    let e = pool.reserve(pending("u", "", JAN_21_19H, JAN_22_12H, "")).unwrap_err();
    assert_eq!(e, Error::InvalidResourceId(String::new()));
    let e = pool.reserve(pending("u", "r", JAN_22_12H, JAN_22_12H, "")).unwrap_err();
    assert_eq!(e, Error::InvalidTime);
    assert!(pool.query(&all_pending("u")).unwrap().is_empty());
}

#[test]
fn reserve_defaults_unset_status_to_pending() {
    let mut pool = ReservationManage::new();
    let mut r = pending("u", "r", JAN_21_19H, JAN_22_12H, "");
    r.status = ReservationStatus::Unknown;
    assert_eq!(pool.reserve(r).unwrap().status, ReservationStatus::Pending);
}

#[test]
fn reserve_conflict_reservation_should_reject() {
    let mut pool = ReservationManage::new();
    let rsvp = pending(
        "xiaozhangId",
        "ocean-view-room-713",
        JAN_21_19H,
        JAN_22_12H,
        "test_reserve_should_work_for_valid_window",
    );
    let rsvp1 = pending(
        "xiaonanId",
        "ocean-view-room-713",
        JAN_22_08H,
        JAN_23_12H,
        "test_reserve_should_work_for_valid_window",
    );
    let _rsvp1 = pool.reserve(rsvp).unwrap();
    let reserve_conflict = pool.reserve(rsvp1).unwrap_err();
    match &reserve_conflict {
        Error::ConflictReservation(ReservationConflictInfo::Parsed(c)) => {
            assert_eq!(c.new.rid, "ocean-view-room-713");
            assert_eq!(c.new.start, at(JAN_22_08H));
            assert_eq!(c.new.end, at(JAN_23_12H));
            assert_eq!(c.old.rid, "ocean-view-room-713");
            assert_eq!(c.old.start, at(JAN_21_19H));
            assert_eq!(c.old.end, at(JAN_22_12H));
        }
        other => panic!("unexpected {:?}", other),
    }
    assert_eq!(
        reserve_conflict,
        Error::ConflictReservation(ReservationConflictInfo::UnParsed)
    );
}

#[test]
fn disjoint_windows_both_succeed() {
    let mut pool = ReservationManage::new();
    let a = pool.reserve(pending("u1", "room", JAN_21_19H, JAN_22_08H, "")).unwrap();
    let b = pool.reserve(pending("u2", "room", JAN_22_08H, JAN_23_12H, "")).unwrap();
    assert!(b.id > a.id);
}

#[test]
fn blocked_reservations_do_not_conflict() {
    let mut pool = ReservationManage::new();
    let mut blocked = pending("u1", "room", JAN_21_19H, JAN_22_12H, "");
    blocked.status = ReservationStatus::Blocked;
    pool.reserve(blocked).unwrap();
    assert!(pool.reserve(pending("u2", "room", JAN_22_08H, JAN_23_12H, "")).is_ok());
}

#[test]
fn other_resources_do_not_conflict() {
    let mut pool = ReservationManage::new();
    pool.reserve(pending("u1", "room-a", JAN_21_19H, JAN_22_12H, "")).unwrap();
    assert!(pool.reserve(pending("u1", "room-b", JAN_21_19H, JAN_22_12H, "")).is_ok());
}

#[test]
fn reserve_change_status_reservation_should_work() {
    let mut pool = ReservationManage::new();
    let rsvp = pending(
        "testUserId",
        "testResourceId",
        JAN_21_19H,
        JAN_22_12H,
        "test_change_status_reservation_should_work",
    );
    let rsvp = pool.reserve(rsvp).unwrap();
    let updated_rsvp = pool.change_status(rsvp.id).unwrap();
    assert_eq!(updated_rsvp.status, ReservationStatus::Confirmed);
}

#[test]
fn reserve_change_status_not_pending_should_donothing() {
    let mut pool = ReservationManage::new();
    let rsvp = pending(
        "testUserId",
        "testResourceId",
        JAN_21_19H,
        JAN_22_12H,
        "test_change_status_not_pending_should_donothing",
    );
    let rsvp = pool.reserve(rsvp).unwrap();
    let rsvp = pool.change_status(rsvp.id).unwrap();
    let ret = pool.change_status(rsvp.id);
    assert_eq!(ret, Err(Error::NotFound));
}

#[test]
fn change_status_of_missing_or_invalid_id() {
    let mut pool = ReservationManage::new();
    assert_eq!(pool.change_status(42), Err(Error::NotFound));
    assert_eq!(pool.change_status(0), Err(Error::InvalidReservationId(0)));
}

#[test]
fn reserve_update_note_reservation_should_work() {
    let mut pool = ReservationManage::new();
    let rsvp = pending("testUserId", "testResourceId", JAN_21_19H, JAN_22_12H, "");
    let rsvp = pool.reserve(rsvp).unwrap();
    let updated_rsvp = pool
        .update_note(rsvp.id, "test_update_note_reservation_should_work".to_string())
        .unwrap();
    assert_eq!(updated_rsvp.note, "test_update_note_reservation_should_work");
    assert_eq!(pool.get(rsvp.id).unwrap().note, "test_update_note_reservation_should_work");
    assert_eq!(pool.update_note(rsvp.id + 1, String::new()), Err(Error::NotFound));
}

#[test]
fn reserve_get_reservation_should_work() {
    let mut pool = ReservationManage::new();
    let rsvp = pending("testUserId", "testResourceId", JAN_21_19H, JAN_22_12H, "");
    let rsvp = pool.reserve(rsvp).unwrap();
    let rsvp1 = pool.get(rsvp.id).unwrap();
    assert_eq!(rsvp1, rsvp)
}

#[test]
fn reserve_delete_reservation_should_work() {
    let mut pool = ReservationManage::new();
    let rsvp = pending("testUserId", "testResourceId", JAN_21_19H, JAN_22_12H, "");
    let rsvp = pool.reserve(rsvp).unwrap();
    let rsvp1 = pool.delete(rsvp.id).unwrap();
    assert_eq!(rsvp1, rsvp);
    let ret = pool.get(rsvp1.id);
    assert_eq!(ret, Err(Error::NotFound))
}

#[test]
fn deleted_window_can_be_reserved_again() {
    let mut pool = ReservationManage::new();
    let a = pool.reserve(pending("u1", "room", JAN_21_19H, JAN_22_12H, "")).unwrap();
    pool.delete(a.id).unwrap();
    assert!(pool.reserve(pending("u2", "room", JAN_22_08H, JAN_23_12H, "")).is_ok());
    assert_eq!(pool.delete(a.id), Err(Error::NotFound));
}

fn all_pending(user: &str) -> ReservationQuery {
    ReservationQuery {
        user_id: user.to_string(),
        resource_id: String::new(),
        status: ReservationStatus::Unknown,
        start: None,
        end: None,
        page: 1,
        page_size: 10,
        desc: false,
    }
}

fn seed(pool: &mut ReservationManage) -> Vec<i64> {
    let mut ids = Vec::new();
    for k in 0..5 {
        let start = JAN_21_19H + k * 3600;
        let r = pending("u", &format!("room-{}", k), start, start + 1800, "");
        ids.push(pool.reserve(r).unwrap().id);
    }
    ids
}

#[test]
fn query_pages_by_id() {
    let mut pool = ReservationManage::new();
    let ids = seed(&mut pool);
    let mut q = all_pending("u");
    q.page_size = 2;
    q.page = 2;
    let got: Vec<i64> = pool.query(&q).unwrap().iter().map(|r| r.id).collect();
    assert_eq!(got, vec![ids[2], ids[3]]);
    q.desc = true;
    q.page = 1;
    let got: Vec<i64> = pool.query(&q).unwrap().iter().map(|r| r.id).collect();
    assert_eq!(got, vec![ids[4], ids[3]]);
    q.page = 4;
    assert!(pool.query(&q).unwrap().is_empty());
}

#[test]
fn query_filters_fields_status_and_window() {
    let mut pool = ReservationManage::new();
    let ids = seed(&mut pool);
    pool.change_status(ids[0]).unwrap();
    let mut q = all_pending("");
    q.resource_id = "room-1".to_string();
    let got: Vec<i64> = pool.query(&q).unwrap().iter().map(|r| r.id).collect();
    assert_eq!(got, vec![ids[1]]);
    let mut q = all_pending("u");
    q.status = ReservationStatus::Confirmed;
    let got: Vec<i64> = pool.query(&q).unwrap().iter().map(|r| r.id).collect();
    assert_eq!(got, vec![ids[0]]);
    let mut q = all_pending("u");
    q.start = Some(at(JAN_21_19H + 3600 + 1800));
    q.end = Some(at(JAN_21_19H + 3 * 3600 + 1)); // touches room-1, overlaps room-3 by a second
    let got: Vec<i64> = pool.query(&q).unwrap().iter().map(|r| r.id).collect();
    assert_eq!(got, vec![ids[2], ids[3]]);
    assert!(pool.query(&all_pending("nobody")).unwrap().is_empty());
}

#[test]
fn query_rejects_bad_window() {
    let pool = ReservationManage::new();
    let mut q = all_pending("u");
    q.start = Some(at(JAN_22_12H));
    assert_eq!(pool.query(&q), Err(Error::InvalidTime));
    q.end = Some(at(JAN_21_19H));
    assert_eq!(pool.query(&q), Err(Error::InvalidTime));
}

#[test]
fn filter_walks_by_cursor() {
    let mut pool = ReservationManage::new();
    let ids = seed(&mut pool);
    let mut f = ReservationFilter {
        user_id: "u".to_string(),
        resource_id: String::new(),
        status: ReservationStatus::Pending,
        cursor: None,
        page_size: 2,
        desc: false,
    };
    let first: Vec<i64> = pool.filter(&f).iter().map(|r| r.id).collect();
    assert_eq!(first, vec![ids[0], ids[1]]);
    f.cursor = Some(ids[1]);
    let second: Vec<i64> = pool.filter(&f).iter().map(|r| r.id).collect();
    assert_eq!(second, vec![ids[2], ids[3]]);
    f.desc = true;
    f.cursor = Some(ids[3]);
    let back: Vec<i64> = pool.filter(&f).iter().map(|r| r.id).collect();
    assert_eq!(back, vec![ids[2], ids[1]]);
    f.page_size = 0;
    assert!(pool.filter(&f).is_empty());
}

#[test]
fn service_starts_empty() {
    let service = RsvpServie::new();
    assert_eq!(service.manager.get(1), Err(Error::NotFound));
}

fn passes<V: Validator>(v: &V) -> bool {
    Validator::validate(v).is_ok()
}

#[test]
fn validator_trait_covers_reservations_and_queries() {
    assert!(passes(&pending("u", "r", JAN_21_19H, JAN_22_12H, "")));
    assert!(!passes(&pending("u", "r", JAN_22_12H, JAN_21_19H, "")));
    assert!(passes(&all_pending("")));
    let mut q = all_pending("");
    q.end = Some(at(JAN_21_19H));
    assert!(!passes(&q));
}

#[test]
fn offset_and_limit_of_pages() {
    assert_eq!(reservation::page_offset_limit(1, 10), (0, 10));
    assert_eq!(reservation::page_offset_limit(3, 10), (20, 10));
    assert_eq!(reservation::page_offset_limit(0, 10), (0, 10));
    assert_eq!(reservation::page_offset_limit(2, 0), (0, 0));
    assert_eq!(reservation::page_offset_limit(i64::MAX, i64::MAX), (i64::MAX, i64::MAX));
}
