use vstd::prelude::*;

use crate::conflict::{ReservationConflict, ReservationConflictInfo, ReservationWindow, WindowView};
use crate::error::Error;
use crate::status::{effective_status, ReservationStatus};
use crate::text::same_text;
use crate::time_range::{precedes, ranges_overlap, TimeRange};
use crate::types::{
    is_valid, span_of, validate_id, validation, Reservation, ReservationFilter, ReservationId,
    ReservationModel, ReservationQuery,
};

verus! {

/// Two reservations that may not both stand: neither is blocked, they hold
/// the same resource, and their windows overlap.
pub open spec fn collides(a: ReservationModel, b: ReservationModel) -> bool {
    a.status != ReservationStatus::Blocked && b.status != ReservationStatus::Blocked
        && a.resource_id == b.resource_id && ranges_overlap(span_of(a), span_of(b))
}

/// Whether some stored reservation collides with `m`.
pub open spec fn has_conflict(rows: Seq<ReservationModel>, m: ReservationModel) -> bool {
    exists|j: int| 0 <= j < rows.len() && collides(rows[j], m)
}

/// The window that a conflict reports for a reservation.
pub open spec fn window_view(m: ReservationModel) -> WindowView {
    (m.resource_id, m.start->0, m.end->0)
}

/// What `reserve` stores for an accepted request: the given fields, the new
/// id, and `Pending` in place of an unset status.
pub open spec fn stored_form(m: ReservationModel, id: int) -> ReservationModel {
    ReservationModel { id, status: effective_status(m.status), ..m }
}

/// Every row is valid, has a set status, and an id in `1..next_id`.
pub open spec fn rows_valid(rows: Seq<ReservationModel>, next_id: int) -> bool {
    forall|i: int|
        #![trigger rows[i]]
        0 <= i < rows.len() ==> is_valid(rows[i]) && rows[i].status != ReservationStatus::Unknown
            && 0 < rows[i].id < next_id
}

/// Ids ascend along the rows.
pub open spec fn ids_ascend(rows: Seq<ReservationModel>) -> bool {
    forall|i: int, j: int| 0 <= i < j < rows.len() ==> #[trigger] rows[i].id < #[trigger] rows[j].id
}

/// No two rows collide.
pub open spec fn no_collisions(rows: Seq<ReservationModel>) -> bool {
    forall|i: int, j: int|
        0 <= i < rows.len() && 0 <= j < rows.len() && i != j ==> !collides(
            #[trigger] rows[i],
            #[trigger] rows[j],
        )
}

/// The invariant of the store: every row is valid with a set status and an id
/// below the next one, ids ascend, and no two rows collide.
pub open spec fn store_ok(rows: Seq<ReservationModel>, next_id: int) -> bool {
    &&& 1 <= next_id
    &&& rows_valid(rows, next_id)
    &&& ids_ascend(rows)
    &&& no_collisions(rows)
}

/// The reservations of a vector as plain values.
pub open spec fn models(v: Seq<Reservation>) -> Seq<ReservationModel> {
    v.map_values(|r: Reservation| r@)
}

/// An empty wanted text matches any; otherwise the texts must be equal.
pub open spec fn field_matches(want: Seq<char>, have: Seq<char>) -> bool {
    want.len() == 0 || want == have
}

/// Whether a one-shot query selects a reservation.
pub open spec fn query_selects(q: ReservationQuery, m: ReservationModel) -> bool {
    &&& field_matches(q.user_id@, m.user_id)
    &&& field_matches(q.resource_id@, m.resource_id)
    &&& m.status == effective_status(q.status)
    &&& q.start is Some ==> ranges_overlap(
        span_of(m),
        TimeRange { start: q.start->0, end: q.end->0 },
    )
}

/// Whether an id lies beyond the cursor in the direction of the listing.
pub open spec fn beyond_cursor(cursor: Option<ReservationId>, desc: bool, id: int) -> bool {
    match cursor {
        None => true,
        Some(c) => if desc {
            id < c
        } else {
            id > c
        },
    }
}

/// Whether a paged filter selects a reservation.
pub open spec fn filter_selects(f: ReservationFilter, m: ReservationModel) -> bool {
    &&& field_matches(f.user_id@, m.user_id)
    &&& field_matches(f.resource_id@, m.resource_id)
    &&& m.status == effective_status(f.status)
    &&& beyond_cursor(f.cursor, f.desc, m.id)
}

pub open spec fn query_hits(rows: Seq<ReservationModel>, q: ReservationQuery) -> Seq<ReservationModel> {
    rows.filter(|m: ReservationModel| query_selects(q, m))
}

pub open spec fn filter_hits(rows: Seq<ReservationModel>, f: ReservationFilter) -> Seq<ReservationModel> {
    rows.filter(|m: ReservationModel| filter_selects(f, m))
}

/// Rows in ascending id order, or descending when `desc`.
pub open spec fn in_order(s: Seq<ReservationModel>, desc: bool) -> Seq<ReservationModel> {
    if desc {
        s.reverse()
    } else {
        s
    }
}

/// Where page `page` of `size` rows starts among `n`; pages count from 1, and
/// a page below 1 is the first.
pub open spec fn page_start(n: int, page: int, size: int) -> int {
    let p = if page < 1 {
        1
    } else {
        page
    };
    if size <= 0 {
        0
    } else if (p - 1) * size < n {
        (p - 1) * size
    } else {
        n
    }
}

/// Where that page ends; a size below 1 gives an empty page.
pub open spec fn page_end(n: int, page: int, size: int) -> int {
    let s = page_start(n, page, size);
    if size <= 0 {
        0
    } else if s + size < n {
        s + size
    } else {
        n
    }
}

fn text_matches(want: &String, have: &String) -> (r: bool)
    ensures
        r == field_matches(want@, have@),
{
    want.as_str().is_empty() || same_text(want.as_str(), have.as_str())
}

/// How many rows a page skips and how many it holds, for a store that pages
/// by offset and limit: the same pages as `page_start` and `page_end`, with the
/// offset capped at `i64::MAX`.
pub fn page_offset_limit(page: i64, size: i64) -> (r: (i64, i64))
    ensures
        size <= 0 ==> r.1 == 0 && r.0 == 0,
        size > 0 ==> r.1 == size && r.0 as int == (if page_start(i64::MAX as int, page as int, size as int) < i64::MAX {
            page_start(i64::MAX as int, page as int, size as int)
        } else {
            i64::MAX as int
        }),
{
    if size <= 0 {
        return (0, 0);
    }
    let p: i64 = if page < 1 {
        1
    } else {
        page
    };
    proof {
        assert(0 <= (p - 1) * size <= 0x7fff_ffff_ffff_ffff * 0x7fff_ffff_ffff_ffff) by (nonlinear_arith)
            requires
                1 <= p,
                1 <= size,
        ;
    }
    let skip: i128 = (p as i128 - 1) * (size as i128);
    if skip < i64::MAX as i128 {
        (skip as i64, size)
    } else {
        (i64::MAX, size)
    }
}

fn page_bounds(n: usize, page: i64, size: i64) -> (r: (usize, usize))
    ensures
        r.0 == page_start(n as int, page as int, size as int),
        r.1 == page_end(n as int, page as int, size as int),
        r.0 <= r.1 <= n,
{
    if size <= 0 {
        return (0, 0);
    }
    let p: i64 = if page < 1 {
        1
    } else {
        page
    };
    proof {
        assert(0 <= (p - 1) * size <= 0x7fff_ffff_ffff_ffff * 0x7fff_ffff_ffff_ffff) by (nonlinear_arith)
            requires
                1 <= p,
                1 <= size,
        ;
    }
    let skip: i128 = (p as i128 - 1) * (size as i128);
    let start: usize = if skip < n as i128 {
        skip as usize
    } else {
        n
    };
    let end: usize = if (start as i128) + (size as i128) < n as i128 {
        start + size as usize
    } else {
        n
    };
    (start, end)
}

/// Copies `in_order(v, desc)[from..to]`.
fn slice_in_order(v: &Vec<Reservation>, desc: bool, from: usize, to: usize) -> (r: Vec<Reservation>)
    requires
        from <= to <= v@.len(),
    ensures
        models(r@) == in_order(models(v@), desc).subrange(from as int, to as int),
{
    let n = v.len();
    let mut out: Vec<Reservation> = Vec::new();
    let mut i: usize = from;
    while i < to
        invariant
            from <= i <= to <= v@.len(),
            n == v@.len(),
            models(out@) == in_order(models(v@), desc).subrange(from as int, i as int),
        decreases to - i,
    {
        let k = if desc {
            n - 1 - i
        } else {
            i
        };
        let item = v[k].copy();
        let ghost before = out@;
        out.push(item);
        proof {
            assert(models(out@) =~= models(before).push(item@));
            assert(in_order(models(v@), desc)[i as int] == models(v@)[k as int]);
            assert(in_order(models(v@), desc).subrange(from as int, i + 1) =~= in_order(
                models(v@),
                desc,
            ).subrange(from as int, i as int).push(in_order(models(v@), desc)[i as int]));
        }
        i += 1;
    }
    out
}

/// The reservations of all users, kept so that non-blocked windows of one
/// resource never overlap. Each operation checks and changes the rows in one
/// step, so the check and the write cannot be told apart by a caller.
pub struct ReservationManage {
    rows: Vec<Reservation>,
    next_id: i64,
}

impl View for ReservationManage {
    type V = Seq<ReservationModel>;

    closed spec fn view(&self) -> Seq<ReservationModel> {
        self.rows@.map_values(|r: Reservation| r@)
    }
}

impl ReservationManage {
    /// The id that the next stored reservation gets.
    pub closed spec fn next_id(&self) -> int {
        self.next_id as int
    }

    pub open spec fn wf(&self) -> bool {
        store_ok(self@, self.next_id()) && self.next_id() <= i64::MAX
    }

    /// An empty store; ids start at 1.
    pub fn new() -> (r: ReservationManage)
        ensures
            r.wf(),
            r@ == Seq::<ReservationModel>::empty(),
            r.next_id() == 1,
    {
        let r = ReservationManage { rows: Vec::new(), next_id: 1 };
        proof {
            assert(r@ =~= Seq::<ReservationModel>::empty());
        }
        r
    }

    fn find(&self, id: ReservationId) -> (r: Option<usize>)
        requires
            self.wf(),
        ensures
            match r {
                Some(j) => j < self@.len() && self@[j as int].id == id,
                None => forall|j: int| 0 <= j < self@.len() ==> self@[j].id != id,
            },
    {
        let mut i: usize = 0;
        while i < self.rows.len()
            invariant
                i <= self.rows@.len(),
                self@.len() == self.rows@.len(),
                self@ == self.rows@.map_values(|r: Reservation| r@),
                forall|j: int| 0 <= j < i ==> self@[j].id != id,
            decreases self.rows@.len() - i,
        {
            if self.rows[i].id == id {
                return Some(i);
            }
            i += 1;
        }
        None
    }

    /// Stores a new reservation after checking it, or reports why not: the
    /// first failed check, or the stored reservation that it collides with.
    pub fn reserve(&mut self, rsvp: Reservation) -> (r: Result<Reservation, Error>)
        requires
            old(self).wf(),
        ensures
            final(self).wf(),
            !is_valid(rsvp@) ==> r is Err && validation(
                rsvp.user_id@,
                rsvp.resource_id@,
                rsvp.start,
                rsvp.end,
                Err(r->Err_0),
            ),
            is_valid(rsvp@) && has_conflict(old(self)@, stored_form(rsvp@, 0)) ==> r is Err
                && r->Err_0 is ConflictReservation && exists|j: int|
                0 <= j < old(self)@.len() && collides(old(self)@[j], stored_form(rsvp@, 0))
                    && r->Err_0->ConflictReservation_0@ == Some(
                    (window_view(rsvp@), window_view(old(self)@[j])),
                ),
            is_valid(rsvp@) && !has_conflict(old(self)@, stored_form(rsvp@, 0)) && old(self).next_id() < i64::MAX ==> r is Ok && r->Ok_0@ == stored_form(
                rsvp@,
                old(self).next_id(),
            ) && final(self)@ == old(self)@.push(r->Ok_0@) && final(self).next_id() == old(self).next_id() + 1,
            is_valid(rsvp@) && !has_conflict(old(self)@, stored_form(rsvp@, 0)) && old(self).next_id() == i64::MAX ==> r is Err && r->Err_0 is DbError,
            r is Ok ==> r->Ok_0.id > 0 && r->Ok_0@ == stored_form(rsvp@, old(self).next_id())
                && final(self)@ == old(self)@.push(r->Ok_0@) && final(self).next_id() == old(self).next_id() + 1 && forall|j: int|
                0 <= j < old(self)@.len() ==> old(self)@[j].id != r->Ok_0.id,
            r is Err ==> final(self)@ == old(self)@ && final(self).next_id() == old(self).next_id(),
    {
        let v = rsvp.validate();
        if v.is_err() {
            return Err(v.unwrap_err());
        }
        let status = rsvp.status.or_pending();
        let span = rsvp.get_timespan();
        let ghost cand = stored_form(rsvp@, 0);
        let mut i: usize = 0;
        while i < self.rows.len()
            invariant
                i <= self.rows@.len(),
                self.wf(),
                self@ == self.rows@.map_values(|r: Reservation| r@),
                is_valid(rsvp@),
                cand == stored_form(rsvp@, 0),
                status == cand.status,
                span == span_of(cand),
                forall|j: int| 0 <= j < i ==> !collides(self@[j], cand),
            decreases self.rows@.len() - i,
        {
            let row = &self.rows[i];
            proof {
                assert(self@[i as int] == row@);
                assert(is_valid(self@[i as int]));
            }
            if status != ReservationStatus::Blocked && row.status != ReservationStatus::Blocked
                && same_text(row.resource_id.as_str(), rsvp.resource_id.as_str())
                && row.get_timespan().overlaps(&span) {
                let new = ReservationWindow {
                    rid: rsvp.resource_id.clone(),
                    start: span.start,
                    end: span.end,
                };
                let old = ReservationWindow {
                    rid: row.resource_id.clone(),
                    start: row.start.unwrap(),
                    end: row.end.unwrap(),
                };
                return Err(Error::ConflictReservation(ReservationConflictInfo::Parsed(ReservationConflict { new, old })));
            }
            i += 1;
        }
        if self.next_id == i64::MAX {
            return Err(Error::DbError("reservation ids are exhausted".to_owned()));
        }
        let ghost old_id = self.next_id;
        let stored = Reservation {
            id: self.next_id,
            user_id: rsvp.user_id,
            resource_id: rsvp.resource_id,
            start: rsvp.start,
            end: rsvp.end,
            note: rsvp.note,
            status,
        };
        let out = stored.copy();
        let ghost old_rows = self@;
        proof {
            assert(store_ok(old_rows, old_id as int));
        }
        self.rows.push(stored);
        self.next_id = self.next_id + 1;
        proof {
            assert(self@ =~= old_rows.push(out@));
            assert(is_valid(out@));
            assert(rows_valid(self@, self.next_id()));
            assert forall|i: int, j: int| 0 <= i < j < self@.len() implies #[trigger] self@[i].id
                < #[trigger] self@[j].id by {
                assert(is_valid(old_rows[i]));
            }
            assert forall|a: int, b: int|
                0 <= a < self@.len() && 0 <= b < self@.len() && a != b implies !collides(
                #[trigger] self@[a],
                #[trigger] self@[b],
            ) by {
                if a == old_rows.len() {
                    assert(!collides(old_rows[b], cand));
                } else if b == old_rows.len() {
                    assert(!collides(old_rows[a], cand));
                } else {
                    assert(!collides(old_rows[a], old_rows[b]));
                }
            }
            assert(ids_ascend(self@));
            assert(no_collisions(self@));
        }
        Ok(out)
    }

    /// Moves a `Pending` reservation to `Confirmed`. An id that is not stored,
    /// and one whose reservation is not `Pending`, both give `NotFound`.
    pub fn change_status(&mut self, id: ReservationId) -> (r: Result<Reservation, Error>)
        requires
            old(self).wf(),
        ensures
            final(self).wf(),
            final(self).next_id() == old(self).next_id(),
            id <= 0 ==> r is Err && r->Err_0 is InvalidReservationId,
            id > 0 && (forall|j: int| 0 <= j < old(self)@.len() ==> old(self)@[j].id != id) ==> r is Err
                && r->Err_0 is NotFound,
            forall|j: int|
                0 <= j < old(self)@.len() && #[trigger] old(self)@[j].id == id ==> if old(self)@[j].status == ReservationStatus::Pending {
                    r is Ok && r->Ok_0@ == (ReservationModel {
                        status: ReservationStatus::Confirmed,
                        ..old(self)@[j]
                    }) && final(self)@ == old(self)@.update(j, r->Ok_0@)
                } else {
                    r is Err && r->Err_0 is NotFound
                },
            r is Err ==> final(self)@ == old(self)@,
    {
        let v = validate_id(id);
        if v.is_err() {
            return Err(v.unwrap_err());
        }
        match self.find(id) {
            None => Err(Error::NotFound),
            Some(j) => {
                if self.rows[j].status != ReservationStatus::Pending {
                    return Err(Error::NotFound);
                }
                let ghost old_rows = self@;
                proof {
                    assert(store_ok(old_rows, self.next_id()));
                    assert(ids_ascend(old_rows));
                }
                self.rows[j].status = ReservationStatus::Confirmed;
                let out = self.rows[j].copy();
                proof {
                    assert(self@ =~= old_rows.update(j as int, out@));
                    assert forall|a: int, b: int|
                        0 <= a < self@.len() && 0 <= b < self@.len() && a != b implies !collides(
                        #[trigger] self@[a],
                        #[trigger] self@[b],
                    ) by {
                        assert(!collides(old_rows[a], old_rows[b]));
                    }
                    assert forall|a: int, b: int| 0 <= a < b < self@.len() implies #[trigger] self@[a].id
                        < #[trigger] self@[b].id by {
                        assert(old_rows[a].id < old_rows[b].id);
                    }
                    assert(rows_valid(self@, self.next_id()));
                }
                Ok(out)
            },
        }
    }

    /// Replaces the note of a stored reservation.
    pub fn update_note(&mut self, id: ReservationId, note: String) -> (r: Result<Reservation, Error>)
        requires
            old(self).wf(),
        ensures
            final(self).wf(),
            final(self).next_id() == old(self).next_id(),
            id <= 0 ==> r is Err && r->Err_0 is InvalidReservationId,
            id > 0 && (forall|j: int| 0 <= j < old(self)@.len() ==> old(self)@[j].id != id) ==> r is Err
                && r->Err_0 is NotFound,
            forall|j: int|
                0 <= j < old(self)@.len() && #[trigger] old(self)@[j].id == id ==> r is Ok
                    && r->Ok_0@ == (ReservationModel { note: note@, ..old(self)@[j] }) && final(self)@ == old(self)@.update(j, r->Ok_0@),
            r is Err ==> final(self)@ == old(self)@,
    {
        let v = validate_id(id);
        if v.is_err() {
            return Err(v.unwrap_err());
        }
        match self.find(id) {
            None => Err(Error::NotFound),
            Some(j) => {
                let ghost old_rows = self@;
                proof {
                    assert(store_ok(old_rows, self.next_id()));
                    assert(ids_ascend(old_rows));
                }
                self.rows[j].note = note;
                let out = self.rows[j].copy();
                proof {
                    assert(self@ =~= old_rows.update(j as int, out@));
                    assert forall|a: int, b: int|
                        0 <= a < self@.len() && 0 <= b < self@.len() && a != b implies !collides(
                        #[trigger] self@[a],
                        #[trigger] self@[b],
                    ) by {
                        assert(!collides(old_rows[a], old_rows[b]));
                    }
                    assert forall|a: int, b: int| 0 <= a < b < self@.len() implies #[trigger] self@[a].id
                        < #[trigger] self@[b].id by {
                        assert(old_rows[a].id < old_rows[b].id);
                    }
                    assert(rows_valid(self@, self.next_id()));
                }
                Ok(out)
            },
        }
    }

    /// The stored reservation with this id.
    pub fn get(&self, id: ReservationId) -> (r: Result<Reservation, Error>)
        requires
            self.wf(),
        ensures
            id <= 0 ==> r is Err && r->Err_0 is InvalidReservationId,
            id > 0 && (forall|j: int| 0 <= j < self@.len() ==> self@[j].id != id) ==> r is Err
                && r->Err_0 is NotFound,
            forall|j: int|
                0 <= j < self@.len() && #[trigger] self@[j].id == id ==> r is Ok && r->Ok_0@
                    == self@[j],
    {
        let v = validate_id(id);
        if v.is_err() {
            return Err(v.unwrap_err());
        }
        proof {
            assert(ids_ascend(self@));
        }
        match self.find(id) {
            None => Err(Error::NotFound),
            Some(j) => Ok(self.rows[j].copy()),
        }
    }

    /// Removes a stored reservation and returns it as it was.
    pub fn delete(&mut self, id: ReservationId) -> (r: Result<Reservation, Error>)
        requires
            old(self).wf(),
        ensures
            final(self).wf(),
            final(self).next_id() == old(self).next_id(),
            id <= 0 ==> r is Err && r->Err_0 is InvalidReservationId,
            id > 0 && (forall|j: int| 0 <= j < old(self)@.len() ==> old(self)@[j].id != id) ==> r is Err
                && r->Err_0 is NotFound,
            forall|j: int|
                0 <= j < old(self)@.len() && #[trigger] old(self)@[j].id == id ==> r is Ok
                    && r->Ok_0@ == old(self)@[j] && final(self)@ == old(self)@.remove(j),
            r is Err ==> final(self)@ == old(self)@,
    {
        let v = validate_id(id);
        if v.is_err() {
            return Err(v.unwrap_err());
        }
        match self.find(id) {
            None => Err(Error::NotFound),
            Some(j) => {
                let ghost old_rows = self@;
                proof {
                    assert(store_ok(old_rows, self.next_id()));
                    assert(ids_ascend(old_rows));
                }
                let out = self.rows.remove(j);
                proof {
                    assert(self@ =~= old_rows.remove(j as int));
                    assert forall|a: int, b: int|
                        0 <= a < self@.len() && 0 <= b < self@.len() && a != b implies !collides(
                        #[trigger] self@[a],
                        #[trigger] self@[b],
                    ) by {
                        let a0 = if a < j { a } else { a + 1 };
                        let b0 = if b < j { b } else { b + 1 };
                        assert(self@[a] == old_rows[a0]);
                        assert(self@[b] == old_rows[b0]);
                        assert(!collides(old_rows[a0], old_rows[b0]));
                    }
                    assert forall|a: int, b: int| 0 <= a < b < self@.len() implies #[trigger] self@[a].id
                        < #[trigger] self@[b].id by {
                        let a0 = if a < j { a } else { a + 1 };
                        let b0 = if b < j { b } else { b + 1 };
                        assert(self@[a] == old_rows[a0]);
                        assert(self@[b] == old_rows[b0]);
                        assert(old_rows[a0].id < old_rows[b0].id);
                    }
                    assert forall|a: int| 0 <= a < self@.len() implies #[trigger] self@[a]
                        == old_rows[if a < j { a } else { a + 1 }] by {}
                    assert(rows_valid(self@, self.next_id()));
                }
                Ok(out)
            },
        }
    }
    /// One page of the reservations that a query selects, ordered by id.
    pub fn query(&self, query: &ReservationQuery) -> (r: Result<Vec<Reservation>, Error>)
        requires
            self.wf(),
        ensures
            r is Ok <==> crate::types::optional_window_ok(query.start, query.end),
            r is Err ==> r->Err_0 is InvalidTime,
            r is Ok ==> ({
                let hits = in_order(query_hits(self@, *query), query.desc);
                models(r->Ok_0@) == hits.subrange(
                    page_start(hits.len() as int, query.page as int, query.page_size as int),
                    page_end(hits.len() as int, query.page as int, query.page_size as int),
                )
            }),
    {
        let v = query.validate();
        if v.is_err() {
            return Err(v.unwrap_err());
        }
        let status = query.status.or_pending();
        let window = query.get_timespan();
        let mut hits: Vec<Reservation> = Vec::new();
        let mut i: usize = 0;
        while i < self.rows.len()
            invariant
                i <= self.rows@.len(),
                self.wf(),
                self@ == self.rows@.map_values(|r: Reservation| r@),
                status == effective_status(query.status),
                crate::types::optional_window_ok(query.start, query.end),
                window is Some <==> query.start is Some,
                window is Some ==> window->0 == (TimeRange { start: query.start->0, end: query.end->0 }),
                models(hits@) == query_hits(self@.subrange(0, i as int), *query),
            decreases self.rows@.len() - i,
        {
            let row = &self.rows[i];
            proof {
                assert(self@[i as int] == row@);
                assert(rows_valid(self@, self.next_id()));
                assert(is_valid(self@[i as int]));
                assert(self@.subrange(0, i + 1).drop_last() =~= self@.subrange(0, i as int));
                assert(self@.subrange(0, i + 1).last() == row@);
                reveal(Seq::filter);
            }
            let selected = text_matches(&query.user_id, &row.user_id)
                && text_matches(&query.resource_id, &row.resource_id) && row.status == status
                && match window {
                None => true,
                Some(w) => row.get_timespan().overlaps(&w),
            };
            if selected {
                let ghost before = hits@;
                hits.push(row.copy());
                proof {
                    assert(models(hits@) =~= models(before).push(row@));
                }
            }
            i += 1;
        }
        proof {
            assert(self@.subrange(0, self@.len() as int) =~= self@);
        }
        let (from, to) = page_bounds(hits.len(), query.page, query.page_size);
        Ok(slice_in_order(&hits, query.desc, from, to))
    }

    /// Up to `page_size` reservations beyond the cursor that a filter
    /// selects, in the order of their ids.
    pub fn filter(&self, filter: &ReservationFilter) -> (r: Vec<Reservation>)
        requires
            self.wf(),
        ensures
            ({
                let hits = in_order(filter_hits(self@, *filter), filter.desc);
                models(r@) == hits.subrange(
                    0,
                    page_end(hits.len() as int, 1, filter.page_size as int),
                )
            }),
    {
        let status = filter.status.or_pending();
        let mut hits: Vec<Reservation> = Vec::new();
        let mut i: usize = 0;
        while i < self.rows.len()
            invariant
                i <= self.rows@.len(),
                self.wf(),
                self@ == self.rows@.map_values(|r: Reservation| r@),
                status == effective_status(filter.status),
                models(hits@) == filter_hits(self@.subrange(0, i as int), *filter),
            decreases self.rows@.len() - i,
        {
            let row = &self.rows[i];
            proof {
                assert(self@[i as int] == row@);
                assert(self@.subrange(0, i + 1).drop_last() =~= self@.subrange(0, i as int));
                assert(self@.subrange(0, i + 1).last() == row@);
                reveal(Seq::filter);
            }
            let beyond = match filter.cursor {
                None => true,
                Some(c) => if filter.desc {
                    row.id < c
                } else {
                    row.id > c
                },
            };
            let selected = text_matches(&filter.user_id, &row.user_id)
                && text_matches(&filter.resource_id, &row.resource_id) && row.status == status
                && beyond;
            if selected {
                let ghost before = hits@;
                hits.push(row.copy());
                proof {
                    assert(models(hits@) =~= models(before).push(row@));
                }
            }
            i += 1;
        }
        proof {
            assert(self@.subrange(0, self@.len() as int) =~= self@);
        }
        let (from, to) = page_bounds(hits.len(), 1, filter.page_size);
        proof {
            assert((1 - 1) * (filter.page_size as int) == 0);
        }
        slice_in_order(&hits, filter.desc, from, to)
    }
}


/// Windows that follow one another on a resource, the first ending no later
/// than the second starts, do not collide: after the first is stored, the
/// second is accepted.
pub proof fn law_disjoint_windows_coexist(first: ReservationModel, second: ReservationModel, id: int)
    requires
        is_valid(first),
        is_valid(second),
        !precedes(second.start->0, first.end->0),
    ensures
        !collides(stored_form(first, id), stored_form(second, 0)),
        !has_conflict(seq![stored_form(first, id)], stored_form(second, 0)),
{
    let rows = seq![stored_form(first, id)];
    assert forall|j: int| 0 <= j < rows.len() implies !collides(rows[j], stored_form(second, 0)) by {
        assert(rows[j] == stored_form(first, id));
    }
}

/// After a reservation is confirmed it is no longer pending, and it is the
/// only row with its id: confirming it again reports `NotFound`.
pub proof fn law_confirm_is_one_way(rows: Seq<ReservationModel>, next_id: int, j: int)
    requires
        store_ok(rows, next_id),
        0 <= j < rows.len(),
        rows[j].status == ReservationStatus::Pending,
    ensures
        ({
            let after = rows.update(
                j,
                ReservationModel { status: ReservationStatus::Confirmed, ..rows[j] },
            );
            &&& store_ok(after, next_id)
            &&& after[j].id == rows[j].id
            &&& after[j].status != ReservationStatus::Pending
            &&& forall|k: int| 0 <= k < after.len() && after[k].id == rows[j].id ==> k == j
        }),
{
    let after = rows.update(j, ReservationModel { status: ReservationStatus::Confirmed, ..rows[j] });
    assert forall|a: int, b: int|
        0 <= a < after.len() && 0 <= b < after.len() && a != b implies !collides(
        #[trigger] after[a],
        #[trigger] after[b],
    ) by {
        assert(!collides(rows[a], rows[b]));
    }
    assert forall|a: int, b: int| 0 <= a < b < after.len() implies #[trigger] after[a].id
        < #[trigger] after[b].id by {
        assert(rows[a].id < rows[b].id);
    }
    assert forall|k: int| 0 <= k < after.len() && after[k].id == rows[j].id implies k == j by {
        if k < j {
            assert(rows[k].id < rows[j].id);
        } else if k > j {
            assert(rows[j].id < rows[k].id);
        }
    }
}

/// Once a reservation is deleted no row keeps its id, and the id is positive:
/// looking it up reports `NotFound`.
pub proof fn law_deleted_is_gone(rows: Seq<ReservationModel>, next_id: int, j: int)
    requires
        store_ok(rows, next_id),
        0 <= j < rows.len(),
    ensures
        rows[j].id > 0,
        store_ok(rows.remove(j), next_id),
        forall|k: int| 0 <= k < rows.remove(j).len() ==> rows.remove(j)[k].id != rows[j].id,
{
    let after = rows.remove(j);
    assert forall|a: int| 0 <= a < after.len() implies #[trigger] after[a] == rows[if a < j {
        a
    } else {
        a + 1
    }] by {}
    assert forall|k: int| 0 <= k < after.len() implies after[k].id != rows[j].id by {
        if k < j {
            assert(rows[k].id < rows[j].id);
        } else {
            assert(rows[j].id < rows[k + 1].id);
        }
    }
    assert forall|a: int, b: int|
        0 <= a < after.len() && 0 <= b < after.len() && a != b implies !collides(
        #[trigger] after[a],
        #[trigger] after[b],
    ) by {
        let a0 = if a < j { a } else { a + 1 };
        let b0 = if b < j { b } else { b + 1 };
        assert(!collides(rows[a0], rows[b0]));
    }
    assert forall|a: int, b: int| 0 <= a < b < after.len() implies #[trigger] after[a].id
        < #[trigger] after[b].id by {
        let a0 = if a < j { a } else { a + 1 };
        let b0 = if b < j { b } else { b + 1 };
        assert(rows[a0].id < rows[b0].id);
    }
}

/// The service front: it hands each call to the reservation manager.
pub struct RsvpServie {
    pub manager: ReservationManage,
}

impl RsvpServie {
    /// A service over an empty store.
    pub fn new() -> (r: RsvpServie)
        ensures
            r.manager.wf(),
            r.manager@ == Seq::<ReservationModel>::empty(),
    {
        RsvpServie { manager: ReservationManage::new() }
    }
}

} // verus!
