use vstd::prelude::*;

use crate::error::Error;
use crate::status::ReservationStatus;
use crate::time_range::{get_timespan, validate_range, valid_window, TimeRange, Timestamp};

verus! {

/// The id of a stored reservation; 0 marks one not stored yet.
pub type ReservationId = i64;

/// A reservation of a resource by a user for a half-open window.
#[derive(Debug, Clone, PartialEq)]
pub struct Reservation {
    pub id: ReservationId,
    pub user_id: String,
    pub resource_id: String,
    pub start: Option<Timestamp>,
    pub end: Option<Timestamp>,
    pub note: String,
    pub status: ReservationStatus,
}

/// A reservation as plain values.
pub struct ReservationModel {
    pub id: int,
    pub user_id: Seq<char>,
    pub resource_id: Seq<char>,
    pub start: Option<Timestamp>,
    pub end: Option<Timestamp>,
    pub note: Seq<char>,
    pub status: ReservationStatus,
}

impl View for Reservation {
    type V = ReservationModel;

    open spec fn view(&self) -> ReservationModel {
        ReservationModel {
            id: self.id as int,
            user_id: self.user_id@,
            resource_id: self.resource_id@,
            start: self.start,
            end: self.end,
            note: self.note@,
            status: self.status,
        }
    }
}

/// What validating the parts of a reservation gives, checked in a fixed order:
/// the user, then the resource, then the window.
pub open spec fn validation(
    user_id: Seq<char>,
    resource_id: Seq<char>,
    start: Option<Timestamp>,
    end: Option<Timestamp>,
    r: Result<(), Error>,
) -> bool {
    if user_id.len() == 0 {
        r is Err && r->Err_0 is InvalidUserId && r->Err_0->InvalidUserId_0@ == user_id
    } else if resource_id.len() == 0 {
        r is Err && r->Err_0 is InvalidResourceId && r->Err_0->InvalidResourceId_0@ == resource_id
    } else if !valid_window(start, end) {
        r is Err && r->Err_0 is InvalidTime
    } else {
        r is Ok
    }
}

/// A reservation that names a user and a resource and has a valid window.
pub open spec fn is_valid(m: ReservationModel) -> bool {
    m.user_id.len() > 0 && m.resource_id.len() > 0 && valid_window(m.start, m.end)
}

/// The window of a reservation whose endpoints are present.
pub open spec fn span_of(m: ReservationModel) -> TimeRange {
    TimeRange { start: m.start->0, end: m.end->0 }
}

impl Reservation {
    /// A reservation not stored yet, in state `Pending`.
    pub fn new_pending(
        user_id: String,
        resource_id: String,
        start: Timestamp,
        end: Timestamp,
        note: String,
    ) -> (r: Reservation)
        ensures
            r@ == (ReservationModel {
                id: 0,
                user_id: user_id@,
                resource_id: resource_id@,
                start: Some(start),
                end: Some(end),
                note: note@,
                status: ReservationStatus::Pending,
            }),
    {
        Reservation {
            id: 0,
            user_id,
            resource_id,
            start: Some(start),
            end: Some(end),
            note,
            status: ReservationStatus::Pending,
        }
    }

    /// Checks the user, the resource and the window, in that order.
    pub fn validate(&self) -> (r: Result<(), Error>)
        ensures
            validation(self.user_id@, self.resource_id@, self.start, self.end, r),
            r is Ok <==> is_valid(self@),
    {
        if self.user_id.as_str().is_empty() {
            return Err(Error::InvalidUserId(self.user_id.clone()));
        }
        if self.resource_id.as_str().is_empty() {
            return Err(Error::InvalidResourceId(self.resource_id.clone()));
        }
        validate_range(self.start, self.end)
    }

    /// The half-open window of a reservation whose endpoints are present.
    pub fn get_timespan(&self) -> (r: TimeRange)
        requires
            self.start is Some,
            self.end is Some,
        ensures
            r == span_of(self@),
    {
        get_timespan(self.start, self.end)
    }

    /// A copy with the same contents.
    pub fn copy(&self) -> (r: Reservation)
        ensures
            r@ == self@,
    {
        Reservation {
            id: self.id,
            user_id: self.user_id.clone(),
            resource_id: self.resource_id.clone(),
            start: self.start,
            end: self.end,
            note: self.note.clone(),
            status: self.status,
        }
    }
}

/// Rejects ids that no stored reservation can have.
pub fn validate_id(id: ReservationId) -> (r: Result<(), Error>)
    ensures
        r is Ok <==> id > 0,
        r is Err ==> r->Err_0 is InvalidReservationId && r->Err_0->InvalidReservationId_0 == id,
{
    if id <= 0 {
        Err(Error::InvalidReservationId(id))
    } else {
        Ok(())
    }
}

/// An empty text means "no filter on this field".
pub fn str_to_option(s: &str) -> (r: Option<&str>)
    ensures
        r is None <==> s@.len() == 0,
        r is Some ==> r->0@ == s@,
{
    if s.is_empty() {
        None
    } else {
        Some(s)
    }
}

/// A window filter that is either absent or valid.
pub open spec fn optional_window_ok(start: Option<Timestamp>, end: Option<Timestamp>) -> bool {
    (start is None && end is None) || valid_window(start, end)
}

/// A one-shot search: an empty user or resource matches any, an unset status
/// means `Pending`, and a window keeps the reservations that overlap it.
/// Results come ordered by id, one page of `page_size` at a time; pages count
/// from 1.
#[derive(Debug, Clone, PartialEq)]
pub struct ReservationQuery {
    pub user_id: String,
    pub resource_id: String,
    pub status: ReservationStatus,
    pub start: Option<Timestamp>,
    pub end: Option<Timestamp>,
    pub page: i64,
    pub page_size: i64,
    pub desc: bool,
}

impl ReservationQuery {
    /// Checks the window filter: absent, or both endpoints with the start first.
    pub fn validate(&self) -> (r: Result<(), Error>)
        ensures
            r is Ok <==> optional_window_ok(self.start, self.end),
            r is Err ==> r->Err_0 is InvalidTime,
    {
        if self.start.is_none() && self.end.is_none() {
            Ok(())
        } else {
            validate_range(self.start, self.end)
        }
    }

    /// The window filter, when one is set.
    pub fn get_timespan(&self) -> (r: Option<TimeRange>)
        ensures
            match r {
                Some(t) => self.start is Some && self.end is Some && t.start == self.start->0
                    && t.end == self.end->0,
                None => self.start is None || self.end is None,
            },
    {
        if self.start.is_some() && self.end.is_some() {
            Some(get_timespan(self.start, self.end))
        } else {
            None
        }
    }
}

/// A paged search by key: after the reservation `cursor` (none: from the
/// first), up to `page_size` reservations in the order of their ids.
#[derive(Debug, Clone, PartialEq)]
pub struct ReservationFilter {
    pub user_id: String,
    pub resource_id: String,
    pub status: ReservationStatus,
    pub cursor: Option<ReservationId>,
    pub page_size: i64,
    pub desc: bool,
}

/// Objects that can be checked before any storage work.
pub trait Validator {
    /// Whether the object passes its checks.
    spec fn passes(&self) -> bool;

    fn validate(&self) -> (r: Result<(), Error>)
        ensures
            r is Ok <==> self.passes(),
    ;
}

impl Validator for Reservation {
    open spec fn passes(&self) -> bool {
        is_valid(self@)
    }

    fn validate(&self) -> (r: Result<(), Error>) {
        Reservation::validate(self)
    }
}

impl Validator for ReservationQuery {
    open spec fn passes(&self) -> bool {
        optional_window_ok(self.start, self.end)
    }

    fn validate(&self) -> (r: Result<(), Error>) {
        ReservationQuery::validate(self)
    }
}

} // verus!
