use vstd::prelude::*;

use crate::conflict::{conflict_of, ReservationConflictInfo};
use crate::text::same_text;

verus! {

/// The SQLSTATE code of an exclusion-constraint violation.
pub const EXCLUSION_VIOLATION: &'static str = "23P01";

/// The schema that holds the reservations.
pub const RESERVATION_SCHEMA: &'static str = "rsvp";

/// The table that holds the reservations.
pub const RESERVATION_TABLE: &'static str = "reservations";

/// The failures that the reservation operations report.
#[derive(Debug)]
pub enum Error {
    InvalidTime,
    InvalidUserId(String),
    InvalidResourceId(String),
    InvalidReservationId(i64),
    DbError(String),
    ConflictReservation(ReservationConflictInfo),
    NotFound,
    Unknown,
}

/// Errors are told apart by their kind alone: payloads do not count.
pub open spec fn same_kind(a: &Error, b: &Error) -> bool {
    match (a, b) {
        (Error::InvalidTime, Error::InvalidTime) => true,
        (Error::InvalidUserId(_), Error::InvalidUserId(_)) => true,
        (Error::InvalidResourceId(_), Error::InvalidResourceId(_)) => true,
        (Error::InvalidReservationId(_), Error::InvalidReservationId(_)) => true,
        (Error::DbError(_), Error::DbError(_)) => true,
        (Error::ConflictReservation(_), Error::ConflictReservation(_)) => true,
        (Error::NotFound, Error::NotFound) => true,
        (Error::Unknown, Error::Unknown) => true,
        _ => false,
    }
}

impl PartialEq for Error {
    fn eq(&self, other: &Error) -> (r: bool) {
        match (self, other) {
            (Error::InvalidTime, Error::InvalidTime) => true,
            (Error::InvalidUserId(_), Error::InvalidUserId(_)) => true,
            (Error::InvalidResourceId(_), Error::InvalidResourceId(_)) => true,
            (Error::InvalidReservationId(_), Error::InvalidReservationId(_)) => true,
            (Error::DbError(_), Error::DbError(_)) => true,
            (Error::ConflictReservation(_), Error::ConflictReservation(_)) => true,
            (Error::NotFound, Error::NotFound) => true,
            (Error::Unknown, Error::Unknown) => true,
            _ => false,
        }
    }
}

impl vstd::std_specs::cmp::PartialEqSpecImpl for Error {
    open spec fn obeys_eq_spec() -> bool {
        true
    }

    open spec fn eq_spec(&self, other: &Error) -> bool {
        same_kind(self, other)
    }
}

/// A failure that the storage layer reported, as plain values.
#[derive(Debug, Clone)]
pub enum StorageFailure {
    /// An error raised by the database, with its SQLSTATE code, the schema and
    /// table it concerns, its detail text and its message.
    Database {
        code: String,
        schema: Option<String>,
        table: Option<String>,
        detail: Option<String>,
        message: String,
    },
    /// A statement that had to return a row returned none.
    RowNotFound,
    /// Any other failure: connection, protocol, pool.
    Other(String),
}

/// Whether an error names the exclusion constraint of the reservations table.
pub open spec fn is_reservation_exclusion(
    code: Seq<char>,
    schema: Option<Seq<char>>,
    table: Option<Seq<char>>,
) -> bool {
    code == EXCLUSION_VIOLATION@ && schema == Some(RESERVATION_SCHEMA@) && table == Some(
        RESERVATION_TABLE@,
    )
}

pub open spec fn text_of(t: Option<String>) -> Option<Seq<char>> {
    match t {
        Some(s) => Some(s@),
        None => None,
    }
}

/// What the conflict interpreter makes of a detail text; a missing detail
/// still reports the conflict.
pub open spec fn detail_conflict(detail: Option<String>) -> Option<(crate::conflict::WindowView, crate::conflict::WindowView)> {
    match detail {
        Some(d) => conflict_of(d@),
        None => None,
    }
}

/// The error that a storage failure is reported as.
pub open spec fn classified(f: StorageFailure, r: Error) -> bool {
    match f {
        StorageFailure::Database { code, schema, table, detail, message } => if is_reservation_exclusion(
            code@,
            text_of(schema),
            text_of(table),
        ) {
            r is ConflictReservation && r->ConflictReservation_0@ == detail_conflict(detail)
        } else {
            r is DbError && r->DbError_0@ == message@
        },
        StorageFailure::RowNotFound => r is NotFound,
        StorageFailure::Other(m) => r is DbError && r->DbError_0@ == m@,
    }
}

fn names(t: &Option<String>, expected: &str) -> (r: bool)
    ensures
        r == (text_of(*t) == Some(expected@)),
{
    match t {
        Some(s) => same_text(s.as_str(), expected),
        None => false,
    }
}

impl Error {
    /// Classifies a storage failure: a violation of the reservations'
    /// exclusion constraint is a conflict, read from its detail text; a missing
    /// row is `NotFound`; anything else is `DbError`.
    pub fn from_storage(f: StorageFailure) -> (r: Error)
        ensures
            classified(f, r),
    {
        match f {
            StorageFailure::Database { code, schema, table, detail, message } => {
                if same_text(code.as_str(), EXCLUSION_VIOLATION) && names(&schema, RESERVATION_SCHEMA)
                    && names(&table, RESERVATION_TABLE) {
                    let info = match detail {
                        Some(d) => ReservationConflictInfo::parse(d.as_str()),
                        None => ReservationConflictInfo::UnParsed,
                    };
                    Error::ConflictReservation(info)
                } else {
                    Error::DbError(message)
                }
            },
            StorageFailure::RowNotFound => Error::NotFound,
            StorageFailure::Other(m) => Error::DbError(m),
        }
    }
}

} // verus!
