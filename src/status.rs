use vstd::prelude::*;

use crate::text::same_text;

verus! {

/// The life-cycle state of a reservation.
#[derive(Clone, Copy, Debug, PartialEq, Eq, Structural)]
pub enum ReservationStatus {
    Unknown,
    Pending,
    Confirmed,
    Blocked,
}

/// The states as the storage layer's enumerated type spells them.
#[derive(Clone, Copy, Debug, PartialEq, Eq, Structural)]
pub enum RsvpStatus {
    Unkonwn,
    Confirmed,
    Pending,
    Blocked,
}

/// An unset status stands for `Pending`.
pub open spec fn effective_status(s: ReservationStatus) -> ReservationStatus {
    if s == ReservationStatus::Unknown {
        ReservationStatus::Pending
    } else {
        s
    }
}

pub open spec fn status_of(s: RsvpStatus) -> ReservationStatus {
    match s {
        RsvpStatus::Unkonwn => ReservationStatus::Unknown,
        RsvpStatus::Confirmed => ReservationStatus::Confirmed,
        RsvpStatus::Pending => ReservationStatus::Pending,
        RsvpStatus::Blocked => ReservationStatus::Blocked,
    }
}

/// The label of each state in storage.
pub open spec fn status_label(s: ReservationStatus) -> Seq<char> {
    match s {
        ReservationStatus::Unknown => "unkonwn"@,
        ReservationStatus::Pending => "pending"@,
        ReservationStatus::Confirmed => "confirmed"@,
        ReservationStatus::Blocked => "blocked"@,
    }
}

impl ReservationStatus {
    /// The status with an unset value replaced by `Pending`.
    pub fn or_pending(self) -> (r: ReservationStatus)
        ensures
            r == effective_status(self),
    {
        match self {
            ReservationStatus::Unknown => ReservationStatus::Pending,
            s => s,
        }
    }

    /// The status that a storage label names; any other text is `Unknown`.
    pub fn from_label(label: &str) -> (r: ReservationStatus)
        ensures
            r == (if label@ == status_label(ReservationStatus::Pending) {
                ReservationStatus::Pending
            } else if label@ == status_label(ReservationStatus::Confirmed) {
                ReservationStatus::Confirmed
            } else if label@ == status_label(ReservationStatus::Blocked) {
                ReservationStatus::Blocked
            } else {
                ReservationStatus::Unknown
            }),
    {
        if same_text(label, "pending") {
            ReservationStatus::Pending
        } else if same_text(label, "confirmed") {
            ReservationStatus::Confirmed
        } else if same_text(label, "blocked") {
            ReservationStatus::Blocked
        } else {
            ReservationStatus::Unknown
        }
    }

    /// The label of the status in storage.
    pub fn label(&self) -> (r: &'static str)
        ensures
            r@ == status_label(*self),
    {
        match self {
            ReservationStatus::Unknown => "unkonwn",
            ReservationStatus::Pending => "pending",
            ReservationStatus::Confirmed => "confirmed",
            ReservationStatus::Blocked => "blocked",
        }
    }
}

impl From<RsvpStatus> for ReservationStatus {
    fn from(value: RsvpStatus) -> (r: ReservationStatus) {
        match value {
            RsvpStatus::Unkonwn => ReservationStatus::Unknown,
            RsvpStatus::Confirmed => ReservationStatus::Confirmed,
            RsvpStatus::Pending => ReservationStatus::Pending,
            RsvpStatus::Blocked => ReservationStatus::Blocked,
        }
    }
}

impl vstd::std_specs::convert::FromSpecImpl<RsvpStatus> for ReservationStatus {
    open spec fn obeys_from_spec() -> bool {
        true
    }

    open spec fn from_spec(v: RsvpStatus) -> ReservationStatus {
        status_of(v)
    }
}

} // verus!
