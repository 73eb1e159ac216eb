//! Time-bounded reservations of shared resources: window validation, the
//! overlap rule, the interpreter of storage conflict diagnostics, and a
//! reservation store that keeps non-blocked windows of a resource disjoint.

pub mod config;
pub mod conflict;
pub mod error;
pub mod manage;
pub mod status;
pub mod text;
pub mod time_range;
pub mod types;

pub use config::{default_max_connections, Config, DbConfig, ServerConfig, TestDb};
pub use conflict::{
    parse_datetime, parse_timespan, ParsedClause, ParsedInfo, ReservationConflict,
    ReservationConflictInfo, ReservationWindow,
};
pub use error::{Error, StorageFailure};
pub use manage::{page_offset_limit, ReservationManage, RsvpServie};
pub use status::{ReservationStatus, RsvpStatus};
pub use time_range::{get_timespan, validate_range, TimeRange, Timestamp};
pub use types::{
    str_to_option, validate_id, Reservation, ReservationFilter, ReservationId, ReservationQuery,
    Validator,
};
