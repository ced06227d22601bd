use vstd::prelude::*;

pub mod facilities;
pub mod fetch;
pub mod protocol;
pub mod task;
pub mod text;

verus! {

/// The ways a booking or record-fetch attempt can fail.
#[derive(Debug, PartialEq, Eq)]
pub enum BookingError {
    /// The facility id resolves to no catalog entry.
    InvalidFacilityId,
    /// A required hidden-form token was absent from the booking page.
    ProtocolTokenMissing,
    /// The final response carried no success marker; holds the raw body.
    BookingRejected(String),
    /// The bookings page holds no record table.
    RecordTableMissing,
    /// A record-table data row lacks the expected cells or tokens.
    MalformedRecord,
}

} // verus!
