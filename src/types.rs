//! Records kept by the engine and the errors it reports.
use vstd::prelude::*;

verus! {

/// Seconds in a day, used to derive a departure date from a duration.
pub const SECONDS_PER_DAY: u64 = 86400;

/// Life-cycle state of a booking.
#[derive(Clone, Copy, Debug, PartialEq, Eq, Structural)]
pub enum BookingStatus {
    Confirmed,
    Cancelled,
    Completed,
}

impl BookingStatus {
    /// The status as the upper-case word it is stored under.
    pub fn name(&self) -> (r: &'static str)
        ensures
            *self == BookingStatus::Confirmed ==> r@ == "CONFIRMED"@,
            *self == BookingStatus::Cancelled ==> r@ == "CANCELLED"@,
            *self == BookingStatus::Completed ==> r@ == "COMPLETED"@,
    {
        proof {
            reveal_strlit("CONFIRMED");
            reveal_strlit("CANCELLED");
            reveal_strlit("COMPLETED");
        }
        match self {
            BookingStatus::Confirmed => "CONFIRMED",
            BookingStatus::Cancelled => "CANCELLED",
            BookingStatus::Completed => "COMPLETED",
        }
    }
}

/// Everything that can make an operation fail. A failed operation changes nothing.
#[derive(Clone, Copy, Debug, PartialEq, Eq, Structural)]
pub enum TravelPackageError {
    NotInitialized,
    AlreadyInitialized,
    InsufficientCreditScore,
    InsufficientPoolFunds,
    DuplicateBooking,
    Unauthorized,
    InvalidAmount,
    PackageNotFound,
    PackageNotActive,
    PackageFull,
    NoPackagesAvailable,
    NoBookingsFound,
    BookingNotFound,
    InvalidPrice,
    InvalidDuration,
}

impl TravelPackageError {
    /// The numeric code of the error, as reported to callers of the engine.
    pub fn code(&self) -> (r: u32)
        ensures
            1 <= r <= 15,
            r == error_code(*self),
    {
        match self {
            TravelPackageError::NotInitialized => 1,
            TravelPackageError::AlreadyInitialized => 2,
            TravelPackageError::InsufficientCreditScore => 3,
            TravelPackageError::InsufficientPoolFunds => 4,
            TravelPackageError::DuplicateBooking => 5,
            TravelPackageError::Unauthorized => 6,
            TravelPackageError::InvalidAmount => 7,
            TravelPackageError::PackageNotFound => 8,
            TravelPackageError::PackageNotActive => 9,
            TravelPackageError::PackageFull => 10,
            TravelPackageError::NoPackagesAvailable => 11,
            TravelPackageError::NoBookingsFound => 12,
            TravelPackageError::BookingNotFound => 13,
            TravelPackageError::InvalidPrice => 14,
            TravelPackageError::InvalidDuration => 15,
        }
    }
}

/// The numeric code of each error; distinct errors have distinct codes.
pub open spec fn error_code(e: TravelPackageError) -> u32 {
    match e {
        TravelPackageError::NotInitialized => 1,
        TravelPackageError::AlreadyInitialized => 2,
        TravelPackageError::InsufficientCreditScore => 3,
        TravelPackageError::InsufficientPoolFunds => 4,
        TravelPackageError::DuplicateBooking => 5,
        TravelPackageError::Unauthorized => 6,
        TravelPackageError::InvalidAmount => 7,
        TravelPackageError::PackageNotFound => 8,
        TravelPackageError::PackageNotActive => 9,
        TravelPackageError::PackageFull => 10,
        TravelPackageError::NoPackagesAvailable => 11,
        TravelPackageError::NoBookingsFound => 12,
        TravelPackageError::BookingNotFound => 13,
        TravelPackageError::InvalidPrice => 14,
        TravelPackageError::InvalidDuration => 15,
    }
}

/// Administrator identity and the accounts the pool is held in, fixed at initialization.
#[derive(Debug, PartialEq, Eq)]
pub struct Config {
    pub admin: String,
    pub token_address: String,
    pub pool_address: String,
}

impl Clone for Config {
    fn clone(&self) -> (r: Self)
        ensures
            r == *self,
    {
        Config {
            admin: self.admin.clone(),
            token_address: self.token_address.clone(),
            pool_address: self.pool_address.clone(),
        }
    }
}

/// A package of the catalog. Identities and destinations are plain text.
#[derive(Debug, PartialEq, Eq)]
pub struct TravelPackage {
    pub package_id: u32,
    pub destination: String,
    /// Amount disbursed from the pool for one booking, in the currency's smallest unit.
    pub price: i128,
    pub duration_days: u32,
    pub max_students: u32,
    pub enrolled_students: u32,
    pub min_credit_score: u32,
    pub active: bool,
    pub created_at: u64,
}

impl Clone for TravelPackage {
    fn clone(&self) -> (r: Self)
        ensures
            r == *self,
    {
        TravelPackage {
            package_id: self.package_id,
            destination: self.destination.clone(),
            price: self.price,
            duration_days: self.duration_days,
            max_students: self.max_students,
            enrolled_students: self.enrolled_students,
            min_credit_score: self.min_credit_score,
            active: self.active,
            created_at: self.created_at,
        }
    }
}

/// A booking: one disbursement from the pool to one buyer for one package.
#[derive(Debug, PartialEq, Eq)]
pub struct TravelBooking {
    pub booking_id: u32,
    pub student: String,
    pub package_id: u32,
    pub destination: String,
    /// Amount released from the pool: the package's price at booking time.
    pub amount_disbursed: i128,
    pub credit_score: u32,
    pub booking_date: u64,
    pub departure_date: u64,
    pub status: BookingStatus,
}

impl Clone for TravelBooking {
    fn clone(&self) -> (r: Self)
        ensures
            r == *self,
    {
        TravelBooking {
            booking_id: self.booking_id,
            student: self.student.clone(),
            package_id: self.package_id,
            destination: self.destination.clone(),
            amount_disbursed: self.amount_disbursed,
            credit_score: self.credit_score,
            booking_date: self.booking_date,
            departure_date: self.departure_date,
            status: self.status,
        }
    }
}

/// An entry of a buyer's audit log, derived from a booking when it is made.
#[derive(Debug, PartialEq, Eq)]
pub struct TransactionRecord {
    pub transaction_id: u32,
    pub student: String,
    pub package_id: u32,
    pub amount: i128,
    pub timestamp: u64,
    pub status: BookingStatus,
}

impl Clone for TransactionRecord {
    fn clone(&self) -> (r: Self)
        ensures
            r == *self,
    {
        TransactionRecord {
            transaction_id: self.transaction_id,
            student: self.student.clone(),
            package_id: self.package_id,
            amount: self.amount,
            timestamp: self.timestamp,
            status: self.status,
        }
    }
}

/// The audit record that a booking gives rise to when it is made.
pub open spec fn record_of(b: TravelBooking) -> TransactionRecord {
    TransactionRecord {
        transaction_id: b.booking_id,
        student: b.student,
        package_id: b.package_id,
        amount: b.amount_disbursed,
        timestamp: b.booking_date,
        status: b.status,
    }
}

} // verus!
