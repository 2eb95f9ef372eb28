//! A pooled-fund disbursement engine for a catalog of travel packages.
//!
//! An administrator funds a shared pool and defines packages; buyers draw the
//! price of a package from the pool by booking it, and every disbursement is
//! written to an append-only audit log. All state lives in one explicitly
//! owned value, [`TravelPackageContract`], whose operations are all-or-nothing.
pub mod types;
pub mod contract;
pub mod laws;

pub use types::{BookingStatus, Config, TransactionRecord, TravelBooking, TravelPackage, TravelPackageError};
pub use contract::TravelPackageContract;
