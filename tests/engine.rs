use travel_package::{BookingStatus, TravelPackageContract, TravelPackageError};

fn s(v: &str) -> String {
    v.to_string()
}

fn funded(deposit: i128) -> TravelPackageContract {
    let mut c = TravelPackageContract::new();
    c.initialize(&s("admin"), &s("token"), &s("pool")).unwrap();
    c.deposit_to_pool(&s("admin"), deposit).unwrap();
    c
}

fn with_paris(deposit: i128) -> TravelPackageContract {
    let mut c = funded(deposit);
    c.create_package(&s("admin"), 1, &s("PARIS"), 5_000_000_000, 7, 20, 700, 100).unwrap();
    c
}

#[test]
fn second_initialize_fails() {
    let mut c = TravelPackageContract::new();
    c.initialize(&s("admin"), &s("token"), &s("pool")).unwrap();
    assert_eq!(c.initialize(&s("admin"), &s("token"), &s("pool")), Err(TravelPackageError::AlreadyInitialized));
    assert_eq!(c.initialize(&s("other"), &s("t2"), &s("p2")), Err(TravelPackageError::AlreadyInitialized));
    // the first administrator stays in charge
    assert_eq!(c.deposit_to_pool(&s("other"), 5), Err(TravelPackageError::Unauthorized));
    assert_eq!(c.deposit_to_pool(&s("admin"), 5), Ok(5));
}

#[test]
fn booking_draws_price_from_pool() {
    let mut c = with_paris(10_000_000_000);
    let b = c.book_package(&s("buyer"), 1, 750, 1_000).unwrap();
    assert_eq!(b.amount_disbursed, 5_000_000_000);
    assert_eq!(b.booking_id, 1);
    assert_eq!(b.student, "buyer");
    assert_eq!(b.package_id, 1);
    assert_eq!(b.credit_score, 750);
    assert_eq!(b.booking_date, 1_000);
    assert_eq!(b.departure_date, 1_000 + 7 * 86400);
    assert_eq!(c.get_pool_balance(), 5_000_000_000);
}

#[test]
fn low_score_leaves_pool_unchanged() {
    let mut c = with_paris(10_000_000_000);
    assert_eq!(c.book_package(&s("buyer"), 1, 650, 0), Err(TravelPackageError::InsufficientCreditScore));
    assert_eq!(c.get_pool_balance(), 10_000_000_000);
    assert!(c.get_transaction_history(&s("buyer")).is_empty());
    assert!(!c.check_eligibility(&s("buyer"), 1, 650));
    // a score equal to the minimum is enough
    assert!(c.check_eligibility(&s("buyer"), 1, 700));
}

#[test]
fn short_pool_leaves_balance_unchanged() {
    let mut c = with_paris(1_000_000_000);
    assert!(!c.check_eligibility(&s("buyer"), 1, 750));
    assert_eq!(c.book_package(&s("buyer"), 1, 750, 0), Err(TravelPackageError::InsufficientPoolFunds));
    assert_eq!(c.get_pool_balance(), 1_000_000_000);
    assert_eq!(c.booking_count(), 0);
}

#[test]
fn pool_exactly_covering_price_can_be_emptied() {
    let mut c = with_paris(5_000_000_000);
    assert!(c.check_eligibility(&s("buyer"), 1, 750));
    c.book_package(&s("buyer"), 1, 750, 0).unwrap();
    assert_eq!(c.get_pool_balance(), 0);
    assert_eq!(c.book_package(&s("other"), 1, 750, 0), Err(TravelPackageError::InsufficientPoolFunds));
}

#[test]
fn cancellation_returns_funds() {
    let mut c = with_paris(10_000_000_000);
    let before = c.get_pool_balance();
    let b = c.book_package(&s("buyer"), 1, 750, 0).unwrap();
    assert_eq!(c.cancel_booking(&s("buyer"), b.booking_id), Ok(before));
    assert_eq!(c.get_pool_balance(), before);
    let mine = c.get_student_bookings(&s("buyer"));
    assert_eq!(mine.len(), 1);
    assert_eq!(mine[0].status, BookingStatus::Cancelled);
    // the audit record keeps the disbursement as it was made
    assert_eq!(c.get_transaction_history(&s("buyer"))[0].status, BookingStatus::Confirmed);
}

#[test]
fn cancellation_refunds_once() {
    let mut c = with_paris(10_000_000_000);
    let b = c.book_package(&s("buyer"), 1, 750, 0).unwrap();
    c.cancel_booking(&s("buyer"), b.booking_id).unwrap();
    assert_eq!(c.cancel_booking(&s("buyer"), b.booking_id), Err(TravelPackageError::BookingNotFound));
    assert_eq!(c.get_pool_balance(), 10_000_000_000);
}

#[test]
fn rebooking_after_cancellation_is_allowed() {
    let mut c = with_paris(10_000_000_000);
    let b = c.book_package(&s("buyer"), 1, 750, 0).unwrap();
    c.cancel_booking(&s("buyer"), b.booking_id).unwrap();
    let again = c.book_package(&s("buyer"), 1, 750, 0).unwrap();
    assert_eq!(again.booking_id, 2);
    assert_eq!(c.book_package(&s("buyer"), 1, 750, 0), Err(TravelPackageError::DuplicateBooking));
    assert_eq!(c.get_pool_balance(), 5_000_000_000);
}

#[test]
fn second_booking_of_same_package_is_duplicate() {
    let mut c = with_paris(20_000_000_000);
    c.book_package(&s("buyer"), 1, 750, 0).unwrap();
    assert!(!c.check_eligibility(&s("buyer"), 1, 750));
    assert_eq!(c.book_package(&s("buyer"), 1, 750, 0), Err(TravelPackageError::DuplicateBooking));
    assert_eq!(c.get_pool_balance(), 15_000_000_000);
    // another buyer may still book it
    assert!(c.book_package(&s("friend"), 1, 750, 0).is_ok());
}

#[test]
fn conservation_over_a_sequence() {
    let mut c = funded(30_000_000_000);
    c.create_package(&s("admin"), 1, &s("PARIS"), 5_000_000_000, 7, 20, 700, 0).unwrap();
    c.create_package(&s("admin"), 2, &s("TOKYO"), 7_000_000_000, 10, 20, 750, 0).unwrap();
    let a = c.book_package(&s("ana"), 1, 800, 0).unwrap();
    let _b = c.book_package(&s("ana"), 2, 800, 0).unwrap();
    let _d = c.book_package(&s("bo"), 1, 800, 0).unwrap();
    c.deposit_to_pool(&s("admin"), 2_000_000_000).unwrap();
    c.cancel_booking(&s("ana"), a.booking_id).unwrap();
    let deposits: i128 = 32_000_000_000;
    let confirmed: i128 = c
        .get_student_bookings(&s("ana"))
        .iter()
        .chain(c.get_student_bookings(&s("bo")).iter())
        .filter(|b| b.status == BookingStatus::Confirmed)
        .map(|b| b.amount_disbursed)
        .sum();
    assert_eq!(confirmed, 12_000_000_000);
    assert_eq!(c.get_pool_balance(), deposits - confirmed);
    assert!(c.get_pool_balance() >= 0);
}

#[test]
fn reads_repeat() {
    let mut c = with_paris(10_000_000_000);
    c.book_package(&s("buyer"), 1, 750, 0).unwrap();
    assert_eq!(c.get_packages(), c.get_packages());
    assert_eq!(c.get_pool_balance(), c.get_pool_balance());
    assert_eq!(c.get_transaction_history(&s("buyer")), c.get_transaction_history(&s("buyer")));
    // a rejected operation changes no read either
    let packages = c.get_packages();
    let history = c.get_transaction_history(&s("buyer"));
    assert!(c.book_package(&s("buyer"), 1, 750, 0).is_err());
    assert_eq!(c.get_packages(), packages);
    assert_eq!(c.get_transaction_history(&s("buyer")), history);
    assert_eq!(c.get_pool_balance(), 5_000_000_000);
}

#[test]
fn history_and_bookings_are_per_buyer() {
    let mut c = funded(100_000_000_000);
    c.create_package(&s("admin"), 1, &s("PARIS"), 5_000_000_000, 7, 20, 700, 0).unwrap();
    c.create_package(&s("admin"), 2, &s("TOKYO"), 7_000_000_000, 10, 20, 700, 0).unwrap();
    c.book_package(&s("ana"), 1, 750, 10).unwrap();
    c.book_package(&s("bo"), 1, 750, 20).unwrap();
    c.book_package(&s("ana"), 2, 750, 30).unwrap();
    let h = c.get_transaction_history(&s("ana"));
    assert_eq!(h.len(), 2);
    assert_eq!((h[0].transaction_id, h[0].package_id, h[0].amount, h[0].timestamp), (1, 1, 5_000_000_000, 10));
    assert_eq!((h[1].transaction_id, h[1].package_id, h[1].amount, h[1].timestamp), (3, 2, 7_000_000_000, 30));
    let bo = c.get_student_bookings(&s("bo"));
    assert_eq!(bo.len(), 1);
    assert_eq!(bo[0].booking_id, 2);
    assert!(c.get_student_bookings(&s("nobody")).is_empty());
    assert!(c.get_transaction_history(&s("nobody")).is_empty());
}

#[test]
fn created_package_fields() {
    let mut c = funded(1);
    let p = c.create_package(&s("admin"), 9, &s("ROME"), 3, 2, 4, 500, 77).unwrap();
    assert_eq!(p.package_id, 9);
    assert_eq!(p.destination, "ROME");
    assert_eq!(p.price, 3);
    assert_eq!(p.duration_days, 2);
    assert_eq!(p.max_students, 4);
    assert_eq!(p.enrolled_students, 0);
    assert_eq!(p.min_credit_score, 500);
    assert!(p.active);
    assert_eq!(p.created_at, 77);
    assert_eq!(c.get_packages(), vec![p]);
}

#[test]
fn duplicate_package_ids_resolve_to_first() {
    let mut c = funded(100);
    c.create_package(&s("admin"), 1, &s("A"), 10, 1, 5, 0, 0).unwrap();
    c.create_package(&s("admin"), 1, &s("B"), 20, 1, 5, 0, 0).unwrap();
    let b = c.book_package(&s("buyer"), 1, 0, 0).unwrap();
    assert_eq!(b.destination, "A");
    assert_eq!(c.get_pool_balance(), 90);
    assert_eq!(c.get_packages().len(), 2);
}

#[test]
fn error_not_initialized() {
    let mut c = TravelPackageContract::new();
    assert_eq!(c.deposit_to_pool(&s("admin"), 10), Err(TravelPackageError::NotInitialized));
    assert_eq!(c.create_package(&s("admin"), 1, &s("X"), 10, 1, 1, 0, 0), Err(TravelPackageError::NotInitialized));
    assert_eq!(c.get_pool_balance(), 0);
}

#[test]
fn error_unauthorized() {
    let mut c = funded(10);
    assert_eq!(c.deposit_to_pool(&s("mallory"), 10), Err(TravelPackageError::Unauthorized));
    assert_eq!(c.create_package(&s("mallory"), 1, &s("X"), 10, 1, 1, 0, 0), Err(TravelPackageError::Unauthorized));
    assert_eq!(c.get_pool_balance(), 10);
    assert!(c.get_packages().is_empty());
}

#[test]
fn error_invalid_amount() {
    let mut c = funded(10);
    assert_eq!(c.deposit_to_pool(&s("admin"), 0), Err(TravelPackageError::InvalidAmount));
    assert_eq!(c.deposit_to_pool(&s("admin"), -5), Err(TravelPackageError::InvalidAmount));
    assert_eq!(c.get_pool_balance(), 10);
}

#[test]
fn error_invalid_price_and_duration() {
    let mut c = funded(10);
    assert_eq!(c.create_package(&s("admin"), 1, &s("X"), 0, 1, 1, 0, 0), Err(TravelPackageError::InvalidPrice));
    assert_eq!(c.create_package(&s("admin"), 1, &s("X"), -1, 0, 1, 0, 0), Err(TravelPackageError::InvalidPrice));
    assert_eq!(c.create_package(&s("admin"), 1, &s("X"), 1, 0, 1, 0, 0), Err(TravelPackageError::InvalidDuration));
    assert!(c.get_packages().is_empty());
}

#[test]
fn error_no_packages_and_not_found() {
    let mut c = funded(10);
    assert_eq!(c.book_package(&s("buyer"), 1, 900, 0), Err(TravelPackageError::NoPackagesAvailable));
    assert!(!c.check_eligibility(&s("buyer"), 1, 900));
    c.create_package(&s("admin"), 1, &s("X"), 5, 1, 1, 0, 0).unwrap();
    assert_eq!(c.book_package(&s("buyer"), 2, 900, 0), Err(TravelPackageError::PackageNotFound));
    assert!(!c.check_eligibility(&s("buyer"), 2, 900));
}

#[test]
fn error_package_full() {
    let mut c = funded(10);
    c.create_package(&s("admin"), 1, &s("X"), 5, 1, 0, 0, 0).unwrap();
    assert_eq!(c.book_package(&s("buyer"), 1, 900, 0), Err(TravelPackageError::PackageFull));
    assert!(!c.check_eligibility(&s("buyer"), 1, 900));
    assert_eq!(c.get_pool_balance(), 10);
}

#[test]
fn error_cancel_without_bookings_or_of_another_buyer() {
    let mut c = with_paris(10_000_000_000);
    assert_eq!(c.cancel_booking(&s("buyer"), 1), Err(TravelPackageError::NoBookingsFound));
    let b = c.book_package(&s("buyer"), 1, 750, 0).unwrap();
    assert_eq!(c.cancel_booking(&s("thief"), b.booking_id), Err(TravelPackageError::BookingNotFound));
    assert_eq!(c.cancel_booking(&s("buyer"), b.booking_id + 1), Err(TravelPackageError::BookingNotFound));
    assert_eq!(c.get_pool_balance(), 5_000_000_000);
}

#[test]
fn error_codes_are_distinct() {
    let all = [
        TravelPackageError::NotInitialized,
        TravelPackageError::AlreadyInitialized,
        TravelPackageError::InsufficientCreditScore,
        TravelPackageError::InsufficientPoolFunds,
        TravelPackageError::DuplicateBooking,
        TravelPackageError::Unauthorized,
        TravelPackageError::InvalidAmount,
        TravelPackageError::PackageNotFound,
        TravelPackageError::PackageNotActive,
        TravelPackageError::PackageFull,
        TravelPackageError::NoPackagesAvailable,
        TravelPackageError::NoBookingsFound,
        TravelPackageError::BookingNotFound,
        TravelPackageError::InvalidPrice,
        TravelPackageError::InvalidDuration,
    ];
    for (i, e) in all.iter().enumerate() {
        assert_eq!(e.code(), i as u32 + 1);
    }
}

#[test]
fn status_names() {
    assert_eq!(BookingStatus::Confirmed.name(), "CONFIRMED");
    assert_eq!(BookingStatus::Cancelled.name(), "CANCELLED");
    assert_eq!(BookingStatus::Completed.name(), "COMPLETED");
}

#[test]
fn parts_round_trip() {
    let mut c = with_paris(10_000_000_000);
    let b = c.book_package(&s("buyer"), 1, 750, 5).unwrap();
    c.book_package(&s("other"), 1, 750, 6).unwrap();
    c.cancel_booking(&s("buyer"), b.booking_id).unwrap();
    let packages = c.get_packages();
    let balance = c.get_pool_balance();
    let (config, pool, pk, bk, hs) = c.into_parts();
    let mut back = TravelPackageContract::from_parts(config, pool, pk, bk, hs).expect("consistent parts");
    assert_eq!(back.get_packages(), packages);
    assert_eq!(back.get_pool_balance(), balance);
    assert_eq!(back.book_package(&s("other"), 1, 750, 7), Err(TravelPackageError::DuplicateBooking));
}

#[test]
fn parts_inconsistent_are_rejected() {
    let mut c = with_paris(10_000_000_000);
    c.book_package(&s("buyer"), 1, 750, 5).unwrap();
    let (config, pool, pk, bk, hs) = c.into_parts();
    // a negative balance
    assert!(TravelPackageContract::from_parts(config.clone(), -1, pk.clone(), bk.clone(), hs.clone()).is_none());
    // a booking with the wrong id
    let mut wrong_id = bk.clone();
    wrong_id[0].booking_id = 7;
    assert!(TravelPackageContract::from_parts(config.clone(), pool, pk.clone(), wrong_id, hs.clone()).is_none());
    // two confirmed bookings of one package by one buyer
    let mut twice = bk.clone();
    let mut second = bk[0].clone();
    second.booking_id = 2;
    twice.push(second);
    let mut hs2 = hs.clone();
    let mut rec = hs[0].clone();
    rec.transaction_id = 2;
    hs2.push(rec);
    assert!(TravelPackageContract::from_parts(config.clone(), pool - 5_000_000_000, pk.clone(), twice, hs2).is_none());
    // an audit log that does not follow the bookings
    assert!(TravelPackageContract::from_parts(config.clone(), pool, pk.clone(), bk.clone(), vec![]).is_none());
    // a catalog before initialization
    assert!(TravelPackageContract::from_parts(None, 0, pk.clone(), vec![], vec![]).is_none());
    assert!(TravelPackageContract::from_parts(config, pool, pk, bk, hs).is_some());
}

#[test]
fn capacity_counts_confirmed_bookings() {
    let mut c = funded(100);
    c.create_package(&s("admin"), 1, &s("X"), 10, 1, 2, 0, 0).unwrap();
    let a = c.book_package(&s("ana"), 1, 0, 0).unwrap();
    assert_eq!(c.get_packages()[0].enrolled_students, 1);
    c.book_package(&s("bo"), 1, 0, 0).unwrap();
    assert_eq!(c.get_packages()[0].enrolled_students, 2);
    assert!(!c.check_eligibility(&s("cy"), 1, 0));
    assert_eq!(c.book_package(&s("cy"), 1, 0, 0), Err(TravelPackageError::PackageFull));
    assert_eq!(c.get_pool_balance(), 80);
    // a cancellation frees a place
    c.cancel_booking(&s("ana"), a.booking_id).unwrap();
    assert_eq!(c.get_packages()[0].enrolled_students, 1);
    assert!(c.book_package(&s("cy"), 1, 0, 0).is_ok());
    assert_eq!(c.get_packages()[0].enrolled_students, 2);
}

#[test]
fn parts_with_wrong_enrolment_are_rejected() {
    let mut c = with_paris(10_000_000_000);
    c.book_package(&s("buyer"), 1, 750, 5).unwrap();
    let (config, pool, mut pk, bk, hs) = c.into_parts();
    assert_eq!(pk[0].enrolled_students, 1);
    pk[0].enrolled_students = 0;
    assert!(TravelPackageContract::from_parts(config, pool, pk, bk, hs).is_none());
}

#[test]
fn deposit_bound_is_the_balance() {
    let big: i128 = 100_000_000_000_000_000_000_000_000_000_000_000_000;
    let mut c = funded(big);
    c.create_package(&s("admin"), 1, &s("MOON"), big, 1, 5, 0, 0).unwrap();
    c.book_package(&s("buyer"), 1, 0, 0).unwrap();
    assert_eq!(c.get_pool_balance(), 0);
    // total deposits exceed i128::MAX after this one; the balance does not
    assert_eq!(c.deposit_to_pool(&s("admin"), big), Ok(big));
    assert_eq!(c.deposit_to_pool(&s("admin"), i128::MAX - big), Ok(i128::MAX));
}

#[test]
fn parts_from_an_uninitialized_engine() {
    let (config, pool, pk, bk, hs) = TravelPackageContract::new().into_parts();
    assert!(config.is_none());
    assert!(TravelPackageContract::from_parts(None, 1, vec![], vec![], vec![]).is_none());
    let mut back = TravelPackageContract::from_parts(config, pool, pk, bk, hs).expect("empty engine");
    assert_eq!(back.deposit_to_pool(&s("admin"), 1), Err(TravelPackageError::NotInitialized));
}
