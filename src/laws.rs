//! Properties that hold of every state the engine can reach.
//!
//! `TravelPackageContract::new` establishes `wf`, and every operation that
//! changes the state requires and ensures it, so each lemma below holds after
//! any sequence of operations.
use vstd::prelude::*;
use crate::contract::{
    confirmed_count, confirmed_total, enrolment_agrees, find_booking, find_package, lemma_find_booking_is_match,
    TravelPackageContract,
};
use crate::types::{BookingStatus, TransactionRecord, TravelBooking, TravelPackage, TravelPackageError};

verus! {

/// Sum of the amounts of all bookings ever made.
pub open spec fn disbursed_total(s: Seq<TravelBooking>) -> int
    decreases s.len(),
{
    if s.len() == 0 {
        0
    } else {
        disbursed_total(s.drop_last()) + s.last().amount_disbursed
    }
}

/// Sum of the amounts returned to the pool by cancellations.
pub open spec fn refunded_total(s: Seq<TravelBooking>) -> int
    decreases s.len(),
{
    if s.len() == 0 {
        0
    } else {
        refunded_total(s.drop_last()) + if s.last().status == BookingStatus::Cancelled {
            s.last().amount_disbursed as int
        } else {
            0
        }
    }
}

proof fn lemma_confirmed_is_disbursed_minus_refunded(s: Seq<TravelBooking>)
    requires
        forall|k: int| 0 <= k < s.len() ==> (#[trigger] s[k]).status != BookingStatus::Completed,
    ensures
        confirmed_total(s) == disbursed_total(s) - refunded_total(s),
    decreases s.len(),
{
    if s.len() > 0 {
        assert forall|k: int| 0 <= k < s.drop_last().len() implies (#[trigger] s.drop_last()[k]).status
            != BookingStatus::Completed by {
            assert(s.drop_last()[k] == s[k]);
        }
        lemma_confirmed_is_disbursed_minus_refunded(s.drop_last());
        assert(s[s.len() - 1].status != BookingStatus::Completed);
    }
}

/// The pool's balance is never negative.
pub proof fn lemma_pool_balance_nonnegative(c: &TravelPackageContract)
    requires
        c.wf(),
    ensures
        c.balance() >= 0,
{
}

/// A buyer holds at most one confirmed booking of each package.
pub proof fn lemma_one_confirmed_booking_per_package(c: &TravelPackageContract, i: int, j: int)
    requires
        c.wf(),
        0 <= i < c.booking_log().len(),
        0 <= j < c.booking_log().len(),
        c.booking_log()[i].status == BookingStatus::Confirmed,
        c.booking_log()[j].status == BookingStatus::Confirmed,
        c.booking_log()[i].student@ == c.booking_log()[j].student@,
        c.booking_log()[i].package_id == c.booking_log()[j].package_id,
    ensures
        i == j,
{
    let s = c.booking_log();
    if i < j {
        assert(s[i].student@ != s[j].student@);
    } else if j < i {
        assert(s[j].student@ != s[i].student@);
    }
}

/// Money is conserved: the pool holds what was deposited, less what the
/// confirmed bookings drew from it; equivalently, less everything disbursed,
/// plus everything refunded by cancellations.
pub proof fn lemma_pool_conservation(c: &TravelPackageContract)
    requires
        c.wf(),
    ensures
        c.balance() == c.deposited() - confirmed_total(c.booking_log()),
        c.balance() == c.deposited() - disbursed_total(c.booking_log()) + refunded_total(c.booking_log()),
{
    let s = c.booking_log();
    assert forall|k: int| 0 <= k < s.len() implies (#[trigger] s[k]).status != BookingStatus::Completed by {
        assert(s[k].booking_id == k + 1);
    }
    lemma_confirmed_is_disbursed_minus_refunded(s);
}

/// Reads repeat: two calls of `get_packages`, `get_pool_balance` or
/// `get_transaction_history` on one state give identical results.
pub proof fn lemma_reads_repeat(
    c: &TravelPackageContract,
    student: &String,
    packages1: Vec<TravelPackage>,
    packages2: Vec<TravelPackage>,
    balance1: i128,
    balance2: i128,
    history1: Vec<TransactionRecord>,
    history2: Vec<TransactionRecord>,
)
    requires
        call_ensures(TravelPackageContract::get_packages, (c,), packages1),
        call_ensures(TravelPackageContract::get_packages, (c,), packages2),
        call_ensures(TravelPackageContract::get_pool_balance, (c,), balance1),
        call_ensures(TravelPackageContract::get_pool_balance, (c,), balance2),
        call_ensures(TravelPackageContract::get_transaction_history, (c, student), history1),
        call_ensures(TravelPackageContract::get_transaction_history, (c, student), history2),
    ensures
        packages1@ == packages2@,
        balance1 == balance2,
        history1@ == history2@,
{
}

/// A package's enrolment is the number of its confirmed bookings (for the
/// first package with its id; a later package with the same id is never
/// booked).
pub proof fn lemma_enrolment_counts_bookings(c: &TravelPackageContract, k: int)
    requires
        c.wf(),
        0 <= k < c.catalog().len(),
    ensures
        find_package(c.catalog(), c.catalog()[k].package_id) == Some(k) ==> c.catalog()[k].enrolled_students
            == confirmed_count(c.booking_log(), c.catalog()[k].package_id),
        find_package(c.catalog(), c.catalog()[k].package_id) != Some(k) ==> c.catalog()[k].enrolled_students == 0,
{
    assert(enrolment_agrees(c.catalog(), c.booking_log()));
    let p = c.catalog()[k];
    assert(p.enrolled_students == if find_package(c.catalog(), p.package_id) == Some(k) {
        confirmed_count(c.booking_log(), p.package_id)
    } else {
        0
    });
}

/// No package holds more enrolments than it admits.
pub proof fn lemma_enrolment_within_capacity(c: &TravelPackageContract, k: int)
    requires
        c.wf(),
        0 <= k < c.catalog().len(),
    ensures
        c.catalog()[k].enrolled_students <= c.catalog()[k].max_students,
{
    assert(c.catalog()[k].price > 0);
}

/// Booking and then cancelling restores the pool: in the state that a
/// successful `book_package` leaves, the buyer can cancel the new booking, and
/// the refund brings the balance back to what it was before the booking.
pub proof fn lemma_cancel_undoes_booking(
    c0: &TravelPackageContract,
    c1: &TravelPackageContract,
    student: String,
    package_id: u32,
    credit_score: u32,
    now: u64,
)
    requires
        c0.wf(),
        c1.wf(),
        c0.booking_check(student@, package_id, credit_score) is Ok,
        c1.balance() == c0.balance() - c0.booking_check(student@, package_id, credit_score)->Ok_0.price,
        c1.booking_log() == c0.booking_log().push(
            c0.next_booking(student, package_id, c0.booking_check(student@, package_id, credit_score)->Ok_0, credit_score, now),
        ),
    ensures
        ({
            let b = c0.next_booking(student, package_id, c0.booking_check(student@, package_id, credit_score)->Ok_0, credit_score, now);
            &&& c1.cancel_check(student@, b.booking_id) == Ok::<int, TravelPackageError>(c0.booking_log().len() as int)
            &&& c1.balance() + b.amount_disbursed == c0.balance()
        }),
{
    let b = c0.next_booking(student, package_id, c0.booking_check(student@, package_id, credit_score)->Ok_0, credit_score, now);
    let s = c0.booking_log();
    lemma_find_booking_is_match(s, b.booking_id, student@);
    if find_booking(s, b.booking_id, student@) is Some {
        let i = find_booking(s, b.booking_id, student@)->Some_0;
        assert(s[i].booking_id == i + 1);
    }
    assert(c1.booking_log().drop_last() =~= s);
}

/// Every booking id is used once: the n-th booking made has id n.
pub proof fn lemma_booking_ids_unique(c: &TravelPackageContract, i: int, j: int)
    requires
        c.wf(),
        0 <= i < c.booking_log().len(),
        0 <= j < c.booking_log().len(),
        c.booking_log()[i].booking_id == c.booking_log()[j].booking_id,
    ensures
        i == j,
        c.booking_log()[i].booking_id == i + 1,
{
    let s = c.booking_log();
    assert(s[i].booking_id == i + 1);
    assert(s[j].booking_id == j + 1);
}

/// Each audit record is the record of the booking of the same position, as
/// it was when the booking was made.
pub proof fn lemma_audit_log_follows_bookings(c: &TravelPackageContract, k: int)
    requires
        c.wf(),
        0 <= k < c.booking_log().len(),
    ensures
        c.audit_log().len() == c.booking_log().len(),
        c.audit_log()[k].transaction_id == c.booking_log()[k].booking_id,
        c.audit_log()[k].student@ == c.booking_log()[k].student@,
        c.audit_log()[k].package_id == c.booking_log()[k].package_id,
        c.audit_log()[k].amount == c.booking_log()[k].amount_disbursed,
        c.audit_log()[k].timestamp == c.booking_log()[k].booking_date,
        c.audit_log()[k].status == BookingStatus::Confirmed,
{
    assert(crate::contract::records_booking(c.audit_log()[k], c.booking_log()[k]));
}

} // verus!
