//! The engine's state and its operations: configuration, catalog, pool,
//! bookings and audit log.
//!
//! Authentication and the clock belong to the host: each operation is called
//! on behalf of an identity that the host has already authenticated, and the
//! operations that stamp a time take the current time as an argument.
//!
//! Design choices:
//! - booking ids come from a counter: the n-th booking made gets id n;
//! - a cancelled booking is marked `Cancelled` and cannot be cancelled (nor
//!   refunded) again;
//! - `get_student_bookings` returns the buyer's bookings from the booking list;
//! - `enrolled_students` counts the confirmed bookings of a package: booking
//!   raises it, cancelling lowers it, and `PackageFull` rejects a booking once
//!   it reaches `max_students` (with duplicate ids, the first package with the
//!   id is the one booked and counted);
//! - `check_eligibility` asks exactly what `book_package` checks.
use vstd::prelude::*;
use crate::types::{record_of, SECONDS_PER_DAY, BookingStatus, Config, TransactionRecord, TravelBooking, TravelPackage, TravelPackageError};

verus! {

/// The first index of the catalog that holds a package with this id.
pub open spec fn find_package(s: Seq<TravelPackage>, id: u32) -> Option<int>
    decreases s.len(),
{
    if s.len() == 0 {
        None
    } else {
        match find_package(s.drop_last(), id) {
            Some(i) => Some(i),
            None => if s.last().package_id == id {
                Some(s.len() - 1)
            } else {
                None
            },
        }
    }
}

/// The first index of the booking list that holds this buyer's booking with this id.
pub open spec fn find_booking(s: Seq<TravelBooking>, id: u32, student: Seq<char>) -> Option<int>
    decreases s.len(),
{
    if s.len() == 0 {
        None
    } else {
        match find_booking(s.drop_last(), id, student) {
            Some(i) => Some(i),
            None => if s.last().booking_id == id && s.last().student@ == student {
                Some(s.len() - 1)
            } else {
                None
            },
        }
    }
}

/// Whether the buyer holds a confirmed booking of the package.
pub open spec fn holds_confirmed(s: Seq<TravelBooking>, student: Seq<char>, package_id: u32) -> bool {
    exists|i: int|
        0 <= i < s.len() && #[trigger] s[i].student@ == student && s[i].package_id == package_id
            && s[i].status == BookingStatus::Confirmed
}

/// What a booking draws from the pool while it is outstanding.
pub open spec fn outstanding(b: TravelBooking) -> int {
    if b.status == BookingStatus::Confirmed {
        b.amount_disbursed as int
    } else {
        0
    }
}

/// The booking with its status replaced.
pub open spec fn with_status(b: TravelBooking, status: BookingStatus) -> TravelBooking {
    TravelBooking { status, ..b }
}

/// Sum of the amounts of the confirmed bookings.
pub open spec fn confirmed_total(s: Seq<TravelBooking>) -> int
    decreases s.len(),
{
    if s.len() == 0 {
        0
    } else {
        confirmed_total(s.drop_last()) + outstanding(s.last())
    }
}

/// The part of a log that belongs to one buyer, in append order.
pub open spec fn records_of(s: Seq<TransactionRecord>, student: Seq<char>) -> Seq<TransactionRecord> {
    s.filter(|r: TransactionRecord| r.student@ == student)
}

/// The bookings of one buyer, in the order they were made.
pub open spec fn bookings_of(s: Seq<TravelBooking>, student: Seq<char>) -> Seq<TravelBooking> {
    s.filter(|b: TravelBooking| b.student@ == student)
}

/// Replacing one booking changes the confirmed total by the change of its outstanding amount.
proof fn lemma_confirmed_total_update(s: Seq<TravelBooking>, k: int, b: TravelBooking)
    requires
        0 <= k < s.len(),
    ensures
        confirmed_total(s.update(k, b)) == confirmed_total(s) - outstanding(s[k]) + outstanding(b),
    decreases s.len(),
{
    let t = s.update(k, b);
    if k == s.len() - 1 {
        assert(t.drop_last() =~= s.drop_last());
    } else {
        assert(t.drop_last() =~= s.drop_last().update(k, b));
        lemma_confirmed_total_update(s.drop_last(), k, b);
    }
}

/// Appending a booking adds its outstanding amount to the confirmed total.
proof fn lemma_confirmed_total_push(s: Seq<TravelBooking>, b: TravelBooking)
    ensures
        confirmed_total(s.push(b)) == confirmed_total(s) + outstanding(b),
{
    assert(s.push(b).drop_last() =~= s);
}

/// A match found in a prefix of the catalog is the first match of the whole catalog.
proof fn lemma_find_package_prefix(s: Seq<TravelPackage>, id: u32, n: int)
    requires
        0 <= n <= s.len(),
        find_package(s.take(n), id) is Some,
    ensures
        find_package(s, id) == find_package(s.take(n), id),
    decreases s.len(),
{
    if n == s.len() {
        assert(s.take(n) =~= s);
    } else {
        assert(s.drop_last().take(n) =~= s.take(n));
        lemma_find_package_prefix(s.drop_last(), id, n);
    }
}

/// A match found in a prefix of the booking list is the first match of the whole list.
proof fn lemma_find_booking_prefix(s: Seq<TravelBooking>, id: u32, student: Seq<char>, n: int)
    requires
        0 <= n <= s.len(),
        find_booking(s.take(n), id, student) is Some,
    ensures
        find_booking(s, id, student) == find_booking(s.take(n), id, student),
    decreases s.len(),
{
    if n == s.len() {
        assert(s.take(n) =~= s);
    } else {
        assert(s.drop_last().take(n) =~= s.take(n));
        lemma_find_booking_prefix(s.drop_last(), id, student, n);
    }
}

/// A first match is a match, and no earlier entry matches.
proof fn lemma_find_package_is_first(s: Seq<TravelPackage>, id: u32)
    ensures
        find_package(s, id) matches Some(i) ==> 0 <= i < s.len() && s[i].package_id == id
            && forall|j: int| 0 <= j < i ==> #[trigger] s[j].package_id != id,
        find_package(s, id) is None ==> forall|j: int| 0 <= j < s.len() ==> #[trigger] s[j].package_id != id,
    decreases s.len(),
{
    if s.len() > 0 {
        lemma_find_package_is_first(s.drop_last(), id);
        assert forall|j: int| 0 <= j < s.len() - 1 implies #[trigger] s[j] == s.drop_last()[j] by {}
    }
}

/// A first match is a match of the buyer's booking id.
pub proof fn lemma_find_booking_is_match(s: Seq<TravelBooking>, id: u32, student: Seq<char>)
    ensures
        find_booking(s, id, student) matches Some(i) ==> 0 <= i < s.len() && s[i].booking_id == id
            && s[i].student@ == student,
    decreases s.len(),
{
    if s.len() > 0 {
        lemma_find_booking_is_match(s.drop_last(), id, student);
    }
}

/// The package that a new package record holds.
pub open spec fn new_package(
    package_id: u32,
    destination: Seq<char>,
    price: i128,
    duration_days: u32,
    max_students: u32,
    min_credit_score: u32,
    now: u64,
    p: TravelPackage,
) -> bool {
    &&& p.package_id == package_id
    &&& p.destination@ == destination
    &&& p.price == price
    &&& p.duration_days == duration_days
    &&& p.max_students == max_students
    &&& p.enrolled_students == 0
    &&& p.min_credit_score == min_credit_score
    &&& p.active
    &&& p.created_at == now
}

/// Number of confirmed bookings of a package id.
pub open spec fn confirmed_count(s: Seq<TravelBooking>, id: u32) -> nat
    decreases s.len(),
{
    if s.len() == 0 {
        0
    } else {
        confirmed_count(s.drop_last(), id) + counted(s.last(), id)
    }
}

/// Whether a booking counts as an enrolment in the package id.
pub open spec fn counted(b: TravelBooking, id: u32) -> nat {
    if b.package_id == id && b.status == BookingStatus::Confirmed {
        1
    } else {
        0
    }
}

/// The package with its enrolment replaced.
pub open spec fn with_enrolled(p: TravelPackage, enrolled: u32) -> TravelPackage {
    TravelPackage { enrolled_students: enrolled, ..p }
}

proof fn lemma_confirmed_count_push(s: Seq<TravelBooking>, b: TravelBooking, id: u32)
    ensures
        confirmed_count(s.push(b), id) == confirmed_count(s, id) + counted(b, id),
{
    assert(s.push(b).drop_last() =~= s);
}

proof fn lemma_confirmed_count_update(s: Seq<TravelBooking>, k: int, b: TravelBooking, id: u32)
    requires
        0 <= k < s.len(),
    ensures
        confirmed_count(s.update(k, b), id) == confirmed_count(s, id) - counted(s[k], id) + counted(b, id),
    decreases s.len(),
{
    let t = s.update(k, b);
    if k == s.len() - 1 {
        assert(t.drop_last() =~= s.drop_last());
    } else {
        assert(t.drop_last() =~= s.drop_last().update(k, b));
        lemma_confirmed_count_update(s.drop_last(), k, b, id);
    }
}

proof fn lemma_confirmed_count_positive(s: Seq<TravelBooking>, k: int, id: u32)
    requires
        0 <= k < s.len(),
    ensures
        confirmed_count(s, id) >= counted(s[k], id),
    decreases s.len(),
{
    if k < s.len() - 1 {
        assert(s.drop_last()[k] == s[k]);
        lemma_confirmed_count_positive(s.drop_last(), k, id);
    }
}

proof fn lemma_confirmed_count_absent(s: Seq<TravelBooking>, id: u32)
    requires
        forall|j: int| 0 <= j < s.len() ==> (#[trigger] s[j]).package_id != id,
    ensures
        confirmed_count(s, id) == 0,
    decreases s.len(),
{
    if s.len() > 0 {
        assert forall|j: int| 0 <= j < s.drop_last().len() implies (#[trigger] s.drop_last()[j]).package_id != id by {
            assert(s.drop_last()[j] == s[j]);
        }
        lemma_confirmed_count_absent(s.drop_last(), id);
    }
}

/// A lookup by id sees only the ids of the catalog.
proof fn lemma_find_package_same_ids(s: Seq<TravelPackage>, t: Seq<TravelPackage>, id: u32)
    requires
        s.len() == t.len(),
        forall|j: int| 0 <= j < s.len() ==> (#[trigger] s[j]).package_id == t[j].package_id,
    ensures
        find_package(s, id) == find_package(t, id),
    decreases s.len(),
{
    if s.len() > 0 {
        assert forall|j: int| 0 <= j < s.drop_last().len() implies (#[trigger] s.drop_last()[j]).package_id
            == t.drop_last()[j].package_id by {
            assert(s.drop_last()[j] == s[j]);
            assert(t.drop_last()[j] == t[j]);
        }
        lemma_find_package_same_ids(s.drop_last(), t.drop_last(), id);
    }
}

/// Whether each package's enrolment agrees with the bookings: the first
/// package with an id counts the confirmed bookings of that id, later ones none.
pub open spec fn enrolment_agrees(c: Seq<TravelPackage>, s: Seq<TravelBooking>) -> bool {
    forall|k: int| 0 <= k < c.len() ==> (#[trigger] c[k]).enrolled_students == if find_package(c, c[k].package_id) == Some(k) {
        confirmed_count(s, c[k].package_id)
    } else {
        0
    }
}

/// When the bookings change only in the confirmed count of one id, setting
/// the enrolment of that id's first package to the new count keeps the
/// enrolments in agreement, and changes no lookup.
proof fn lemma_enrolment_kept(c: Seq<TravelPackage>, s: Seq<TravelBooking>, t: Seq<TravelBooking>, id: u32, i: int, e: u32)
    requires
        find_package(c, id) == Some(i),
        e == confirmed_count(t, id),
        forall|x: u32| x != id ==> #[trigger] confirmed_count(t, x) == confirmed_count(s, x),
        enrolment_agrees(c, s),
    ensures
        0 <= i < c.len(),
        forall|x: u32| #[trigger] find_package(c.update(i, with_enrolled(c[i], e)), x) == find_package(c, x),
        enrolment_agrees(c.update(i, with_enrolled(c[i], e)), t),
{
    lemma_find_package_is_first(c, id);
    let d = c.update(i, with_enrolled(c[i], e));
    assert forall|x: u32| #[trigger] find_package(d, x) == find_package(c, x) by {
        assert forall|j: int| 0 <= j < d.len() implies (#[trigger] d[j]).package_id == c[j].package_id by {}
        lemma_find_package_same_ids(d, c, x);
    }
    assert forall|k: int| 0 <= k < d.len() implies (#[trigger] d[k]).enrolled_students == if find_package(d, d[k].package_id) == Some(k) {
        confirmed_count(t, d[k].package_id)
    } else {
        0
    } by {
        assert(find_package(d, d[k].package_id) == find_package(c, d[k].package_id));
        if k != i {
            assert(d[k] == c[k]);
            if c[k].package_id == id {
                assert(find_package(c, c[k].package_id) != Some(k));
            }
        }
    }
}

/// Whether an audit record is the record a booking gave rise to when it was made.
pub open spec fn records_booking(r: TransactionRecord, b: TravelBooking) -> bool {
    &&& r.transaction_id == b.booking_id
    &&& r.student@ == b.student@
    &&& r.package_id == b.package_id
    &&& r.amount == b.amount_disbursed
    &&& r.timestamp == b.booking_date
    &&& r.status == BookingStatus::Confirmed
}

/// The engine's invariant, over the parts of a state:
/// - the pool is never negative, and holds what was deposited less what the
///   confirmed bookings drew from it;
/// - nothing exists before initialization;
/// - every package has a positive price and at most `max_students` enrolled;
///   the first package with an id
///   counts the confirmed bookings of that id as enrolled, later ones none;
/// - the n-th booking has id n, a positive amount, is confirmed or cancelled,
///   and is of a package of the catalog;
/// - no buyer holds two confirmed bookings of one package;
/// - the audit log has one record per booking, in the same order.
pub open spec fn parts_wf(
    config: Option<Config>,
    balance: int,
    deposited: int,
    packages: Seq<TravelPackage>,
    s: Seq<TravelBooking>,
    history: Seq<TransactionRecord>,
) -> bool {
    &&& 0 <= balance <= i128::MAX
    &&& deposited == balance + confirmed_total(s)
    &&& config is None ==> packages.len() == 0 && s.len() == 0 && deposited == 0
    &&& forall|k: int| 0 <= k < packages.len() ==> #[trigger] packages[k].price > 0
        && packages[k].enrolled_students <= packages[k].max_students
    &&& enrolment_agrees(packages, s)
    &&& s.len() < u32::MAX
    &&& forall|k: int| 0 <= k < s.len() ==> (#[trigger] s[k]).booking_id == k + 1
        && s[k].amount_disbursed > 0 && s[k].status != BookingStatus::Completed
        && find_package(packages, s[k].package_id) is Some
    &&& forall|i: int, j: int|
        0 <= i < j < s.len() && #[trigger] s[i].status == BookingStatus::Confirmed
            && #[trigger] s[j].status == BookingStatus::Confirmed && s[i].package_id == s[j].package_id
            ==> s[i].student@ != s[j].student@
    &&& history.len() == s.len()
    &&& forall|k: int| 0 <= k < s.len() ==> records_booking(#[trigger] history[k], s[k])
}

/// Index of the first package of the catalog with this id.
fn first_package_index(packages: &Vec<TravelPackage>, package_id: u32) -> (r: Option<usize>)
    ensures
        match r {
            Some(i) => find_package(packages@, package_id) == Some(i as int),
            None => find_package(packages@, package_id) is None,
        },
{
    let mut i: usize = 0;
    while i < packages.len()
        invariant
            0 <= i <= packages.len(),
            find_package(packages@.take(i as int), package_id) is None,
        decreases packages.len() - i,
    {
        assert(packages@.take(i + 1).drop_last() =~= packages@.take(i as int));
        if packages[i].package_id == package_id {
            proof {
                lemma_find_package_prefix(packages@, package_id, i + 1);
            }
            return Some(i);
        }
        i = i + 1;
    }
    assert(packages@.take(i as int) =~= packages@);
    None
}

/// Number of confirmed bookings of the package id.
fn count_confirmed(bookings: &Vec<TravelBooking>, package_id: u32) -> (r: usize)
    ensures
        r == confirmed_count(bookings@, package_id),
{
    let mut n: usize = 0;
    let mut i: usize = 0;
    while i < bookings.len()
        invariant
            0 <= i <= bookings.len(),
            n <= i,
            n == confirmed_count(bookings@.take(i as int), package_id),
        decreases bookings.len() - i,
    {
        assert(bookings@.take(i + 1).drop_last() =~= bookings@.take(i as int));
        if bookings[i].package_id == package_id && bookings[i].status == BookingStatus::Confirmed {
            n = n + 1;
        }
        i = i + 1;
    }
    assert(bookings@.take(i as int) =~= bookings@);
    n
}

/// The whole state of the engine.
pub struct TravelPackageContract {
    config: Option<Config>,
    pool_balance: i128,
    /// Sum of all deposits, kept for the proofs only.
    total_deposited: Ghost<int>,
    packages: Vec<TravelPackage>,
    bookings: Vec<TravelBooking>,
    history: Vec<TransactionRecord>,
}

impl TravelPackageContract {
    /// The configuration, once initialized.
    pub closed spec fn settings(&self) -> Option<Config> {
        self.config
    }

    /// The pool's balance.
    pub closed spec fn balance(&self) -> int {
        self.pool_balance as int
    }

    /// Sum of all successful deposits; for a state rebuilt by `from_parts`,
    /// the deposits that its balance and confirmed bookings account for.
    pub closed spec fn deposited(&self) -> int {
        self.total_deposited@
    }

    /// The catalog, in insertion order.
    pub closed spec fn catalog(&self) -> Seq<TravelPackage> {
        self.packages@
    }

    /// Every booking made, in the order it was made.
    pub closed spec fn booking_log(&self) -> Seq<TravelBooking> {
        self.bookings@
    }

    /// The audit log of all buyers, in append order.
    pub closed spec fn audit_log(&self) -> Seq<TransactionRecord> {
        self.history@
    }

    /// Whether the identity is the configured administrator.
    pub open spec fn is_admin(&self, caller: Seq<char>) -> bool {
        self.settings() is Some && self.settings()->0.admin@ == caller
    }

    /// The outcome of an administrator check for this caller.
    pub open spec fn admin_check(&self, caller: Seq<char>) -> Result<(), TravelPackageError> {
        if self.settings() is None {
            Err(TravelPackageError::NotInitialized)
        } else if !self.is_admin(caller) {
            Err(TravelPackageError::Unauthorized)
        } else {
            Ok(())
        }
    }

    /// The admission decision for a booking: the package to be booked, or the
    /// first check that fails.
    pub open spec fn booking_check(&self, student: Seq<char>, package_id: u32, credit_score: u32) -> Result<TravelPackage, TravelPackageError> {
        if self.catalog().len() == 0 {
            Err(TravelPackageError::NoPackagesAvailable)
        } else {
            match find_package(self.catalog(), package_id) {
                None => Err(TravelPackageError::PackageNotFound),
                Some(i) => {
                    let p = self.catalog()[i];
                    if !p.active {
                        Err(TravelPackageError::PackageNotActive)
                    } else if credit_score < p.min_credit_score {
                        Err(TravelPackageError::InsufficientCreditScore)
                    } else if p.enrolled_students >= p.max_students {
                        Err(TravelPackageError::PackageFull)
                    } else if holds_confirmed(self.booking_log(), student, package_id) {
                        Err(TravelPackageError::DuplicateBooking)
                    } else if self.balance() < p.price {
                        Err(TravelPackageError::InsufficientPoolFunds)
                    } else {
                        Ok(p)
                    }
                }
            }
        }
    }

    /// The outcome of a cancellation request: the index of the booking to
    /// cancel, or the reason there is none.
    pub open spec fn cancel_check(&self, student: Seq<char>, booking_id: u32) -> Result<int, TravelPackageError> {
        if self.booking_log().len() == 0 {
            Err(TravelPackageError::NoBookingsFound)
        } else {
            match find_booking(self.booking_log(), booking_id, student) {
                None => Err(TravelPackageError::BookingNotFound),
                Some(i) => if self.booking_log()[i].status != BookingStatus::Confirmed {
                    Err(TravelPackageError::BookingNotFound)
                } else {
                    Ok(i)
                },
            }
        }
    }

    /// The booking that a successful `book_package` of package `p` creates.
    pub open spec fn next_booking(&self, student: String, package_id: u32, p: TravelPackage, credit_score: u32, now: u64) -> TravelBooking {
        TravelBooking {
            booking_id: (self.booking_log().len() + 1) as u32,
            student,
            package_id,
            destination: p.destination,
            amount_disbursed: p.price,
            credit_score,
            booking_date: now,
            departure_date: (now + p.duration_days * SECONDS_PER_DAY) as u64,
            status: BookingStatus::Confirmed,
        }
    }

    /// The state invariant.
    pub open spec fn wf(&self) -> bool {
        parts_wf(self.settings(), self.balance(), self.deposited(), self.catalog(), self.booking_log(), self.audit_log())
    }

    /// A fresh, uninitialized engine.
    pub fn new() -> (r: Self)
        ensures
            r.wf(),
            r.settings() is None,
            r.balance() == 0,
            r.deposited() == 0,
            r.catalog().len() == 0,
            r.booking_log().len() == 0,
            r.audit_log().len() == 0,
    {
        TravelPackageContract {
            config: None,
            pool_balance: 0,
            total_deposited: Ghost(0),
            packages: Vec::new(),
            bookings: Vec::new(),
            history: Vec::new(),
        }
    }

    /// Sets the administrator and the pool's accounts, once. The pool starts empty.
    pub fn initialize(&mut self, admin: &String, token_address: &String, pool_address: &String) -> (r: Result<(), TravelPackageError>)
        requires
            old(self).wf(),
        ensures
            final(self).wf(),
            old(self).settings() is Some ==> r == Err::<(), TravelPackageError>(TravelPackageError::AlreadyInitialized)
                && *final(self) == *old(self),
            old(self).settings() is None ==> r is Ok && final(self).settings() == Some(Config {
                admin: *admin,
                token_address: *token_address,
                pool_address: *pool_address,
            }) && final(self).balance() == 0 && final(self).deposited() == 0
                && final(self).catalog() == old(self).catalog()
                && final(self).booking_log() == old(self).booking_log()
                && final(self).audit_log() == old(self).audit_log(),
    {
        if self.config.is_some() {
            return Err(TravelPackageError::AlreadyInitialized);
        }
        self.config = Some(Config {
            admin: admin.clone(),
            token_address: token_address.clone(),
            pool_address: pool_address.clone(),
        });
        self.pool_balance = 0;
        Ok(())
    }

    fn require_admin(&self, caller: &String) -> (r: Result<(), TravelPackageError>)
        ensures
            r == self.admin_check(caller@),
    {
        match &self.config {
            None => Err(TravelPackageError::NotInitialized),
            Some(config) => {
                if config.admin != *caller {
                    Err(TravelPackageError::Unauthorized)
                } else {
                    Ok(())
                }
            }
        }
    }

    /// Adds a package to the catalog (administrator only). Ids are not checked
    /// for uniqueness: a lookup by id finds the first package with that id.
    pub fn create_package(
        &mut self,
        admin: &String,
        package_id: u32,
        destination: &String,
        price: i128,
        duration_days: u32,
        max_students: u32,
        min_credit_score: u32,
        now: u64,
    ) -> (r: Result<TravelPackage, TravelPackageError>)
        requires
            old(self).wf(),
        ensures
            final(self).wf(),
            old(self).admin_check(admin@) is Err ==> r == Err::<TravelPackage, TravelPackageError>(old(self).admin_check(admin@)->Err_0),
            old(self).admin_check(admin@) is Ok && price <= 0 ==> r == Err::<TravelPackage, TravelPackageError>(TravelPackageError::InvalidPrice),
            old(self).admin_check(admin@) is Ok && price > 0 && duration_days == 0 ==> r == Err::<TravelPackage, TravelPackageError>(TravelPackageError::InvalidDuration),
            r is Err ==> *final(self) == *old(self),
            old(self).admin_check(admin@) is Ok && price > 0 && duration_days > 0 ==> r is Ok,
            r is Ok ==> new_package(package_id, destination@, price, duration_days, max_students, min_credit_score, now, r->Ok_0)
                && final(self).catalog() == old(self).catalog().push(r->Ok_0)
                && final(self).settings() == old(self).settings()
                && final(self).balance() == old(self).balance()
                && final(self).deposited() == old(self).deposited()
                && final(self).booking_log() == old(self).booking_log()
                && final(self).audit_log() == old(self).audit_log(),
    {
        match self.require_admin(admin) {
            Err(e) => return Err(e),
            Ok(()) => {},
        }
        if price <= 0 {
            return Err(TravelPackageError::InvalidPrice);
        }
        if duration_days == 0 {
            return Err(TravelPackageError::InvalidDuration);
        }
        let package = TravelPackage {
            package_id,
            destination: destination.clone(),
            price,
            duration_days,
            max_students,
            enrolled_students: 0,
            min_credit_score,
            active: true,
            created_at: now,
        };
        self.packages.push(package.clone());
        proof {
            let old_c = old(self).catalog();
            let c = self.catalog();
            let s = self.booking_log();
            assert(c.drop_last() =~= old_c);
            if find_package(old_c, package_id) is None {
                assert forall|j: int| 0 <= j < s.len() implies (#[trigger] s[j]).package_id != package_id by {
                    assert(s[j].booking_id == j + 1);
                }
                lemma_confirmed_count_absent(s, package_id);
            }
            assert forall|k: int| 0 <= k < c.len() implies #[trigger] c[k].price > 0
                && c[k].enrolled_students <= c[k].max_students by {
                if k < old_c.len() {
                    assert(c[k] == old_c[k]);
                }
            }
            assert forall|k: int| 0 <= k < c.len() implies (#[trigger] c[k]).enrolled_students == if find_package(c, c[k].package_id) == Some(k) {
                confirmed_count(s, c[k].package_id)
            } else {
                0
            } by {
                if k < old_c.len() {
                    assert(c[k] == old_c[k]);
                    lemma_find_package_is_first(old_c, old_c[k].package_id);
                    assert(find_package(c, c[k].package_id) == find_package(old_c, c[k].package_id));
                } else {
                    assert(c[k] == package);
                    lemma_find_package_is_first(old_c, package_id);
                    if find_package(old_c, package_id) is Some {
                        assert(find_package(c, package_id) == find_package(old_c, package_id));
                    } else {
                        assert(find_package(c, package_id) == Some(k));
                    }
                }
            }
            assert forall|k: int| 0 <= k < s.len() implies (#[trigger] s[k]).booking_id == k + 1
                && s[k].amount_disbursed > 0 && s[k].status != BookingStatus::Completed
                && find_package(c, s[k].package_id) is Some by {
                assert(find_package(old_c, s[k].package_id) is Some);
            }
        }
        Ok(package)
    }

    /// Adds funds to the pool (administrator only) and returns the new balance.
    pub fn deposit_to_pool(&mut self, admin: &String, amount: i128) -> (r: Result<i128, TravelPackageError>)
        requires
            old(self).wf(),
            old(self).admin_check(admin@) is Ok && amount > 0 ==> old(self).balance() + amount <= i128::MAX,
        ensures
            final(self).wf(),
            old(self).admin_check(admin@) is Err ==> r == Err::<i128, TravelPackageError>(old(self).admin_check(admin@)->Err_0),
            old(self).admin_check(admin@) is Ok && amount <= 0 ==> r == Err::<i128, TravelPackageError>(TravelPackageError::InvalidAmount),
            r is Err ==> *final(self) == *old(self),
            old(self).admin_check(admin@) is Ok && amount > 0 ==> r is Ok,
            r is Ok ==> r == Ok::<i128, TravelPackageError>(final(self).balance() as i128)
                && final(self).balance() == old(self).balance() + amount
                && final(self).deposited() == old(self).deposited() + amount
                && final(self).settings() == old(self).settings()
                && final(self).catalog() == old(self).catalog()
                && final(self).booking_log() == old(self).booking_log()
                && final(self).audit_log() == old(self).audit_log(),
    {
        match self.require_admin(admin) {
            Err(e) => return Err(e),
            Ok(()) => {},
        }
        if amount <= 0 {
            return Err(TravelPackageError::InvalidAmount);
        }
        self.total_deposited = Ghost(self.total_deposited@ + amount);
        self.pool_balance = self.pool_balance + amount;
        assert(self.catalog() == old(self).catalog());
        Ok(self.pool_balance)
    }

    /// Whether the buyer holds a confirmed booking of the package.
    fn has_active_booking(&self, student: &String, package_id: u32) -> (r: bool)
        ensures
            r == holds_confirmed(self.booking_log(), student@, package_id),
    {
        let mut i: usize = 0;
        while i < self.bookings.len()
            invariant
                0 <= i <= self.bookings.len(),
                forall|j: int| 0 <= j < i ==> !(#[trigger] self.booking_log()[j].student@ == student@
                    && self.booking_log()[j].package_id == package_id
                    && self.booking_log()[j].status == BookingStatus::Confirmed),
            decreases self.bookings.len() - i,
        {
            let b = &self.bookings[i];
            if b.student == *student && b.package_id == package_id && b.status == BookingStatus::Confirmed {
                return true;
            }
            i = i + 1;
        }
        false
    }

    /// Runs the admission checks of a booking, in order, and gives the index
    /// of the package to be booked.
    fn admission(&self, student: &String, package_id: u32, credit_score: u32) -> (r: Result<usize, TravelPackageError>)
        ensures
            match r {
                Ok(i) => find_package(self.catalog(), package_id) == Some(i as int)
                    && i < self.catalog().len() && self.booking_check(student@, package_id, credit_score) == Ok::<TravelPackage, TravelPackageError>(self.catalog()[i as int]),
                Err(e) => self.booking_check(student@, package_id, credit_score) == Err::<TravelPackage, TravelPackageError>(e),
            },
    {
        if self.packages.len() == 0 {
            return Err(TravelPackageError::NoPackagesAvailable);
        }
        let i = match first_package_index(&self.packages, package_id) {
            None => return Err(TravelPackageError::PackageNotFound),
            Some(i) => i,
        };
        proof {
            lemma_find_package_is_first(self.catalog(), package_id);
        }
        let p = &self.packages[i];
        if !p.active {
            return Err(TravelPackageError::PackageNotActive);
        }
        if credit_score < p.min_credit_score {
            return Err(TravelPackageError::InsufficientCreditScore);
        }
        if p.enrolled_students >= p.max_students {
            return Err(TravelPackageError::PackageFull);
        }
        if self.has_active_booking(student, package_id) {
            return Err(TravelPackageError::DuplicateBooking);
        }
        if self.pool_balance < p.price {
            return Err(TravelPackageError::InsufficientPoolFunds);
        }
        Ok(i)
    }

    /// Whether `book_package` would succeed for this buyer, package and score;
    /// changes nothing.
    pub fn check_eligibility(&self, student: &String, package_id: u32, credit_score: u32) -> (r: bool)
        ensures
            r == self.booking_check(student@, package_id, credit_score) is Ok,
    {
        self.admission(student, package_id, credit_score).is_ok()
    }

    /// The id the next booking gets.
    fn generate_booking_id(&self) -> (r: u32)
        requires
            self.booking_log().len() < u32::MAX,
        ensures
            r == self.booking_log().len() + 1,
    {
        (self.bookings.len() + 1) as u32
    }

    /// Appends the audit record of a booking just made.
    fn record_transaction(&mut self, booking: &TravelBooking)
        ensures
            final(self).audit_log() == old(self).audit_log().push(record_of(*booking)),
            final(self).booking_log() == old(self).booking_log(),
            final(self).catalog() == old(self).catalog(),
            final(self).balance() == old(self).balance(),
            final(self).deposited() == old(self).deposited(),
            final(self).settings() == old(self).settings(),
    {
        let transaction = TransactionRecord {
            transaction_id: booking.booking_id,
            student: booking.student.clone(),
            package_id: booking.package_id,
            amount: booking.amount_disbursed,
            timestamp: booking.booking_date,
            status: booking.status,
        };
        self.history.push(transaction);
    }

    /// Books a package for a buyer: runs the admission checks, draws the
    /// package's price from the pool, records the booking and its audit
    /// record, and returns the booking. On a failed check nothing changes.
    /// The checks, in order: the catalog is not empty (`NoPackagesAvailable`);
    /// a package has the id, the first such one is taken (`PackageNotFound`);
    /// it is active; the score reaches its minimum; it has room; the buyer
    /// holds no confirmed booking of it; the pool covers its price.
    pub fn book_package(&mut self, student: &String, package_id: u32, credit_score: u32, now: u64) -> (r: Result<TravelBooking, TravelPackageError>)
        requires
            old(self).wf(),
            old(self).booking_check(student@, package_id, credit_score) is Ok ==> old(self).booking_log().len() + 1 < u32::MAX
                && now + old(self).booking_check(student@, package_id, credit_score)->Ok_0.duration_days * SECONDS_PER_DAY <= u64::MAX,
        ensures
            final(self).wf(),
            old(self).booking_check(student@, package_id, credit_score) is Err ==> r == Err::<TravelBooking, TravelPackageError>(
                old(self).booking_check(student@, package_id, credit_score)->Err_0,
            ) && *final(self) == *old(self),
            old(self).booking_check(student@, package_id, credit_score) is Ok ==> ({
                let p = old(self).booking_check(student@, package_id, credit_score)->Ok_0;
                let b = old(self).next_booking(*student, package_id, p, credit_score, now);
                &&& r == Ok::<TravelBooking, TravelPackageError>(b)
                &&& final(self).balance() == old(self).balance() - p.price
                &&& final(self).booking_log() == old(self).booking_log().push(b)
                &&& final(self).audit_log() == old(self).audit_log().push(record_of(b))
                &&& final(self).catalog() == old(self).catalog().update(
                    find_package(old(self).catalog(), package_id)->Some_0,
                    with_enrolled(p, (p.enrolled_students + 1) as u32),
                )
                &&& final(self).deposited() == old(self).deposited()
                &&& final(self).settings() == old(self).settings()
            }),
    {
        let i = match self.admission(student, package_id, credit_score) {
            Err(e) => return Err(e),
            Ok(i) => i,
        };
        let ghost old_log = self.booking_log();
        let ghost old_c = self.catalog();
        let price = self.packages[i].price;
        let duration_days = self.packages[i].duration_days;
        let destination = self.packages[i].destination.clone();
        let mut package = self.packages[i].clone();
        package.enrolled_students = package.enrolled_students + 1;
        let booking_id = self.generate_booking_id();
        self.pool_balance = self.pool_balance - price;
        let booking = TravelBooking {
            booking_id,
            student: student.clone(),
            package_id,
            destination,
            amount_disbursed: price,
            credit_score,
            booking_date: now,
            departure_date: now + duration_days as u64 * SECONDS_PER_DAY,
            status: BookingStatus::Confirmed,
        };
        self.record_transaction(&booking);
        self.bookings.push(booking.clone());
        self.packages.set(i, package);
        proof {
            let s = self.booking_log();
            let c = self.catalog();
            lemma_confirmed_total_push(old_log, booking);
            lemma_confirmed_count_push(old_log, booking, package_id);
            assert forall|x: u32| x != package_id implies #[trigger] confirmed_count(s, x) == confirmed_count(old_log, x) by {
                lemma_confirmed_count_push(old_log, booking, x);
            }
            lemma_find_package_is_first(old_c, package_id);
            assert(old_c[i as int].enrolled_students == confirmed_count(old_log, package_id));
            assert(package == with_enrolled(old_c[i as int], package.enrolled_students));
            lemma_enrolment_kept(old_c, old_log, s, package_id, i as int, package.enrolled_students);
            assert(c == old_c.update(i as int, with_enrolled(old_c[i as int], package.enrolled_students)));
            assert forall|k: int| 0 <= k < c.len() implies #[trigger] c[k].price > 0
                && c[k].enrolled_students <= c[k].max_students by {
                assert(old_c[k].price > 0);
            }
            assert forall|k: int| 0 <= k < s.len() implies (#[trigger] s[k]).booking_id == k + 1
                && s[k].amount_disbursed > 0 && s[k].status != BookingStatus::Completed
                && find_package(c, s[k].package_id) is Some by {
                if k < old_log.len() {
                    assert(s[k] == old_log[k]);
                }
                assert(find_package(c, s[k].package_id) == find_package(old_c, s[k].package_id));
            }
            assert forall|i: int, j: int|
                0 <= i < j < s.len() && #[trigger] s[i].status == BookingStatus::Confirmed
                    && #[trigger] s[j].status == BookingStatus::Confirmed && s[i].package_id == s[j].package_id
                    implies s[i].student@ != s[j].student@ by {
                assert(s[i] == old_log[i]);
                if j < old_log.len() {
                    assert(s[j] == old_log[j]);
                } else {
                    assert(!(old_log[i].student@ == student@ && old_log[i].package_id == package_id
                        && old_log[i].status == BookingStatus::Confirmed));
                }
            }
            assert forall|k: int| 0 <= k < s.len() implies records_booking(#[trigger] self.audit_log()[k], s[k]) by {
                if k < old_log.len() {
                    assert(s[k] == old_log[k]);
                    assert(self.audit_log()[k] == old(self).audit_log()[k]);
                }
            }
        }
        Ok(booking)
    }

    /// Index of the first booking of the list with this id that belongs to the buyer.
    fn booking_index(&self, student: &String, booking_id: u32) -> (r: Option<usize>)
        ensures
            match r {
                Some(i) => find_booking(self.booking_log(), booking_id, student@) == Some(i as int),
                None => find_booking(self.booking_log(), booking_id, student@) is None,
            },
    {
        let mut i: usize = 0;
        while i < self.bookings.len()
            invariant
                0 <= i <= self.bookings.len(),
                find_booking(self.booking_log().take(i as int), booking_id, student@) is None,
            decreases self.bookings.len() - i,
        {
            assert(self.booking_log().take(i + 1).drop_last() =~= self.booking_log().take(i as int));
            if self.bookings[i].booking_id == booking_id && self.bookings[i].student == *student {
                proof {
                    lemma_find_booking_prefix(self.booking_log(), booking_id, student@, i + 1);
                }
                return Some(i);
            }
            i = i + 1;
        }
        assert(self.booking_log().take(i as int) =~= self.booking_log());
        None
    }

    /// Cancels one of the buyer's confirmed bookings: marks it cancelled,
    /// returns its amount to the pool, and gives the new balance. With no
    /// bookings at all the error is `NoBookingsFound`; when the buyer has no
    /// booking with this id, or it is no longer confirmed, `BookingNotFound`.
    pub fn cancel_booking(&mut self, student: &String, booking_id: u32) -> (r: Result<i128, TravelPackageError>)
        requires
            old(self).wf(),
            old(self).cancel_check(student@, booking_id) is Ok ==> old(self).balance()
                + old(self).booking_log()[old(self).cancel_check(student@, booking_id)->Ok_0].amount_disbursed <= i128::MAX,
        ensures
            final(self).wf(),
            old(self).cancel_check(student@, booking_id) is Err ==> r == Err::<i128, TravelPackageError>(
                old(self).cancel_check(student@, booking_id)->Err_0,
            ) && *final(self) == *old(self),
            old(self).cancel_check(student@, booking_id) is Ok ==> ({
                let i = old(self).cancel_check(student@, booking_id)->Ok_0;
                let b = old(self).booking_log()[i];
                &&& r == Ok::<i128, TravelPackageError>(final(self).balance() as i128)
                &&& final(self).balance() == old(self).balance() + b.amount_disbursed
                &&& final(self).booking_log() == old(self).booking_log().update(i, with_status(b, BookingStatus::Cancelled))
                &&& final(self).audit_log() == old(self).audit_log()
                &&& find_package(old(self).catalog(), b.package_id) is Some
                &&& final(self).catalog() == old(self).catalog().update(
                    find_package(old(self).catalog(), b.package_id)->Some_0,
                    with_enrolled(
                        old(self).catalog()[find_package(old(self).catalog(), b.package_id)->Some_0],
                        (old(self).catalog()[find_package(old(self).catalog(), b.package_id)->Some_0].enrolled_students - 1) as u32,
                    ),
                )
                &&& final(self).deposited() == old(self).deposited()
                &&& final(self).settings() == old(self).settings()
            }),
    {
        if self.bookings.len() == 0 {
            return Err(TravelPackageError::NoBookingsFound);
        }
        let i = match self.booking_index(student, booking_id) {
            None => return Err(TravelPackageError::BookingNotFound),
            Some(i) => i,
        };
        proof {
            lemma_find_booking_is_match(self.booking_log(), booking_id, student@);
        }
        if self.bookings[i].status != BookingStatus::Confirmed {
            return Err(TravelPackageError::BookingNotFound);
        }
        let ghost old_log = self.booking_log();
        let ghost old_c = self.catalog();
        let mut booking = self.bookings[i].clone();
        let refund = booking.amount_disbursed;
        let package_id = booking.package_id;
        proof {
            assert(old_log[i as int].booking_id == i + 1);
        }
        let pi = match first_package_index(&self.packages, package_id) {
            Some(pi) => pi,
            None => return Err(TravelPackageError::BookingNotFound),
        };
        proof {
            lemma_find_package_is_first(old_c, package_id);
            lemma_confirmed_count_positive(old_log, i as int, package_id);
            assert(old_c[pi as int].enrolled_students == confirmed_count(old_log, package_id));
        }
        let mut package = self.packages[pi].clone();
        package.enrolled_students = package.enrolled_students - 1;
        booking.status = BookingStatus::Cancelled;
        self.bookings.set(i, booking);
        self.packages.set(pi, package);
        self.pool_balance = self.pool_balance + refund;
        proof {
            let s = self.booking_log();
            let c = self.catalog();
            let nb = with_status(old_log[i as int], BookingStatus::Cancelled);
            assert(s =~= old_log.update(i as int, nb));
            lemma_confirmed_total_update(old_log, i as int, nb);
            lemma_confirmed_count_update(old_log, i as int, nb, package_id);
            assert forall|x: u32| x != package_id implies #[trigger] confirmed_count(s, x) == confirmed_count(old_log, x) by {
                lemma_confirmed_count_update(old_log, i as int, nb, x);
            }
            assert(package == with_enrolled(old_c[pi as int], package.enrolled_students));
            lemma_enrolment_kept(old_c, old_log, s, package_id, pi as int, package.enrolled_students);
            assert(c == old_c.update(pi as int, with_enrolled(old_c[pi as int], package.enrolled_students)));
            assert forall|k: int| 0 <= k < c.len() implies #[trigger] c[k].price > 0
                && c[k].enrolled_students <= c[k].max_students by {
                assert(old_c[k].price > 0);
            }
            assert forall|k: int| 0 <= k < s.len() implies (#[trigger] s[k]).booking_id == k + 1
                && s[k].amount_disbursed > 0 && s[k].status != BookingStatus::Completed
                && find_package(c, s[k].package_id) is Some by {
                assert(old_log[k].booking_id == k + 1);
                assert(find_package(c, s[k].package_id) == find_package(old_c, s[k].package_id));
            }
            assert forall|a: int, b: int|
                0 <= a < b < s.len() && #[trigger] s[a].status == BookingStatus::Confirmed
                    && #[trigger] s[b].status == BookingStatus::Confirmed && s[a].package_id == s[b].package_id
                    implies s[a].student@ != s[b].student@ by {
                assert(s[a] == old_log[a]);
                assert(s[b] == old_log[b]);
            }
            assert forall|k: int| 0 <= k < s.len() implies records_booking(#[trigger] self.audit_log()[k], s[k]) by {
                assert(records_booking(self.audit_log()[k], old_log[k]));
            }
        }
        Ok(self.pool_balance)
    }

    /// The catalog, in insertion order.
    pub fn get_packages(&self) -> (r: Vec<TravelPackage>)
        ensures
            r@ == self.catalog(),
    {
        let mut r: Vec<TravelPackage> = Vec::new();
        let mut i: usize = 0;
        while i < self.packages.len()
            invariant
                0 <= i <= self.packages.len(),
                r@ == self.catalog().take(i as int),
            decreases self.packages.len() - i,
        {
            r.push(self.packages[i].clone());
            assert(r@ =~= self.catalog().take(i + 1));
            i = i + 1;
        }
        assert(self.catalog().take(i as int) =~= self.catalog());
        r
    }

    /// The buyer's bookings, in the order they were made.
    pub fn get_student_bookings(&self, student: &String) -> (r: Vec<TravelBooking>)
        ensures
            r@ == bookings_of(self.booking_log(), student@),
    {
        let mut r: Vec<TravelBooking> = Vec::new();
        let mut i: usize = 0;
        while i < self.bookings.len()
            invariant
                0 <= i <= self.bookings.len(),
                r@ == bookings_of(self.booking_log().take(i as int), student@),
            decreases self.bookings.len() - i,
        {
            proof {
                reveal(Seq::filter);
                assert(self.booking_log().take(i + 1).drop_last() =~= self.booking_log().take(i as int));
            }
            if self.bookings[i].student == *student {
                r.push(self.bookings[i].clone());
            }
            i = i + 1;
        }
        assert(self.booking_log().take(i as int) =~= self.booking_log());
        r
    }

    /// The buyer's audit log, in append order.
    pub fn get_transaction_history(&self, student: &String) -> (r: Vec<TransactionRecord>)
        ensures
            r@ == records_of(self.audit_log(), student@),
    {
        let mut r: Vec<TransactionRecord> = Vec::new();
        let mut i: usize = 0;
        while i < self.history.len()
            invariant
                0 <= i <= self.history.len(),
                r@ == records_of(self.audit_log().take(i as int), student@),
            decreases self.history.len() - i,
        {
            proof {
                reveal(Seq::filter);
                assert(self.audit_log().take(i + 1).drop_last() =~= self.audit_log().take(i as int));
            }
            if self.history[i].student == *student {
                r.push(self.history[i].clone());
            }
            i = i + 1;
        }
        assert(self.audit_log().take(i as int) =~= self.audit_log());
        r
    }

    /// How many bookings have been made.
    pub fn booking_count(&self) -> (r: usize)
        ensures
            r == self.booking_log().len(),
    {
        self.bookings.len()
    }

    /// Rebuilds an engine from its parts, as they were stored; gives `None`
    /// when the parts do not form a state the engine could have reached.
    pub fn from_parts(
        config: Option<Config>,
        pool_balance: i128,
        packages: Vec<TravelPackage>,
        bookings: Vec<TravelBooking>,
        history: Vec<TransactionRecord>,
    ) -> (r: Option<Self>)
        ensures
            r is Some <==> parts_wf(
                config,
                pool_balance as int,
                pool_balance + confirmed_total(bookings@),
                packages@,
                bookings@,
                history@,
            ),
            r matches Some(c) ==> c.wf() && c.settings() == config && c.balance() == pool_balance
                && c.catalog() == packages@
                && c.booking_log() == bookings@ && c.audit_log() == history@,
    {
        let ghost cfg = config;
        if pool_balance < 0 {
            return None;
        }
        if config.is_none() && (packages.len() > 0 || bookings.len() > 0 || pool_balance != 0) {
            return None;
        }
        let mut k: usize = 0;
        while k < packages.len()
            invariant
                0 <= k <= packages.len(),
                forall|j: int| 0 <= j < k ==> #[trigger] packages@[j].price > 0
                    && packages@[j].enrolled_students <= packages@[j].max_students,
            decreases packages.len() - k,
        {
            if packages[k].price <= 0 || packages[k].enrolled_students > packages[k].max_students {
                return None;
            }
            k = k + 1;
        }
        if bookings.len() >= 4294967295usize {
            return None;
        }
        let s = Ghost(bookings@);
        let mut k: usize = 0;
        while k < bookings.len()
            invariant
                0 <= k <= bookings.len() < u32::MAX,
                s@ == bookings@,
                forall|j: int| 0 <= j < k ==> (#[trigger] s@[j]).booking_id == j + 1
                    && s@[j].amount_disbursed > 0 && s@[j].status != BookingStatus::Completed,
            decreases bookings.len() - k,
        {
            let b = &bookings[k];
            if b.booking_id as usize != k + 1 || b.amount_disbursed <= 0 || b.status == BookingStatus::Completed {
                return None;
            }
            k = k + 1;
        }
        let mut i: usize = 0;
        while i < bookings.len()
            invariant
                0 <= i <= bookings.len(),
                s@ == bookings@,
                forall|a: int, b: int|
                    0 <= a < b < s@.len() && a < i && #[trigger] s@[a].status == BookingStatus::Confirmed
                        && #[trigger] s@[b].status == BookingStatus::Confirmed && s@[a].package_id == s@[b].package_id
                        ==> s@[a].student@ != s@[b].student@,
            decreases bookings.len() - i,
        {
            let mut j: usize = i + 1;
            while j < bookings.len()
                invariant
                    0 <= i < j <= bookings.len(),
                    s@ == bookings@,
                    forall|a: int, b: int|
                        0 <= a < b < s@.len() && a < i && #[trigger] s@[a].status == BookingStatus::Confirmed
                            && #[trigger] s@[b].status == BookingStatus::Confirmed && s@[a].package_id == s@[b].package_id
                            ==> s@[a].student@ != s@[b].student@,
                    forall|b: int|
                        i < b < j && s@[i as int].status == BookingStatus::Confirmed
                            && #[trigger] s@[b].status == BookingStatus::Confirmed && s@[i as int].package_id == s@[b].package_id
                            ==> s@[i as int].student@ != s@[b].student@,
                decreases bookings.len() - j,
            {
                let x = &bookings[i];
                let y = &bookings[j];
                if x.status == BookingStatus::Confirmed && y.status == BookingStatus::Confirmed
                    && x.package_id == y.package_id && x.student == y.student {
                    return None;
                }
                j = j + 1;
            }
            i = i + 1;
        }
        let mut k: usize = 0;
        while k < bookings.len()
            invariant
                0 <= k <= bookings.len(),
                forall|j: int| 0 <= j < k ==> find_package(packages@, (#[trigger] bookings@[j]).package_id) is Some,
            decreases bookings.len() - k,
        {
            if first_package_index(&packages, bookings[k].package_id).is_none() {
                return None;
            }
            k = k + 1;
        }
        let mut k: usize = 0;
        while k < packages.len()
            invariant
                0 <= k <= packages.len(),
                forall|j: int| 0 <= j < k ==> (#[trigger] packages@[j]).enrolled_students == if find_package(packages@, packages@[j].package_id) == Some(j) {
                    confirmed_count(bookings@, packages@[j].package_id)
                } else {
                    0
                },
            decreases packages.len() - k,
        {
            let id = packages[k].package_id;
            let mut expected: usize = 0;
            if let Some(first) = first_package_index(&packages, id) {
                if first == k {
                    expected = count_confirmed(&bookings, id);
                }
            }
            if packages[k].enrolled_students as usize != expected {
                return None;
            }
            k = k + 1;
        }
        if history.len() != bookings.len() {
            return None;
        }
        let mut k: usize = 0;
        while k < bookings.len()
            invariant
                0 <= k <= bookings.len() == history.len(),
                forall|j: int| 0 <= j < k ==> records_booking(#[trigger] history@[j], bookings@[j]),
            decreases bookings.len() - k,
        {
            let r = &history[k];
            let b = &bookings[k];
            if r.transaction_id != b.booking_id || r.student != b.student || r.package_id != b.package_id
                || r.amount != b.amount_disbursed || r.timestamp != b.booking_date || r.status != BookingStatus::Confirmed {
                return None;
            }
            k = k + 1;
        }
        Some(TravelPackageContract {
            config,
            pool_balance,
            total_deposited: Ghost(pool_balance + confirmed_total(bookings@)),
            packages,
            bookings,
            history,
        })
    }

    /// Takes an engine apart, for storage; `from_parts` puts it together again.
    pub fn into_parts(self) -> (r: (Option<Config>, i128, Vec<TravelPackage>, Vec<TravelBooking>, Vec<TransactionRecord>))
        ensures
            r.0 == self.settings(),
            r.1 == self.balance(),
            r.2@ == self.catalog(),
            r.3@ == self.booking_log(),
            r.4@ == self.audit_log(),
    {
        (self.config, self.pool_balance, self.packages, self.bookings, self.history)
    }

    /// The pool's current balance.
    pub fn get_pool_balance(&self) -> (r: i128)
        ensures
            r == self.balance(),
    {
        self.pool_balance
    }
}

} // verus!
