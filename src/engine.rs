//! The engine: the account's tables, the current session, and the cached
//! snapshot that each successful mutation refreshes before it returns.

use vstd::prelude::*;

use crate::error::{EngineError, LinkFailure};
use crate::link::LinkType;
use crate::model::Auxiliary;
use crate::store::{
    Association, AssociationStore, Registry, StoreError, ToggleOutcome, lemma_rows_known_add,
    lemma_rows_known_push, lemma_rows_known_remove, rows_known, toggle_result,
};

verus! {

/// Where a booking is in its lifecycle.
#[derive(Clone, Copy, Debug, PartialEq, Eq, Structural)]
pub enum BookingStatus {
    Pending,
    Completed,
    Cancelled,
}

/// A booking row. Times are seconds since the epoch.
#[derive(Clone, Copy, Debug, PartialEq, Eq, Structural)]
pub struct BookingRow {
    pub id: u128,
    pub customer: u128,
    pub company: u128,
    pub staff: u128,
    pub start: i64,
    pub end: i64,
    pub status: BookingStatus,
}

/// A payment row. `amount` is in hundredths.
#[derive(Debug)]
pub struct PaymentRow {
    pub id: u128,
    pub amount: u64,
    pub currency: u128,
    pub method: String,
    pub payer: Option<u128>,
    pub company: u128,
    pub status: String,
}

/// An ad-hoc charge row, created by one checkout and never reused.
#[derive(Debug)]
pub struct AuxiliaryRow {
    pub id: u128,
    pub charge: Auxiliary,
}

/// Who is signed in, and for which company.
#[derive(Clone, Debug)]
pub struct Session {
    pub username: String,
    pub password: String,
    pub company: u128,
}

/// The cached copy of the account's state that the client reads.
#[derive(Debug)]
pub struct Snapshot {
    pub company: u128,
    pub bookings: Vec<BookingRow>,
    pub campaign_links: Vec<Association>,
}

/// The account: its tables, its session and its cached snapshot.
pub struct Engine {
    /// Every entity that exists, whichever table holds it.
    pub entities: Registry,
    /// The next identifier to hand out.
    pub next_id: u128,
    pub payments: Vec<PaymentRow>,
    pub bookings: Vec<BookingRow>,
    pub auxiliaries: Vec<AuxiliaryRow>,
    pub payment_links: AssociationStore,
    pub booking_links: AssociationStore,
    pub campaign_links: AssociationStore,
    pub session: Option<Session>,
    pub snapshot: Option<Snapshot>,
}

/// `k` is the first index of a booking with this id.
pub open spec fn first_booking_at(rows: Seq<BookingRow>, id: u128, k: int) -> bool {
    &&& 0 <= k < rows.len()
    &&& rows[k].id == id
    &&& forall|j: int| 0 <= j < k ==> rows[j].id != id
}

/// The index of the first booking with this id, if there is one.
pub open spec fn booking_index(rows: Seq<BookingRow>, id: u128) -> Option<int> {
    if exists|k: int| first_booking_at(rows, id, k) {
        Some(choose|k: int| first_booking_at(rows, id, k))
    } else {
        None
    }
}

/// The rows with the booking at `k` given a new status.
pub open spec fn with_status(rows: Seq<BookingRow>, k: int, s: BookingStatus) -> Seq<BookingRow> {
    rows.update(k, BookingRow { status: s, ..rows[k] })
}

impl Engine {
    /// Identifiers handed out from now on are new, and every link row
    /// refers to entities that exist.
    pub open spec fn wf(&self) -> bool {
        &&& self.next_id == u128::MAX || forall|k: int|
            0 <= k < self.entities@.len() ==> #[trigger] self.entities@[k] < self.next_id
        &&& rows_known(self.payment_links@, self.entities@)
        &&& rows_known(self.booking_links@, self.entities@)
        &&& rows_known(self.campaign_links@, self.entities@)
    }

    /// The snapshot is present and shows the tables as they are now.
    pub open spec fn snapshot_is_current(&self) -> bool {
        &&& self.session is Some
        &&& self.snapshot is Some
        &&& self.snapshot->0.company == self.session->0.company
        &&& self.snapshot->0.bookings@ == self.bookings@
        &&& self.snapshot->0.campaign_links@ == self.campaign_links@
    }

    /// `self` and `other` hold the same rows in every table, the same
    /// entities and the same next identifier.
    pub open spec fn same_tables(&self, other: &Engine) -> bool {
        &&& self.entities@ == other.entities@
        &&& self.next_id == other.next_id
        &&& self.payments@ == other.payments@
        &&& self.bookings@ == other.bookings@
        &&& self.auxiliaries@ == other.auxiliaries@
        &&& self.payment_links@ == other.payment_links@
        &&& self.booking_links@ == other.booking_links@
        &&& self.campaign_links@ == other.campaign_links@
    }

    /// The session and the snapshot are those of `other`.
    pub open spec fn same_cache(&self, other: &Engine) -> bool {
        &&& self.session == other.session
        &&& self.snapshot == other.snapshot
    }

    /// An account with no entities, no rows and no session.
    pub fn new() -> (r: Engine)
        ensures
            r.wf(),
            r.entities@ == Seq::<u128>::empty(),
            r.next_id == 1,
            r.payments@.len() == 0,
            r.bookings@.len() == 0,
            r.auxiliaries@.len() == 0,
            r.payment_links@.len() == 0,
            r.booking_links@.len() == 0,
            r.campaign_links@.len() == 0,
            r.session is None,
            r.snapshot is None,
    {
        Engine {
            entities: Registry::new(),
            next_id: 1,
            payments: Vec::new(),
            bookings: Vec::new(),
            auxiliaries: Vec::new(),
            payment_links: AssociationStore::new(),
            booking_links: AssociationStore::new(),
            campaign_links: AssociationStore::new(),
            session: None,
            snapshot: None,
        }
    }

    /// Records that an entity kept elsewhere (a customer, a staff member, a
    /// service, a discount, a currency, a campaign, a company) exists.
    pub fn register_entity(&mut self, id: u128)
        requires
            old(self).wf(),
        ensures
            final(self).wf(),
            final(self).entities@ == old(self).entities@.push(id),
            final(self).next_id == if id < old(self).next_id {
                old(self).next_id
            } else if id < u128::MAX {
                (id + 1) as u128
            } else {
                u128::MAX
            },
            final(self).payments@ == old(self).payments@,
            final(self).bookings@ == old(self).bookings@,
            final(self).auxiliaries@ == old(self).auxiliaries@,
            final(self).payment_links@ == old(self).payment_links@,
            final(self).booking_links@ == old(self).booking_links@,
            final(self).campaign_links@ == old(self).campaign_links@,
            final(self).same_cache(old(self)),
    {
        proof {
            lemma_rows_known_add(self.payment_links@, self.entities@, id);
            lemma_rows_known_add(self.booking_links@, self.entities@, id);
            lemma_rows_known_add(self.campaign_links@, self.entities@, id);
        }
        self.entities.add(id);
        if id >= self.next_id {
            if id < u128::MAX {
                self.next_id = id + 1;
            } else {
                self.next_id = u128::MAX;
            }
        }
    }

    /// Hands out a new identifier and records the entity, or `None` once
    /// identifiers have run out.
    fn allocate_id(&mut self) -> (r: Option<u128>)
        requires
            old(self).wf(),
        ensures
            final(self).wf(),
            old(self).next_id == u128::MAX ==> r is None && final(self).same_tables(old(self)),
            old(self).next_id < u128::MAX ==> r == Some(old(self).next_id) && final(self).next_id
                == old(self).next_id + 1 && final(self).entities@ == old(self).entities@.push(
                old(self).next_id,
            ) && !old(self).entities@.contains(old(self).next_id),
            final(self).payments@ == old(self).payments@,
            final(self).bookings@ == old(self).bookings@,
            final(self).auxiliaries@ == old(self).auxiliaries@,
            final(self).payment_links@ == old(self).payment_links@,
            final(self).booking_links@ == old(self).booking_links@,
            final(self).campaign_links@ == old(self).campaign_links@,
            final(self).same_cache(old(self)),
    {
        if self.next_id == u128::MAX {
            return None;
        }
        let id = self.next_id;
        proof {
            if self.entities@.contains(id) {
                let k = choose|k: int| 0 <= k < self.entities@.len() && self.entities@[k] == id;
                assert(self.entities@[k] < self.next_id);
            }
        }
        proof {
            lemma_rows_known_add(self.payment_links@, self.entities@, id);
            lemma_rows_known_add(self.booking_links@, self.entities@, id);
            lemma_rows_known_add(self.campaign_links@, self.entities@, id);
        }
        self.entities.add(id);
        self.next_id = id + 1;
        assert forall|k: int| 0 <= k < self.entities@.len() implies #[trigger] self.entities@[k]
            < self.next_id by {
            if k < self.entities@.len() - 1 {
                assert(old(self).entities@[k] < id);
            }
        }
        Some(id)
    }

    /// Replaces the snapshot with a fresh copy of the tables.
    fn refresh(&mut self)
        requires
            old(self).session is Some,
        ensures
            final(self).snapshot_is_current(),
            final(self).same_tables(old(self)),
            final(self).session == old(self).session,
    {
        let mut bookings: Vec<BookingRow> = Vec::new();
        let mut i: usize = 0;
        while i < self.bookings.len()
            invariant
                0 <= i <= self.bookings@.len(),
                bookings@ == self.bookings@.take(i as int),
            decreases self.bookings@.len() - i,
        {
            bookings.push(self.bookings[i]);
            i = i + 1;
            assert(bookings@ =~= self.bookings@.take(i as int));
        }
        assert(self.bookings@.take(i as int) =~= self.bookings@);
        let company = match &self.session {
            Some(s) => s.company,
            None => 0,
        };
        let campaign_links = self.campaign_links.rows();
        self.snapshot = Some(Snapshot { company, bookings, campaign_links });
    }

    /// Starts a session and fetches the snapshot for it.
    pub fn open_session(&mut self, session: Session)
        ensures
            final(self).snapshot_is_current(),
            final(self).session == Some(session),
            final(self).same_tables(old(self)),
    {
        self.session = Some(session);
        self.refresh();
    }

    /// The cached snapshot, which every successful mutation has refreshed.
    pub fn current_snapshot(&self) -> (r: Result<&Snapshot, EngineError>)
        ensures
            match &self.snapshot {
                Some(s) => r == Ok::<&Snapshot, EngineError>(s),
                None => r == Err::<&Snapshot, EngineError>(EngineError::Unauthorized),
            },
    {
        match &self.snapshot {
            Some(s) => Ok(s),
            None => Err(EngineError::Unauthorized),
        }
    }

    /// Ends the session and drops the snapshot.
    pub fn close_session(&mut self)
        ensures
            final(self).session is None,
            final(self).snapshot is None,
            final(self).same_tables(old(self)),
    {
        self.session = None;
        self.snapshot = None;
    }

    /// The index of the booking with this id.
    fn find_booking(&self, id: u128) -> (r: Option<usize>)
        ensures
            match booking_index(self.bookings@, id) {
                Some(k) => r is Some && r->0 as int == k,
                None => r is None,
            },
    {
        let mut i: usize = 0;
        while i < self.bookings.len()
            invariant
                0 <= i <= self.bookings@.len(),
                forall|k: int| 0 <= k < i ==> self.bookings@[k].id != id,
            decreases self.bookings@.len() - i,
        {
            if self.bookings[i].id == id {
                proof {
                    assert(first_booking_at(self.bookings@, id, i as int));
                    let k = choose|k: int| first_booking_at(self.bookings@, id, k);
                    assert(k == i);
                }
                return Some(i);
            }
            i = i + 1;
        }
        assert(!exists|k: int| first_booking_at(self.bookings@, id, k));
        None
    }
}

/// Every id of `ids` is in `known`.
pub open spec fn all_known(known: Seq<u128>, ids: Seq<u128>) -> bool {
    forall|i: int| 0 <= i < ids.len() ==> known.contains(#[trigger] ids[i])
}

/// `ids[j]` is the first id of `ids` that is not in `known`.
pub open spec fn first_unknown_at(known: Seq<u128>, ids: Seq<u128>, j: int) -> bool {
    &&& 0 <= j < ids.len()
    &&& !known.contains(ids[j])
    &&& forall|i: int| 0 <= i < j ==> known.contains(#[trigger] ids[i])
}

/// The rows that link `owner` to each id of `ids` under `kind`, in order.
pub open spec fn links_to(owner: u128, ids: Seq<u128>, kind: LinkType) -> Seq<Association> {
    Seq::new(ids.len(), |i: int| Association { owner, linked: ids[i], kind })
}

impl Engine {
    /// Every table but `bookings` is as in `other`.
    pub open spec fn same_but_bookings(&self, other: &Engine) -> bool {
        &&& self.entities@ == other.entities@
        &&& self.next_id == other.next_id
        &&& self.payments@ == other.payments@
        &&& self.auxiliaries@ == other.auxiliaries@
        &&& self.payment_links@ == other.payment_links@
        &&& self.booking_links@ == other.booking_links@
        &&& self.campaign_links@ == other.campaign_links@
    }

    /// Marks a booking cancelled.
    pub fn cancel_booking(&mut self, booking: u128) -> (r: Result<(), EngineError>)
        requires
            old(self).wf(),
        ensures
            final(self).wf(),
            final(self).session == old(self).session,
            old(self).session is None ==> r == Err::<(), EngineError>(EngineError::Unauthorized),
            old(self).session is Some && booking_index(old(self).bookings@, booking) is None ==> r
                == Err::<(), EngineError>(EngineError::NotFound { id: booking }),
            r is Err ==> final(self).same_tables(old(self)) && final(self).same_cache(old(self)),
            old(self).session is Some && booking_index(old(self).bookings@, booking) is Some ==> {
                &&& r is Ok
                &&& final(self).bookings@ == with_status(
                    old(self).bookings@,
                    booking_index(old(self).bookings@, booking)->0,
                    BookingStatus::Cancelled,
                )
            },
            r is Ok ==> final(self).same_but_bookings(old(self)) && final(self).snapshot_is_current(),
    {
        if self.session.is_none() {
            return Err(EngineError::Unauthorized);
        }
        match self.find_booking(booking) {
            None => Err(EngineError::NotFound { id: booking }),
            Some(k) => {
                let row = self.bookings[k];
                self.bookings.set(k, BookingRow { status: BookingStatus::Cancelled, ..row });
                self.refresh();
                Ok(())
            },
        }
    }

    /// Moves a booking to new start and end times. A completed or cancelled
    /// booking keeps its times.
    pub fn reschedule_booking(&mut self, booking: u128, start: i64, end: i64) -> (r: Result<
        (),
        EngineError,
    >)
        requires
            old(self).wf(),
        ensures
            final(self).wf(),
            final(self).session == old(self).session,
            old(self).session is None ==> r == Err::<(), EngineError>(EngineError::Unauthorized),
            old(self).session is Some && booking_index(old(self).bookings@, booking) is None ==> r
                == Err::<(), EngineError>(EngineError::NotFound { id: booking }),
            r is Err ==> final(self).same_tables(old(self)) && final(self).same_cache(old(self)),
            old(self).session is Some && booking_index(old(self).bookings@, booking) is Some ==> {
                let k = booking_index(old(self).bookings@, booking)->0;
                let row = old(self).bookings@[k];
                if row.status == BookingStatus::Pending {
                    &&& r is Ok
                    &&& final(self).bookings@ == old(self).bookings@.update(
                        k,
                        BookingRow { start, end, ..row },
                    )
                } else {
                    r == Err::<(), EngineError>(EngineError::InvalidStatus { id: booking })
                }
            },
            r is Ok ==> final(self).same_but_bookings(old(self)) && final(self).snapshot_is_current(),
    {
        if self.session.is_none() {
            return Err(EngineError::Unauthorized);
        }
        match self.find_booking(booking) {
            None => Err(EngineError::NotFound { id: booking }),
            Some(k) => {
                let row = self.bookings[k];
                match row.status {
                    BookingStatus::Pending => {
                        self.bookings.set(k, BookingRow { start, end, ..row });
                        self.refresh();
                        Ok(())
                    },
                    _ => Err(EngineError::InvalidStatus { id: booking }),
                }
            },
        }
    }

    /// Links campaign `campaign` to the session's company if it is not
    /// linked, and unlinks it if it is.
    pub fn toggle_campaign_link(&mut self, campaign: u128) -> (r: Result<ToggleOutcome, EngineError>)
        requires
            old(self).wf(),
        ensures
            final(self).wf(),
            final(self).session == old(self).session,
            old(self).session is None ==> r == Err::<ToggleOutcome, EngineError>(
                EngineError::Unauthorized,
            ) && final(self).same_tables(old(self)) && final(self).same_cache(old(self)),
            old(self).session is Some ==> match toggle_result(
                old(self).campaign_links@,
                old(self).entities@,
                Association {
                    owner: campaign,
                    linked: old(self).session->0.company,
                    kind: LinkType::Company,
                },
            ) {
                Ok((s, o)) => {
                    &&& r == Ok::<ToggleOutcome, EngineError>(o)
                    &&& final(self).campaign_links@ == s
                    &&& final(self).snapshot_is_current()
                },
                Err(StoreError::ConstraintError { id }) => {
                    &&& r == Err::<ToggleOutcome, EngineError>(EngineError::ConstraintError { id })
                    &&& final(self).same_tables(old(self))
                    &&& final(self).same_cache(old(self))
                },
            },
            final(self).entities@ == old(self).entities@,
            final(self).next_id == old(self).next_id,
            final(self).payments@ == old(self).payments@,
            final(self).bookings@ == old(self).bookings@,
            final(self).auxiliaries@ == old(self).auxiliaries@,
            final(self).payment_links@ == old(self).payment_links@,
            final(self).booking_links@ == old(self).booking_links@,
    {
        let company = match &self.session {
            Some(s) => s.company,
            None => {
                return Err(EngineError::Unauthorized);
            },
        };
        let ghost a = Association { owner: campaign, linked: company, kind: LinkType::Company };
        proof {
            lemma_rows_known_remove(self.campaign_links@, self.entities@, a);
            if self.entities@.contains(campaign) && self.entities@.contains(company) {
                lemma_rows_known_push(self.campaign_links@, self.entities@, a);
            }
        }
        match self.campaign_links.toggle(&self.entities, campaign, company, LinkType::Company) {
            Ok(o) => {
                self.refresh();
                Ok(o)
            },
            Err(StoreError::ConstraintError { id }) => Err(EngineError::ConstraintError { id }),
        }
    }

    /// Creates a pending booking and links each service to it, as one unit:
    /// either every row is written, or, when some referenced entity does not
    /// exist, nothing is and the transaction is reported aborted.
    pub fn create_booking(
        &mut self,
        customer: u128,
        start: i64,
        end: i64,
        staff: u128,
        services: &Vec<u128>,
    ) -> (r: Result<u128, EngineError>)
        requires
            old(self).wf(),
        ensures
            final(self).wf(),
            final(self).session == old(self).session,
            old(self).session is None ==> r == Err::<u128, EngineError>(EngineError::Unauthorized),
            old(self).session is Some && old(self).next_id == u128::MAX ==> r == Err::<
                u128,
                EngineError,
            >(EngineError::TransactionAborted { id: None }),
            r is Err ==> final(self).same_tables(old(self)) && final(self).same_cache(old(self)),
            old(self).session is Some && old(self).next_id < u128::MAX ==> {
                let id = old(self).next_id;
                let known = old(self).entities@.push(id);
                let company = old(self).session->0.company;
                let refs = seq![customer, company, staff] + services@;
                &&& (r is Ok <==> all_known(known, refs))
                &&& r is Ok ==> {
                    &&& r == Ok::<u128, EngineError>(id)
                    &&& !old(self).entities@.contains(id)
                    &&& final(self).entities@ == known
                    &&& final(self).next_id == id + 1
                    &&& final(self).bookings@ == old(self).bookings@.push(
                        BookingRow {
                            id,
                            customer,
                            company,
                            staff,
                            start,
                            end,
                            status: BookingStatus::Pending,
                        },
                    )
                    &&& final(self).booking_links@ == old(self).booking_links@ + links_to(
                        id,
                        services@,
                        LinkType::Services,
                    )
                    &&& final(self).payments@ == old(self).payments@
                    &&& final(self).auxiliaries@ == old(self).auxiliaries@
                    &&& final(self).payment_links@ == old(self).payment_links@
                    &&& final(self).campaign_links@ == old(self).campaign_links@
                    &&& final(self).snapshot_is_current()
                }
                &&& r is Err ==> exists|j: int|
                    first_unknown_at(known, refs, j) && r == Err::<u128, EngineError>(
                        EngineError::TransactionAborted { id: Some(refs[j]) },
                    )
            },
    {
        let company = match &self.session {
            Some(s) => s.company,
            None => {
                return Err(EngineError::Unauthorized);
            },
        };
        let ghost before = *self;
        let n_entities = self.entities.len();
        let n_bookings = self.bookings.len();
        let n_links = self.booking_links.len();
        let saved_next = self.next_id;
        let id = match self.allocate_id() {
            Some(id) => id,
            None => {
                return Err(EngineError::TransactionAborted { id: None });
            },
        };
        let ghost known = self.entities@;
        assert(known[known.len() - 1] == id);
        let ghost refs = seq![customer, company, staff] + services@;
        let missing = if !self.entities.contains(customer) {
            Some(customer)
        } else if !self.entities.contains(company) {
            Some(company)
        } else if !self.entities.contains(staff) {
            Some(staff)
        } else {
            None
        };
        if let Some(m) = missing {
            proof {
                if m == customer && !known.contains(customer) {
                    assert(first_unknown_at(known, refs, 0));
                } else if m == company && known.contains(customer) && !known.contains(company) {
                    assert(known.contains(refs[0]));
                    assert(first_unknown_at(known, refs, 1));
                } else {
                    assert(known.contains(refs[0]));
                    assert(known.contains(refs[1]));
                    assert(first_unknown_at(known, refs, 2));
                }
                assert(!all_known(known, refs));
            }
            self.entities.truncate(n_entities);
            self.next_id = saved_next;
            assert(self.entities@ =~= before.entities@);
            return Err(EngineError::TransactionAborted { id: Some(m) });
        }
        self.bookings.push(
            BookingRow { id, customer, company, staff, start, end, status: BookingStatus::Pending },
        );
        let mut i: usize = 0;
        while i < services.len()
            invariant
                0 <= i <= services@.len(),
                self.entities@ == known,
                known == before.entities@.push(id),
                refs == seq![customer, company, staff] + services@,
                known.contains(customer),
                known.contains(company),
                known.contains(staff),
                known.contains(id),
                id == before.next_id,
                self.next_id == id + 1,
                self.wf(),
                n_entities == before.entities@.len(),
                n_bookings == before.bookings@.len(),
                n_links == before.booking_links@.len(),
                saved_next == before.next_id,
                before == *old(self),
                before.wf(),
                self.session == before.session,
                self.snapshot == before.snapshot,
                before.session is Some,
                company == before.session->0.company,
                self.bookings@ == before.bookings@.push(
                    BookingRow {
                        id,
                        customer,
                        company,
                        staff,
                        start,
                        end,
                        status: BookingStatus::Pending,
                    },
                ),
                self.payments@ == before.payments@,
                self.auxiliaries@ == before.auxiliaries@,
                self.payment_links@ == before.payment_links@,
                self.campaign_links@ == before.campaign_links@,
                self.booking_links@ == before.booking_links@ + links_to(
                    id,
                    services@.take(i as int),
                    LinkType::Services,
                ),
                forall|k: int| 0 <= k < i ==> known.contains(#[trigger] services@[k]),
            decreases services@.len() - i,
        {
            proof {
                if known.contains(services@[i as int]) {
                    lemma_rows_known_push(
                        self.booking_links@,
                        self.entities@,
                        Association { owner: id, linked: services@[i as int], kind: LinkType::Services },
                    );
                }
            }
            match self.booking_links.link(&self.entities, id, services[i], LinkType::Services) {
                Ok(()) => {},
                Err(StoreError::ConstraintError { id: bad }) => {
                    proof {
                        assert(known.contains(refs[0]));
                        assert(known.contains(refs[1]));
                        assert(known.contains(refs[2]));
                        assert(refs[3 + i] == services@[i as int]);
                        assert forall|k: int| 0 <= k < 3 + i implies known.contains(
                            #[trigger] refs[k],
                        ) by {
                            if k >= 3 {
                                assert(refs[k] == services@[k - 3]);
                            }
                        }
                        assert(first_unknown_at(known, refs, 3 + i));
                        assert(!all_known(known, refs));
                    }
                    self.booking_links.truncate(n_links);
                    self.bookings.truncate(n_bookings);
                    self.entities.truncate(n_entities);
                    self.next_id = saved_next;
                    assert(self.entities@ =~= before.entities@);
                    assert(self.bookings@ =~= before.bookings@);
                    assert(self.booking_links@ =~= before.booking_links@);
                    return Err(EngineError::TransactionAborted { id: Some(bad) });
                },
            }
            assert(self.booking_links@ =~= before.booking_links@ + links_to(
                id,
                services@.take(i as int + 1),
                LinkType::Services,
            ));
            i = i + 1;
        }
        proof {
            assert(services@.take(i as int) =~= services@);
            assert forall|k: int| 0 <= k < refs.len() implies known.contains(#[trigger] refs[k]) by {
                if k >= 3 {
                    assert(refs[k] == services@[k - 3]);
                }
            }
        }
        self.refresh();
        Ok(id)
    }
}

/// The rows that link `owner` to those ids of `ids` that are in `known`,
/// in order.
pub open spec fn accepted_links(owner: u128, known: Seq<u128>, ids: Seq<u128>, kind: LinkType) -> Seq<
    Association,
>
    decreases ids.len(),
{
    if ids.len() == 0 {
        Seq::empty()
    } else {
        let rest = accepted_links(owner, known, ids.drop_last(), kind);
        if known.contains(ids.last()) {
            rest.push(Association { owner, linked: ids.last(), kind })
        } else {
            rest
        }
    }
}

/// Each accepted row is owned by `owner` and links a known id.
pub proof fn lemma_accepted_known(owner: u128, known: Seq<u128>, ids: Seq<u128>, kind: LinkType)
    ensures
        forall|i: int|
            0 <= i < accepted_links(owner, known, ids, kind).len() ==> (#[trigger] accepted_links(
                owner,
                known,
                ids,
                kind,
            )[i]).owner == owner && known.contains(accepted_links(owner, known, ids, kind)[i].linked),
    decreases ids.len(),
{
    if ids.len() > 0 {
        lemma_accepted_known(owner, known, ids.drop_last(), kind);
    }
}

/// The ids of `ids` that are not in `known`, in order, each with its tag.
pub open spec fn refused_links(known: Seq<u128>, ids: Seq<u128>, kind: LinkType) -> Seq<LinkFailure>
    decreases ids.len(),
{
    if ids.len() == 0 {
        Seq::empty()
    } else {
        let rest = refused_links(known, ids.drop_last(), kind);
        if known.contains(ids.last()) {
            rest
        } else {
            rest.push(LinkFailure { kind, id: ids.last() })
        }
    }
}

/// Every id of `ids` is in `known` exactly when none is refused.
pub proof fn lemma_refused_empty(known: Seq<u128>, ids: Seq<u128>, kind: LinkType)
    ensures
        refused_links(known, ids, kind).len() == 0 <==> all_known(known, ids),
    decreases ids.len(),
{
    if ids.len() > 0 {
        lemma_refused_empty(known, ids.drop_last(), kind);
        if all_known(known, ids) {
            assert(known.contains(ids[ids.len() - 1]));
            assert forall|i: int| 0 <= i < ids.drop_last().len() implies known.contains(
                #[trigger] ids.drop_last()[i],
            ) by {
                assert(ids.drop_last()[i] == ids[i]);
            }
        }
        if refused_links(known, ids, kind).len() == 0 {
            assert forall|i: int| 0 <= i < ids.len() implies known.contains(#[trigger] ids[i]) by {
                if i < ids.len() - 1 {
                    assert(ids.drop_last()[i] == ids[i]);
                }
            }
        }
    }
}

/// `n` consecutive identifiers from `start`.
pub open spec fn id_range(start: u128, n: nat) -> Seq<u128> {
    Seq::new(n, |k: int| (start + k) as u128)
}

/// What a checkout asks to record.
pub struct CheckoutRequest {
    /// The paying customer, if known.
    pub payer: Option<u128>,
    pub services: Vec<u128>,
    pub discounts: Vec<u128>,
    pub auxiliary: Vec<Auxiliary>,
    pub currency: u128,
    pub method: String,
    /// In hundredths.
    pub amount: u64,
    pub status: String,
}

/// The payment row can be written: a positive amount, existing currency,
/// payer and company, and identifiers left for the payment and each charge.
pub open spec fn payment_accepted(e: &Engine, q: &CheckoutRequest) -> bool {
    &&& q.amount > 0
    &&& e.entities@.contains(q.currency)
    &&& (q.payer matches Some(p) ==> e.entities@.contains(p))
    &&& e.entities@.contains(e.session->0.company)
    &&& e.next_id + q.auxiliary@.len() < u128::MAX
}

impl Engine {
    /// Links `owner` to each id of `ids` in the payment relation, one row
    /// per id that exists; each id that does not is added to `failed`. One
    /// refused id does not keep the others from being linked.
    fn link_each(
        &mut self,
        owner: u128,
        ids: &Vec<u128>,
        kind: LinkType,
        failed: &mut Vec<LinkFailure>,
    )
        requires
            old(self).wf(),
            old(self).entities@.contains(owner),
        ensures
            final(self).wf(),
            final(self).payment_links@ == old(self).payment_links@ + accepted_links(
                owner,
                old(self).entities@,
                ids@,
                kind,
            ),
            final(failed)@ == old(failed)@ + refused_links(old(self).entities@, ids@, kind),
            final(self).entities@ == old(self).entities@,
            final(self).next_id == old(self).next_id,
            final(self).payments@ == old(self).payments@,
            final(self).bookings@ == old(self).bookings@,
            final(self).auxiliaries@ == old(self).auxiliaries@,
            final(self).booking_links@ == old(self).booking_links@,
            final(self).campaign_links@ == old(self).campaign_links@,
            final(self).same_cache(old(self)),
    {
        let ghost before = *self;
        let ghost failed0 = failed@;
        let mut i: usize = 0;
        while i < ids.len()
            invariant
                0 <= i <= ids@.len(),
                before == *old(self),
                self.wf(),
                failed0 == old(failed)@,
                self.entities@ == before.entities@,
                before.entities@.contains(owner),
                self.payment_links@ == before.payment_links@ + accepted_links(
                    owner,
                    before.entities@,
                    ids@.take(i as int),
                    kind,
                ),
                failed@ == failed0 + refused_links(before.entities@, ids@.take(i as int), kind),
                self.next_id == before.next_id,
                self.payments@ == before.payments@,
                self.bookings@ == before.bookings@,
                self.auxiliaries@ == before.auxiliaries@,
                self.booking_links@ == before.booking_links@,
                self.campaign_links@ == before.campaign_links@,
                self.session == before.session,
                self.snapshot == before.snapshot,
            decreases ids@.len() - i,
        {
            proof {
                assert(ids@.take(i as int + 1).drop_last() =~= ids@.take(i as int));
                assert(ids@.take(i as int + 1).last() == ids@[i as int]);
            }
            proof {
                let a = Association { owner, linked: ids@[i as int], kind };
                if self.entities@.contains(ids@[i as int]) {
                    lemma_rows_known_push(self.payment_links@, self.entities@, a);
                }
            }
            match self.payment_links.link(&self.entities, owner, ids[i], kind) {
                Ok(()) => {
                    assert(self.payment_links@ =~= before.payment_links@ + accepted_links(
                        owner,
                        before.entities@,
                        ids@.take(i as int + 1),
                        kind,
                    ));
                },
                Err(_) => {
                    failed.push(LinkFailure { kind, id: ids[i] });
                    assert(failed@ =~= failed0 + refused_links(
                        before.entities@,
                        ids@.take(i as int + 1),
                        kind,
                    ));
                },
            }
            i = i + 1;
        }
        assert(ids@.take(i as int) =~= ids@);
    }

    /// Writes one charge row per item, each under a new identifier, and
    /// links each to `owner`.
    fn add_charges(&mut self, owner: u128, items: Vec<Auxiliary>)
        requires
            old(self).wf(),
            old(self).entities@.contains(owner),
            old(self).next_id + items@.len() <= u128::MAX,
        ensures
            final(self).wf(),
            final(self).next_id == old(self).next_id + items@.len(),
            final(self).entities@ == old(self).entities@ + id_range(
                old(self).next_id,
                items@.len(),
            ),
            final(self).auxiliaries@ == old(self).auxiliaries@ + Seq::new(
                items@.len(),
                |k: int| AuxiliaryRow { id: (old(self).next_id + k) as u128, charge: items@[k] },
            ),
            final(self).payment_links@ == old(self).payment_links@ + links_to(
                owner,
                id_range(old(self).next_id, items@.len()),
                LinkType::Auxiliary,
            ),
            final(self).payments@ == old(self).payments@,
            final(self).bookings@ == old(self).bookings@,
            final(self).booking_links@ == old(self).booking_links@,
            final(self).campaign_links@ == old(self).campaign_links@,
            final(self).same_cache(old(self)),
    {
        let ghost before = *self;
        let ghost all = items@;
        let ghost start = self.next_id;
        let mut rest = items;
        let n: usize = rest.len();
        let mut k: usize = 0;
        while rest.len() > 0
            invariant
                before == *old(self),
                all.len() == n,
                start == before.next_id,
                0 <= k <= all.len(),
                rest@ == all.skip(k as int),
                self.wf(),
                self.next_id == start + k,
                start + all.len() <= u128::MAX,
                self.entities@ == before.entities@ + id_range(start, k as nat),
                before.entities@.contains(owner),
                self.auxiliaries@ == before.auxiliaries@ + Seq::new(
                    k as nat,
                    |j: int| AuxiliaryRow { id: (start + j) as u128, charge: all[j] },
                ),
                self.payment_links@ == before.payment_links@ + links_to(
                    owner,
                    id_range(start, k as nat),
                    LinkType::Auxiliary,
                ),
                self.payments@ == before.payments@,
                self.bookings@ == before.bookings@,
                self.booking_links@ == before.booking_links@,
                self.campaign_links@ == before.campaign_links@,
                self.session == before.session,
                self.snapshot == before.snapshot,
            decreases rest@.len(),
        {
            let item = rest.remove(0);
            assert(item == all[k as int]);
            assert(rest@ =~= all.skip(k as int + 1));
            let id = match self.allocate_id() {
                Some(id) => id,
                None => {
                    return;
                },
            };
            assert(self.entities@ =~= before.entities@ + id_range(start, k as nat + 1));
            assert(self.entities@.contains(owner)) by {
                let j = choose|j: int|
                    0 <= j < before.entities@.len() && before.entities@[j] == owner;
                assert(self.entities@[j] == owner);
            }
            assert(self.entities@[self.entities@.len() - 1] == id);
            self.auxiliaries.push(AuxiliaryRow { id, charge: item });
            proof {
                assert(self.entities@.contains(id));
                lemma_rows_known_push(
                    self.payment_links@,
                    self.entities@,
                    Association { owner, linked: id, kind: LinkType::Auxiliary },
                );
            }
            let _ = self.payment_links.link(&self.entities, owner, id, LinkType::Auxiliary);
            k = k + 1;
            assert(self.auxiliaries@ =~= before.auxiliaries@ + Seq::new(
                k as nat,
                |j: int| AuxiliaryRow { id: (start + j) as u128, charge: all[j] },
            ));
            assert(self.payment_links@ =~= before.payment_links@ + links_to(
                owner,
                id_range(start, k as nat),
                LinkType::Auxiliary,
            ));
        }
        assert(k == all.len());
    }
}

/// The bookings after a checkout for `booking` completes it.
pub open spec fn complete_booking(rows: Seq<BookingRow>, booking: Option<u128>) -> Seq<BookingRow> {
    match booking {
        Some(b) => match booking_index(rows, b) {
            Some(k) => with_status(rows, k, BookingStatus::Completed),
            None => rows,
        },
        None => rows,
    }
}

/// The row linking payment `payment` to `booking`, if a booking was given.
pub open spec fn booking_link(payment: u128, booking: Option<u128>) -> Seq<Association> {
    match booking {
        Some(b) => seq![Association { owner: payment, linked: b, kind: LinkType::Booking }],
        None => Seq::empty(),
    }
}

/// The fan-out links of a checkout that were refused: services first, then
/// discounts.
pub open spec fn checkout_refusals(known: Seq<u128>, q: &CheckoutRequest) -> Seq<LinkFailure> {
    refused_links(known, q.services@, LinkType::Services) + refused_links(
        known,
        q.discounts@,
        LinkType::Discounts,
    )
}

impl Engine {
    /// Records a payment for the session's company and links it to the
    /// booking, if one is given, to each service and discount, and to a new
    /// charge row for each ad-hoc item.
    ///
    /// The payment row is written first and stays whatever happens after.
    /// A booking id that names no booking ends the checkout there. Service and
    /// discount links are written one by one and independently: those whose
    /// entity exists are kept even when others are refused, and the refused
    /// ones are all named in the error. Only a checkout with nothing refused
    /// refreshes the snapshot and returns the payment's id.
    pub fn checkout_booking(&mut self, booking: Option<u128>, request: CheckoutRequest) -> (r: Result<
        u128,
        EngineError,
    >)
        requires
            old(self).wf(),
        ensures
            final(self).wf(),
            final(self).session == old(self).session,
            old(self).session is None ==> r == Err::<u128, EngineError>(EngineError::Unauthorized),
            old(self).session is Some && !payment_accepted(old(self), &request) ==> r == Err::<
                u128,
                EngineError,
            >(EngineError::PaymentInsertFailed),
            old(self).session is None || !payment_accepted(old(self), &request) ==> final(self).same_tables(old(self)) && final(self).same_cache(old(self)),
            old(self).session is Some && payment_accepted(old(self), &request) ==> {
                let o = old(self);
                let pid = o.next_id;
                let known = o.entities@.push(pid);
                let n = request.auxiliary@.len();
                let failed = checkout_refusals(known, &request);
                &&& !o.entities@.contains(pid)
                &&& final(self).payments@ == o.payments@.push(
                    PaymentRow {
                        id: pid,
                        amount: request.amount,
                        currency: request.currency,
                        method: request.method,
                        payer: request.payer,
                        company: o.session->0.company,
                        status: request.status,
                    },
                )
                &&& final(self).booking_links@ == o.booking_links@
                &&& final(self).campaign_links@ == o.campaign_links@
                &&& if booking is Some && (booking_index(o.bookings@, booking->0) is None
                    || !known.contains(booking->0)) {
                    &&& r == Err::<u128, EngineError>(
                        EngineError::ConstraintError { id: booking->0 },
                    )
                    &&& final(self).bookings@ == o.bookings@
                    &&& final(self).entities@ == known
                    &&& final(self).next_id == pid + 1
                    &&& final(self).auxiliaries@ == o.auxiliaries@
                    &&& final(self).payment_links@ == o.payment_links@
                    &&& final(self).same_cache(o)
                } else {
                    &&& final(self).bookings@ == complete_booking(o.bookings@, booking)
                    &&& final(self).entities@ == known + id_range((pid + 1) as u128, n)
                    &&& final(self).next_id == pid + 1 + n
                    &&& final(self).auxiliaries@ == o.auxiliaries@ + Seq::new(
                        n,
                        |k: int|
                            AuxiliaryRow {
                                id: (pid + 1 + k) as u128,
                                charge: request.auxiliary@[k],
                            },
                    )
                    &&& final(self).payment_links@ == o.payment_links@ + booking_link(pid, booking)
                        + accepted_links(pid, known, request.services@, LinkType::Services)
                        + accepted_links(pid, known, request.discounts@, LinkType::Discounts)
                        + links_to(pid, id_range((pid + 1) as u128, n), LinkType::Auxiliary)
                    &&& forall|x: u128, k: LinkType|
                        !known.contains(x) && !id_range((pid + 1) as u128, n).contains(x)
                            ==> !final(self).payment_links@.contains(
                            Association { owner: pid, linked: x, kind: k },
                        )
                    &&& (r is Ok <==> all_known(known, request.services@) && all_known(
                        known,
                        request.discounts@,
                    ))
                    &&& failed.len() == 0 ==> r == Ok::<u128, EngineError>(pid)
                        && final(self).snapshot_is_current()
                    &&& failed.len() > 0 ==> final(self).same_cache(o) && (r matches Err(
                        EngineError::PartialLinkFailure { failed: f },
                    ) && f@ == failed)
                }
            },
    {
        let company = match &self.session {
            Some(s) => s.company,
            None => {
                return Err(EngineError::Unauthorized);
            },
        };
        let ghost q = request;
        let ghost o = *self;
        let CheckoutRequest {
            payer,
            services,
            discounts,
            auxiliary,
            currency,
            method,
            amount,
            status,
        } = request;
        if amount == 0 || !self.entities.contains(currency) || !self.entities.contains(company) {
            return Err(EngineError::PaymentInsertFailed);
        }
        if let Some(p) = payer {
            if !self.entities.contains(p) {
                return Err(EngineError::PaymentInsertFailed);
            }
        }
        let n = auxiliary.len();
        if u128::MAX - self.next_id <= n as u128 {
            return Err(EngineError::PaymentInsertFailed);
        }
        let pid = match self.allocate_id() {
            Some(id) => id,
            None => {
                return Err(EngineError::PaymentInsertFailed);
            },
        };
        let ghost known = self.entities@;
        assert(known[known.len() - 1] == pid);
        self.payments.push(PaymentRow { id: pid, amount, currency, method, payer, company, status });
        if let Some(b) = booking {
            let k = match self.find_booking(b) {
                Some(k) => k,
                None => {
                    return Err(EngineError::ConstraintError { id: b });
                },
            };
            proof {
                if self.entities@.contains(b) {
                    lemma_rows_known_push(
                        self.payment_links@,
                        self.entities@,
                        Association { owner: pid, linked: b, kind: LinkType::Booking },
                    );
                }
            }
            match self.payment_links.link(&self.entities, pid, b, LinkType::Booking) {
                Ok(()) => {},
                Err(_) => {
                    return Err(EngineError::ConstraintError { id: b });
                },
            }
            let row = self.bookings[k];
            self.bookings.set(k, BookingRow { status: BookingStatus::Completed, ..row });
        }
        assert(self.payment_links@ =~= o.payment_links@ + booking_link(pid, booking));
        let mut failed: Vec<LinkFailure> = Vec::new();
        self.link_each(pid, &services, LinkType::Services, &mut failed);
        self.link_each(pid, &discounts, LinkType::Discounts, &mut failed);
        assert(failed@ =~= checkout_refusals(known, &q));
        proof {
            lemma_refused_empty(known, q.services@, LinkType::Services);
            lemma_refused_empty(known, q.discounts@, LinkType::Discounts);
        }
        self.add_charges(pid, auxiliary);
        proof {
            let n = q.auxiliary@.len();
            let fresh = id_range((pid + 1) as u128, n);
            let head = o.payment_links@ + booking_link(pid, booking);
            let acc_s = accepted_links(pid, known, q.services@, LinkType::Services);
            let acc_d = accepted_links(pid, known, q.discounts@, LinkType::Discounts);
            let aux = links_to(pid, fresh, LinkType::Auxiliary);
            lemma_accepted_known(pid, known, q.services@, LinkType::Services);
            lemma_accepted_known(pid, known, q.discounts@, LinkType::Discounts);
            assert(self.payment_links@ == head + acc_s + acc_d + aux);
            assert forall|x: u128, k: LinkType|
                !known.contains(x) && !fresh.contains(x) implies !self.payment_links@.contains(
                Association { owner: pid, linked: x, kind: k },
            ) by {
                let t = Association { owner: pid, linked: x, kind: k };
                let all = self.payment_links@;
                if all.contains(t) {
                    let j = choose|j: int| 0 <= j < all.len() && all[j] == t;
                    let l0 = o.payment_links@.len() as int;
                    let l1 = head.len() as int;
                    let l2 = l1 + acc_s.len();
                    let l3 = l2 + acc_d.len();
                    if j < l0 {
                        assert(head[j] == o.payment_links@[j]);
                        assert(o.entities@.contains(o.payment_links@[j].owner));
                    } else if j < l1 {
                        assert(head[j] == booking_link(pid, booking)[j - l0]);
                    } else if j < l2 {
                        assert(all[j] == acc_s[j - l1]);
                    } else if j < l3 {
                        assert(all[j] == acc_d[j - l2]);
                    } else {
                        assert(all[j] == aux[j - l3]);
                        assert(fresh[j - l3] == x);
                    }
                }
            }
        }
        if failed.len() > 0 {
            return Err(EngineError::PartialLinkFailure { failed });
        }
        self.refresh();
        Ok(pid)
    }

    /// A checkout with no booking: a walk-in customer, who may be unknown.
    pub fn checkout_walkin(&mut self, request: CheckoutRequest) -> (r: Result<u128, EngineError>)
        requires
            old(self).wf(),
        ensures
            final(self).wf(),
            final(self).session == old(self).session,
            old(self).session is None ==> r == Err::<u128, EngineError>(EngineError::Unauthorized),
            old(self).session is Some && !payment_accepted(old(self), &request) ==> r == Err::<
                u128,
                EngineError,
            >(EngineError::PaymentInsertFailed),
            old(self).session is None || !payment_accepted(old(self), &request) ==> final(self).same_tables(old(self)) && final(self).same_cache(old(self)),
            old(self).session is Some && payment_accepted(old(self), &request) ==> {
                let o = old(self);
                let pid = o.next_id;
                let known = o.entities@.push(pid);
                let n = request.auxiliary@.len();
                let failed = checkout_refusals(known, &request);
                &&& !o.entities@.contains(pid)
                &&& final(self).payments@ == o.payments@.push(
                    PaymentRow {
                        id: pid,
                        amount: request.amount,
                        currency: request.currency,
                        method: request.method,
                        payer: request.payer,
                        company: o.session->0.company,
                        status: request.status,
                    },
                )
                &&& final(self).bookings@ == o.bookings@
                &&& final(self).booking_links@ == o.booking_links@
                &&& final(self).campaign_links@ == o.campaign_links@
                &&& final(self).entities@ == known + id_range((pid + 1) as u128, n)
                &&& final(self).next_id == pid + 1 + n
                &&& final(self).auxiliaries@ == o.auxiliaries@ + Seq::new(
                    n,
                    |k: int|
                        AuxiliaryRow { id: (pid + 1 + k) as u128, charge: request.auxiliary@[k] },
                )
                &&& final(self).payment_links@ == o.payment_links@ + accepted_links(
                    pid,
                    known,
                    request.services@,
                    LinkType::Services,
                ) + accepted_links(pid, known, request.discounts@, LinkType::Discounts) + links_to(
                    pid,
                    id_range((pid + 1) as u128, n),
                    LinkType::Auxiliary,
                )
                &&& forall|x: u128, k: LinkType|
                    !known.contains(x) && !id_range((pid + 1) as u128, n).contains(x)
                        ==> !final(self).payment_links@.contains(
                        Association { owner: pid, linked: x, kind: k },
                    )
                &&& (r is Ok <==> all_known(known, request.services@) && all_known(
                    known,
                    request.discounts@,
                ))
                &&& failed.len() == 0 ==> r == Ok::<u128, EngineError>(pid)
                    && final(self).snapshot_is_current()
                &&& failed.len() > 0 ==> final(self).same_cache(o) && (r matches Err(
                    EngineError::PartialLinkFailure { failed: f },
                ) && f@ == failed)
            },
    {
        let r = self.checkout_booking(None, request);
        proof {
            let o = old(self);
            let pid = o.next_id;
            assert(o.payment_links@ + booking_link(pid, None) =~= o.payment_links@);
        }
        r
    }
}

} // verus!
