//! The ledger state machine and its contracts.

use vstd::prelude::*;

verus! {

/// An opaque caller identity (an account reference). Only equality matters.
pub type AccountId = u128;

/// An amount of value held or moved by the ledger.
pub type Balance = u128;

/// The minimum contribution a fresh ledger accepts.
pub const DEFAULT_MIN_AMOUNT: Balance = 50;

/// Notification that value was received or paid out.
///
/// The ledger never emits this itself: the host environment builds one from
/// the contract of the operation it just ran and publishes it.
#[derive(Debug, Clone, Copy, PartialEq, Eq)]
pub struct Transfer {
    pub from: Option<AccountId>,
    pub to: Option<AccountId>,
    pub value: Balance,
}

/// Notification that an owner allowed a spender to withdraw value.
#[derive(Debug, Clone, Copy, PartialEq, Eq)]
pub struct Approval {
    pub owner: AccountId,
    pub spender: AccountId,
    pub value: Balance,
}

/// Every way a ledger operation can be refused.
#[derive(Debug, Clone, Copy, PartialEq, Eq)]
pub enum Error {
    /// A balance was too low for the requested movement of value.
    InsufficientBalance,
    /// The contributed amount is below the configured minimum.
    LowAmount,
    /// A privileged operation was called by someone other than the operator.
    NotContractOwner,
    /// The caller already holds a participant record in this cycle.
    AlreadyContributed,
    /// The caller is not at the head of the payout queue.
    NotNextContributor,
    /// The participant count has not reached the configured quota.
    NotPaymentPhase,
    /// An approval was attempted while no payout request was pending.
    NoPendingRequest,
    /// The outward value transfer reported failure.
    TransferError,
}

/// The mathematical model of a ledger: what every contract speaks of.
#[verifier::ext_equal]
pub ghost struct LedgerView {
    /// Running sum of all value contributed so far in past and present cycles.
    pub pool: Balance,
    /// Participant records of the current cycle: (identity, funded amount,
    /// paid flag), one per identity, in order of first contribution.
    pub records: Seq<(AccountId, Balance, bool)>,
    /// The FIFO payout queue: identities in contribution order.
    pub queue: Seq<AccountId>,
    /// The pending payout request, at most one: (requester, amount).
    pub pending: Option<(AccountId, Balance)>,
    /// Payouts completed in the current cycle, oldest first.
    pub history: Seq<(AccountId, Balance)>,
    /// Number of participants of the current cycle.
    pub count: u128,
    /// Number of completed payouts in the current cycle.
    pub completed: u128,
    /// The cycle counter; starts at 1 and only ever grows.
    pub cycle: u128,
    /// The contribution floor.
    pub min_amount: Balance,
    /// The participant count that opens the payment phase.
    pub quota: u128,
    /// The sole identity allowed to approve payouts and change the quota.
    pub operator: AccountId,
}

/// The first record in `recs` for identity `id`, if any.
pub open spec fn record_of(recs: Seq<(AccountId, Balance, bool)>, id: AccountId) -> Option<
    (Balance, bool),
>
    decreases recs.len(),
{
    if recs.len() == 0 {
        None
    } else if recs[0].0 == id {
        Some((recs[0].1, recs[0].2))
    } else {
        record_of(recs.drop_first(), id)
    }
}

/// Whether `id` holds a participant record in this cycle.
pub open spec fn has_record(v: LedgerView, id: AccountId) -> bool {
    record_of(v.records, id) is Some
}

/// The funded amount recorded for `id`, or 0 when no record exists.
pub open spec fn funded_of(v: LedgerView, id: AccountId) -> Balance {
    match record_of(v.records, id) {
        Some(rec) => rec.0,
        None => 0,
    }
}

/// Whether `id` is marked paid. An absent record counts as unpaid.
pub open spec fn is_paid(v: LedgerView, id: AccountId) -> bool {
    match record_of(v.records, id) {
        Some(rec) => rec.1,
        None => false,
    }
}

/// Whether every identity in the queue is marked paid.
pub open spec fn all_paid_spec(v: LedgerView) -> bool {
    forall|i: int| 0 <= i < v.queue.len() ==> is_paid(v, #[trigger] v.queue[i])
}

/// The state of a freshly constructed ledger with the given operator.
pub open spec fn initial_view(operator: AccountId) -> LedgerView {
    LedgerView {
        pool: 0,
        records: Seq::empty(),
        queue: Seq::empty(),
        pending: None,
        history: Seq::empty(),
        count: 0,
        completed: 0,
        cycle: 1,
        min_amount: DEFAULT_MIN_AMOUNT,
        quota: 0,
        operator,
    }
}

/// Structural well-formedness: the counters agree with the sequences, and a
/// pending request always names the current queue head.
pub open spec fn wf(v: LedgerView) -> bool {
    &&& v.count == v.records.len()
    &&& v.completed == v.history.len()
    &&& v.queue.len() + v.history.len() == v.records.len()
    &&& match v.pending {
        Some(p) => v.queue.len() > 0 && v.queue[0] == p.0,
        None => true,
    }
}

/// Whether the payment phase is open: the participant count equals the
/// quota exactly.
pub open spec fn in_payment_phase(v: LedgerView) -> bool {
    v.count == v.quota
}

/// Whether `caller` stands at the head of the payout queue.
pub open spec fn is_queue_head(v: LedgerView, caller: AccountId) -> bool {
    v.queue.len() > 0 && v.queue[0] == caller
}

/// Whether a contribution by `caller` of `amount` is accepted.
pub open spec fn contribute_allowed(v: LedgerView, caller: AccountId, amount: Balance) -> bool {
    !has_record(v, caller) && amount >= v.min_amount
}

/// The state after an accepted contribution by `caller` of `amount`.
pub open spec fn contribute_step(v: LedgerView, caller: AccountId, amount: Balance) -> LedgerView {
    LedgerView {
        pool: (v.pool + amount) as Balance,
        records: v.records.push((caller, amount, false)),
        queue: v.queue.push(caller),
        count: (v.count + 1) as u128,
        ..v
    }
}

/// The state after the queue head `caller` requested a payout: the pending
/// slot holds (caller, pool total), overwriting any earlier request.
pub open spec fn request_step(v: LedgerView, caller: AccountId) -> LedgerView {
    LedgerView { pending: Some((caller, v.pool)), ..v }
}

/// The state after a successful approval, before the rollover check: the
/// pending request is cleared, the queue head leaves, the payout is recorded,
/// and every paid flag is reset for the new round within the same cycle.
pub open spec fn approve_step(v: LedgerView) -> LedgerView {
    match v.pending {
        Some(p) => LedgerView {
            pending: None,
            queue: v.queue.drop_first(),
            completed: (v.completed + 1) as u128,
            history: v.history.push(p),
            records: clear_flags(v.records),
            ..v
        },
        None => v,
    }
}

/// All records with their paid flags reset.
pub open spec fn clear_flags(recs: Seq<(AccountId, Balance, bool)>) -> Seq<
    (AccountId, Balance, bool),
> {
    recs.map_values(|rec: (AccountId, Balance, bool)| (rec.0, rec.1, false))
}

/// The sole gate that advances the cycle: every queued identity is paid and
/// the history covers the whole participant count.
pub open spec fn rollover_ready(v: LedgerView) -> bool {
    all_paid_spec(v) && v.history.len() == v.count
}

/// The state after the rollover check: when ready, the per-cycle fields reset
/// together and the cycle counter grows; otherwise nothing changes.
pub open spec fn next_cycle_step(v: LedgerView) -> LedgerView {
    if rollover_ready(v) {
        LedgerView {
            records: Seq::empty(),
            history: Seq::empty(),
            count: 0,
            cycle: (v.cycle + 1) as u128,
            completed: 0,
            ..v
        }
    } else {
        v
    }
}

/// A pooled-contribution payout ledger.
///
/// Contributions feed a shared pool and a FIFO queue; once the quota is met,
/// the queue head may request the pool, the operator approves, and the queue
/// advances. The host environment supplies the caller identity, the moved
/// value and the outcome of the outward transfer as explicit arguments.
pub struct Raiser {
    total_supply: Balance,
    records: Vec<(AccountId, Balance, bool)>,
    min_amount: Balance,
    owner: AccountId,
    contributors: Vec<AccountId>,
    contributors_count: u128,
    pending_request: Option<(AccountId, Balance)>,
    completed_payouts: u128,
    payout_history: Vec<(AccountId, Balance)>,
    max_contributors: u128,
    contribution_cycle: u128,
}

impl View for Raiser {
    type V = LedgerView;

    closed spec fn view(&self) -> LedgerView {
        LedgerView {
            pool: self.total_supply,
            records: self.records@,
            queue: self.contributors@,
            pending: self.pending_request,
            history: self.payout_history@,
            count: self.contributors_count,
            completed: self.completed_payouts,
            cycle: self.contribution_cycle,
            min_amount: self.min_amount,
            quota: self.max_contributors,
            operator: self.owner,
        }
    }
}

impl Raiser {
    /// Constructs a fresh ledger owned by `operator`: empty pool, queue and
    /// history, quota 0, cycle 1, and the default contribution floor.
    pub fn new(operator: AccountId) -> (r: Raiser)
        ensures
            r@ == initial_view(operator),
            wf(r@),
    {
        let r = Raiser {
            total_supply: 0,
            records: Vec::new(),
            min_amount: DEFAULT_MIN_AMOUNT,
            owner: operator,
            contributors: Vec::new(),
            contributors_count: 0,
            pending_request: None,
            completed_payouts: 0,
            payout_history: Vec::new(),
            max_contributors: 0,
            contribution_cycle: 1,
        };
        proof {
            assert(r@ =~= initial_view(operator));
        }
        r
    }

    /// Constructs a ledger operated by the zero identity, for contexts where
    /// no operator identity is supplied.
    pub fn default() -> (r: Raiser)
        ensures
            r@ == initial_view(0),
            wf(r@),
    {
        Raiser::new(0)
    }

    /// The configured participant quota.
    pub fn get_max_contributors(&self) -> (r: u128)
        ensures
            r == self@.quota,
    {
        self.max_contributors
    }

    /// The running pool total.
    pub fn get_total_supply(&self) -> (r: Balance)
        ensures
            r == self@.pool,
    {
        self.total_supply
    }

    /// The number of participants of the current cycle.
    pub fn total_contributors(&self) -> (r: u128)
        ensures
            r == self@.count,
    {
        self.contributors_count
    }

    /// The number of payouts completed in the current cycle.
    pub fn get_completed_payouts(&self) -> (r: u128)
        ensures
            r == self@.completed,
    {
        self.completed_payouts
    }

    /// The current cycle counter.
    pub fn get_contribution_cycle(&self) -> (r: u128)
        ensures
            r == self@.cycle,
    {
        self.contribution_cycle
    }

    /// The pending payout request, if one awaits approval.
    pub fn get_pending_request(&self) -> (r: Option<(AccountId, Balance)>)
        ensures
            r == self@.pending,
    {
        self.pending_request
    }

    /// The queue head: the next identity eligible to request a payout.
    pub fn get_next_requester(&self) -> (r: Option<AccountId>)
        ensures
            r == (if self@.queue.len() == 0 {
                None::<AccountId>
            } else {
                Some(self@.queue[0])
            }),
    {
        if self.contributors.len() == 0 {
            None
        } else {
            Some(self.contributors[0])
        }
    }

    /// Scans the records for the first one naming `id`.
    fn find_record(&self, id: AccountId) -> (r: Option<(Balance, bool)>)
        ensures
            r == record_of(self@.records, id),
    {
        let n = self.records.len();
        let mut i: usize = 0;
        proof {
            assert(self.records@.skip(0) =~= self.records@);
        }
        while i < n
            invariant
                n == self.records.len(),
                i <= n,
                record_of(self.records@, id) == record_of(self.records@.skip(i as int), id),
            decreases n - i,
        {
            let entry = self.records[i];
            proof {
                assert(self.records@.skip(i as int)[0] == self.records@[i as int]);
            }
            if entry.0 == id {
                return Some((entry.1, entry.2));
            }
            proof {
                assert(self.records@.skip(i as int).drop_first() =~= self.records@.skip(
                    i as int + 1,
                ));
            }
            i = i + 1;
        }
        proof {
            assert(self.records@.skip(n as int) =~= Seq::<(AccountId, Balance, bool)>::empty());
        }
        None
    }

    /// The amount recorded as funded by `owner` in this cycle, or 0 when no
    /// record exists.
    pub fn balance_of(&self, owner: AccountId) -> (r: Balance)
        ensures
            r == funded_of(self@, owner),
    {
        match self.find_record(owner) {
            Some(rec) => rec.0,
            None => 0,
        }
    }

    /// Each queued identity paired with its recorded funded amount, in queue
    /// order.
    pub fn get_contributors(&self) -> (r: Vec<(AccountId, Balance)>)
        ensures
            r@.len() == self@.queue.len(),
            forall|i: int|
                0 <= i < r@.len() ==> r@[i] == (self@.queue[i], funded_of(self@, self@.queue[i])),
    {
        let mut r: Vec<(AccountId, Balance)> = Vec::new();
        let n = self.contributors.len();
        let mut i: usize = 0;
        while i < n
            invariant
                n == self.contributors.len(),
                i <= n,
                r@.len() == i,
                forall|j: int|
                    0 <= j < i ==> r@[j] == (self@.queue[j], funded_of(self@, self@.queue[j])),
            decreases n - i,
        {
            let id = self.contributors[i];
            let funded = self.balance_of(id);
            r.push((id, funded));
            i = i + 1;
        }
        r
    }

    /// The payout history of the current cycle, oldest entry first.
    pub fn get_payout_history(&self) -> (r: Vec<(AccountId, Balance)>)
        ensures
            r@ == self@.history,
    {
        let mut r: Vec<(AccountId, Balance)> = Vec::new();
        let n = self.payout_history.len();
        let mut i: usize = 0;
        while i < n
            invariant
                n == self.payout_history.len(),
                i <= n,
                r@ == self.payout_history@.take(i as int),
            decreases n - i,
        {
            r.push(self.payout_history[i]);
            proof {
                assert(self.payout_history@.take(i as int).push(self.payout_history@[i as int])
                    =~= self.payout_history@.take(i as int + 1));
            }
            i = i + 1;
        }
        proof {
            assert(self.payout_history@.take(n as int) =~= self.payout_history@);
        }
        r
    }

    /// Whether every queued identity is marked paid in its participant
    /// record; an absent record counts as unpaid.
    pub fn all_paid(&self) -> (r: bool)
        ensures
            r == all_paid_spec(self@),
    {
        let n = self.contributors.len();
        let mut i: usize = 0;
        while i < n
            invariant
                n == self.contributors.len(),
                i <= n,
                forall|j: int| 0 <= j < i ==> is_paid(self@, #[trigger] self@.queue[j]),
            decreases n - i,
        {
            let id = self.contributors[i];
            let paid = match self.find_record(id) {
                Some(rec) => rec.1,
                None => false,
            };
            if !paid {
                proof {
                    assert(!is_paid(self@, self@.queue[i as int]));
                }
                return false;
            }
            i = i + 1;
        }
        true
    }

    /// Replaces the participant quota. Only the operator may do so; the new
    /// quota is taken unconditionally, with no bound on its relation to the
    /// current queue.
    pub fn set_max_contributors(&mut self, caller: AccountId, new_max: u128) -> (r: Result<
        (),
        Error,
    >)
        requires
            wf(old(self)@),
        ensures
            wf(final(self)@),
            caller != old(self)@.operator ==> r == Err::<(), Error>(Error::NotContractOwner)
                && final(self)@ == old(self)@,
            caller == old(self)@.operator ==> r == Ok::<(), Error>(()) && final(self)@ == (
            LedgerView { quota: new_max, ..old(self)@ }),
    {
        if caller != self.owner {
            return Err(Error::NotContractOwner);
        }
        self.max_contributors = new_max;
        proof {
            assert(self@ =~= (LedgerView { quota: new_max, ..old(self)@ }));
        }
        Ok(())
    }

    /// Records a contribution of `amount` by `caller`.
    ///
    /// A caller that already holds a participant record this cycle is
    /// rejected outright with [`Error::AlreadyContributed`] — a returning
    /// contributor is never topped up. An amount below the configured
    /// minimum is rejected with [`Error::LowAmount`]. Otherwise the caller
    /// joins the queue, a record (amount, unpaid) is created, the
    /// participant count grows by one and the pool grows by `amount`.
    pub fn contribute(&mut self, caller: AccountId, amount: Balance) -> (r: Result<(), Error>)
        requires
            wf(old(self)@),
            amount <= Balance::MAX - old(self)@.pool,
        ensures
            wf(final(self)@),
            has_record(old(self)@, caller) ==> r == Err::<(), Error>(Error::AlreadyContributed)
                && final(self)@ == old(self)@,
            !has_record(old(self)@, caller) && amount < old(self)@.min_amount ==> r
                == Err::<(), Error>(Error::LowAmount) && final(self)@ == old(self)@,
            contribute_allowed(old(self)@, caller, amount) ==> r == Ok::<(), Error>(())
                && final(self)@ == contribute_step(old(self)@, caller, amount),
    {
        if self.find_record(caller).is_some() {
            return Err(Error::AlreadyContributed);
        }
        if amount < self.min_amount {
            return Err(Error::LowAmount);
        }
        // The participant count equals the number of records, which fits in
        // usize, so one more cannot overflow the u128 counter.
        let _record_count = self.records.len();
        proof {
            assert(self.contributors_count < u128::MAX);
        }
        self.contributors_count = self.contributors_count + 1;
        self.contributors.push(caller);
        self.records.push((caller, amount, false));
        self.total_supply = self.total_supply + amount;
        proof {
            assert(self@ =~= contribute_step(old(self)@, caller, amount));
        }
        Ok(())
    }

    /// Asks for the pool to be paid out to `caller`.
    ///
    /// Fails with [`Error::NotPaymentPhase`] unless the participant count
    /// equals the quota exactly, and with [`Error::NotNextContributor`]
    /// unless `caller` is the queue head. On success the pending slot holds
    /// (caller, pool total), overwriting any earlier unapproved request.
    pub fn request_token(&mut self, caller: AccountId) -> (r: Result<(), Error>)
        requires
            wf(old(self)@),
        ensures
            wf(final(self)@),
            !in_payment_phase(old(self)@) ==> r == Err::<(), Error>(Error::NotPaymentPhase)
                && final(self)@ == old(self)@,
            in_payment_phase(old(self)@) && !is_queue_head(old(self)@, caller) ==> r
                == Err::<(), Error>(Error::NotNextContributor) && final(self)@ == old(self)@,
            in_payment_phase(old(self)@) && is_queue_head(old(self)@, caller) ==> r
                == Ok::<(), Error>(()) && final(self)@ == request_step(old(self)@, caller),
    {
        if self.contributors_count != self.max_contributors {
            return Err(Error::NotPaymentPhase);
        }
        if self.contributors.len() > 0 && self.contributors[0] == caller {
            self.pending_request = Some((caller, self.total_supply));
            proof {
                assert(self@ =~= request_step(old(self)@, caller));
            }
            Ok(())
        } else {
            Err(Error::NotNextContributor)
        }
    }

    /// Resets every participant's paid flag for the new round.
    fn clear_paid_flags(&mut self)
        ensures
            final(self)@ == (LedgerView {
                records: clear_flags(old(self)@.records),
                ..old(self)@
            }),
    {
        let n = self.records.len();
        let mut updated: Vec<(AccountId, Balance, bool)> = Vec::new();
        let mut i: usize = 0;
        while i < n
            invariant
                n == self.records.len(),
                i <= n,
                updated@.len() == i,
                forall|j: int|
                    0 <= j < i ==> updated@[j] == (self.records@[j].0, self.records@[j].1, false),
            decreases n - i,
        {
            let entry = self.records[i];
            updated.push((entry.0, entry.1, false));
            i = i + 1;
        }
        self.records = updated;
        proof {
            assert(self.records@ =~= clear_flags(old(self)@.records));
            assert(self@ =~= (LedgerView {
                records: clear_flags(old(self)@.records),
                ..old(self)@
            }));
        }
    }

    /// Runs the rollover check. When every queued identity is paid and the
    /// history covers the whole participant count, the per-cycle fields
    /// reset together and the cycle counter grows by one; otherwise this is
    /// a no-op. Invoked by every successful approval, and callable on its
    /// own.
    pub fn next_contribution_cycle(&mut self)
        requires
            wf(old(self)@),
            old(self)@.cycle < u128::MAX,
        ensures
            wf(final(self)@),
            final(self)@ == next_cycle_step(old(self)@),
            rollover_ready(old(self)@) ==> final(self)@.cycle == old(self)@.cycle + 1,
            !rollover_ready(old(self)@) ==> final(self)@ == old(self)@,
    {
        let ready = self.all_paid();
        if ready {
            let history_len = self.payout_history.len();
            if history_len as u128 == self.contributors_count {
                self.records = Vec::new();
                self.payout_history = Vec::new();
                self.contributors_count = 0;
                self.contribution_cycle = self.contribution_cycle + 1;
                self.completed_payouts = 0;
                proof {
                    assert(self@ =~= next_cycle_step(old(self)@));
                }
            }
        }
    }

    /// Approves the pending payout request.
    ///
    /// Only the operator may approve. The host environment attempts the
    /// outward transfer of the pending amount to the requester and reports
    /// the outcome as `transfer_ok`; on failure the ledger is left exactly
    /// as it was, so the operator can retry. On success the pending request
    /// clears, the requester leaves the queue head, the payout is recorded,
    /// every paid flag resets for the new round, and the rollover check
    /// runs.
    pub fn approve_request(&mut self, caller: AccountId, transfer_ok: bool) -> (r: Result<
        (),
        Error,
    >)
        requires
            wf(old(self)@),
            old(self)@.cycle < u128::MAX,
        ensures
            wf(final(self)@),
            caller != old(self)@.operator ==> r == Err::<(), Error>(Error::NotContractOwner)
                && final(self)@ == old(self)@,
            caller == old(self)@.operator && old(self)@.pending is None ==> r == Err::<(), Error>(
                Error::NoPendingRequest,
            ) && final(self)@ == old(self)@,
            caller == old(self)@.operator && old(self)@.pending is Some && !transfer_ok ==> r
                == Err::<(), Error>(Error::TransferError) && final(self)@ == old(self)@,
            caller == old(self)@.operator && old(self)@.pending is Some && transfer_ok ==> r
                == Ok::<(), Error>(()) && final(self)@ == next_cycle_step(
                approve_step(old(self)@),
            ),
    {
        if caller != self.owner {
            return Err(Error::NotContractOwner);
        }
        let (requester, amount) = match self.pending_request {
            Some(p) => p,
            None => {
                return Err(Error::NoPendingRequest);
            },
        };
        if !transfer_ok {
            return Err(Error::TransferError);
        }
        self.pending_request = None;
        let _head = self.contributors.remove(0);
        // The completed-payout counter equals the history length, which fits
        // in usize, so one more cannot overflow it.
        let _history_len = self.payout_history.len();
        proof {
            assert(self.completed_payouts < u128::MAX);
        }
        self.completed_payouts = self.completed_payouts + 1;
        self.payout_history.push((requester, amount));
        self.clear_paid_flags();
        proof {
            assert(self.contributors@ =~= old(self)@.queue.drop_first());
            assert(self@ =~= approve_step(old(self)@));
        }
        self.next_contribution_cycle();
        Ok(())
    }
}

} // verus!
