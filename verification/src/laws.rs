//! Laws that relate several ledger operations, proved once and for all.
//!
//! The single-call guarantees (which inputs are rejected with which error,
//! and the exact state transition on success) are stated on each operation
//! of [`crate::ledger::Raiser`] itself. This module proves what holds across
//! whole sequences of operations, over the same spec functions those
//! contracts use.

use vstd::prelude::*;

use crate::ledger::AccountId;
use crate::ledger::Balance;
use crate::ledger::LedgerView;
use crate::ledger::approve_step;
use crate::ledger::contribute_allowed;
use crate::ledger::contribute_step;
use crate::ledger::next_cycle_step;
use crate::ledger::record_of;
use crate::ledger::rollover_ready;
use crate::ledger::wf;

verus! {

/// The sum of the amounts in a sequence of (identity, amount) contribution
/// calls.
pub open spec fn sum_of_amounts(calls: Seq<(AccountId, Balance)>) -> int
    decreases calls.len(),
{
    if calls.len() == 0 {
        0
    } else {
        sum_of_amounts(calls.drop_last()) + calls.last().1
    }
}

/// The state after the accepted contributions in `calls` are applied in
/// order.
pub open spec fn apply_contributions(v: LedgerView, calls: Seq<(AccountId, Balance)>) -> LedgerView
    decreases calls.len(),
{
    if calls.len() == 0 {
        v
    } else {
        contribute_step(apply_contributions(v, calls.drop_last()), calls.last().0, calls.last().1)
    }
}

/// Appending a record leaves every earlier lookup unchanged and answers a
/// lookup of the appended identity that had no earlier match.
pub proof fn lemma_record_of_push(
    recs: Seq<(AccountId, Balance, bool)>,
    entry: (AccountId, Balance, bool),
    id: AccountId,
)
    ensures
        record_of(recs.push(entry), id) == (if record_of(recs, id) is Some {
            record_of(recs, id)
        } else if entry.0 == id {
            Some((entry.1, entry.2))
        } else {
            None::<(Balance, bool)>
        }),
    decreases recs.len(),
{
    if recs.len() == 0 {
        assert(record_of(recs, id) is None);
        assert(recs.push(entry)[0] == entry);
        assert(recs.push(entry).drop_first() =~= Seq::<(AccountId, Balance, bool)>::empty());
        assert(record_of(Seq::<(AccountId, Balance, bool)>::empty(), id) is None);
    } else {
        assert(recs.push(entry)[0] == recs[0]);
        assert(recs.push(entry).drop_first() =~= recs.drop_first().push(entry));
        lemma_record_of_push(recs.drop_first(), entry, id);
    }
}

/// An identity that holds no record and contributes in none of the calls
/// still holds no record after the calls are applied.
pub proof fn lemma_apply_keeps_absent(
    v: LedgerView,
    calls: Seq<(AccountId, Balance)>,
    id: AccountId,
)
    requires
        record_of(v.records, id) is None,
        forall|k: int| 0 <= k < calls.len() ==> (#[trigger] calls[k]).0 != id,
    ensures
        record_of(apply_contributions(v, calls).records, id) is None,
    decreases calls.len(),
{
    if calls.len() > 0 {
        let front = calls.drop_last();
        let last = calls.last();
        assert(forall|k: int| 0 <= k < front.len() ==> (#[trigger] front[k]) == calls[k]);
        lemma_apply_keeps_absent(v, front, id);
        lemma_record_of_push(
            apply_contributions(v, front).records,
            (last.0, last.1, false),
            id,
        );
    }
}

/// Contribution accounting: a sequence of contributions from distinct
/// identities, none of which holds a record yet and each of amount at least
/// the configured minimum, is accepted call by call; the pool grows by
/// exactly the sum of the amounts and the participant count by exactly the
/// number of calls — one per distinct caller.
pub proof fn lemma_contribution_accounting(v: LedgerView, calls: Seq<(AccountId, Balance)>)
    requires
        wf(v),
        forall|i: int, j: int|
            0 <= i < j < calls.len() ==> (#[trigger] calls[i]).0 != (#[trigger] calls[j]).0,
        forall|i: int| 0 <= i < calls.len() ==> (#[trigger] calls[i]).1 >= v.min_amount,
        forall|i: int| 0 <= i < calls.len() ==> record_of(v.records, (#[trigger] calls[i]).0) is None,
        v.pool + sum_of_amounts(calls) <= Balance::MAX,
        v.count + calls.len() <= u128::MAX,
    ensures
        wf(apply_contributions(v, calls)),
        apply_contributions(v, calls).pool == v.pool + sum_of_amounts(calls),
        apply_contributions(v, calls).count == v.count + calls.len(),
        apply_contributions(v, calls).min_amount == v.min_amount,
        forall|i: int|
            0 <= i < calls.len() ==> contribute_allowed(
                apply_contributions(v, calls.take(i)),
                (#[trigger] calls[i]).0,
                calls[i].1,
            ),
    decreases calls.len(),
{
    if calls.len() > 0 {
        let front = calls.drop_last();
        let last = calls.last();
        assert(forall|k: int| 0 <= k < front.len() ==> (#[trigger] front[k]) == calls[k]);
        lemma_sum_of_amounts_nonneg(front);
        lemma_contribution_accounting(v, front);
        let prev = apply_contributions(v, front);
        // The last caller holds no record in `prev`: none in `v.records` by
        // assumption, and none from the earlier calls by distinctness.
        assert(forall|k: int| 0 <= k < front.len() ==> (#[trigger] front[k]).0 != last.0);
        lemma_apply_keeps_absent(v, front, last.0);
        assert(contribute_allowed(prev, last.0, last.1));
        // Acceptance of each earlier call carries over, since the prefixes
        // of `calls` and of its front agree.
        assert forall|i: int| 0 <= i < calls.len() implies contribute_allowed(
            apply_contributions(v, calls.take(i)),
            (#[trigger] calls[i]).0,
            calls[i].1,
        ) by {
            if i < front.len() {
                assert(calls.take(i) =~= front.take(i));
                assert(contribute_allowed(
                    apply_contributions(v, front.take(i)),
                    front[i].0,
                    front[i].1,
                ));
            } else {
                assert(calls.take(i) =~= front);
            }
        }
    }
}

/// The amounts are unsigned, so the running sum never goes below zero.
pub proof fn lemma_sum_of_amounts_nonneg(calls: Seq<(AccountId, Balance)>)
    ensures
        sum_of_amounts(calls) >= 0,
    decreases calls.len(),
{
    if calls.len() > 0 {
        lemma_sum_of_amounts_nonneg(calls.drop_last());
    }
}

/// The effect of an approval that does not complete the cycle: the rollover
/// is a no-op, the queue shrinks by exactly one, the completed-payout
/// counter grows by exactly one, and the history gains exactly one trailing
/// entry — the pending (requester, amount) pair. When the approval does
/// complete the cycle, the rollover that follows it clears the history and
/// the counters instead.
pub proof fn lemma_approve_effect(v: LedgerView, requester: AccountId, amount: Balance)
    requires
        wf(v),
        v.pending == Some((requester, amount)),
        v.completed < u128::MAX,
        !rollover_ready(approve_step(v)),
    ensures
        next_cycle_step(approve_step(v)) == approve_step(v),
        approve_step(v).queue.len() == v.queue.len() - 1,
        approve_step(v).completed == v.completed + 1,
        approve_step(v).history == v.history.push((requester, amount)),
        approve_step(v).pool == v.pool,
        approve_step(v).cycle == v.cycle,
{
}

} // verus!
