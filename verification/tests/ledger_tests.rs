use raiser::Error;
use raiser::Raiser;

// Identities used across the tests: the operator deploys the ledger and the
// other identities contribute.
const ALICE: u128 = 1;
const BOB: u128 = 2;
const CHARLIE: u128 = 3;

#[test]
fn it_works() {
    let contract = Raiser::default();
    assert_eq!(contract.get_total_supply(), 0);
    assert_eq!(contract.total_contributors(), 0);
    assert_eq!(contract.get_completed_payouts(), 0);
    assert_eq!(contract.get_max_contributors(), 0);
    assert_eq!(contract.get_payout_history().len(), 0);
}

#[test]
fn set_max_contributors_works() {
    let mut contract = Raiser::new(ALICE);
    assert_eq!(contract.get_max_contributors(), 0);
    assert_eq!(contract.set_max_contributors(ALICE, 10), Ok(()));
    assert_eq!(contract.get_max_contributors(), 10);
}

#[test]
fn contribute_works() {
    let mut contract = Raiser::new(ALICE);
    assert_eq!(contract.get_total_supply(), 0);
    assert_eq!(contract.contribute(ALICE, 100), Ok(()));
    assert_eq!(contract.get_total_supply(), 100);

    // Try to contribute again; the call fails and the total is unchanged.
    assert_eq!(contract.contribute(ALICE, 200), Err(Error::AlreadyContributed));
    assert_eq!(contract.get_total_supply(), 100);

    // Alice is in the list of contributors.
    let contributors = contract.get_contributors();
    assert_eq!(contributors.len(), 1);
    assert_eq!(contributors[0].0, ALICE);
    assert_eq!(contributors[0].1, 100);
}

#[test]
fn request_token_works() {
    let mut contract = Raiser::new(ALICE);
    assert_eq!(contract.set_max_contributors(ALICE, 1), Ok(()));
    assert_eq!(contract.contribute(ALICE, 100), Ok(()));
    assert_eq!(contract.request_token(ALICE), Ok(()));
    let request = contract.get_pending_request();
    assert!(request.is_some());
    assert_eq!(request.unwrap().0, ALICE);
}

#[test]
fn approve_request_works() {
    let mut contract = Raiser::new(ALICE);
    assert_eq!(contract.set_max_contributors(ALICE, 1), Ok(()));
    assert_eq!(contract.contribute(ALICE, 100), Ok(()));
    contract.request_token(ALICE).unwrap();

    // Approve the request as the operator; the outward transfer succeeded.
    assert_eq!(contract.approve_request(ALICE, true), Ok(()));
}

#[test]
fn get_next_requester_works() {
    let mut contract = Raiser::new(ALICE);

    // Initially, there is no next requester.
    assert_eq!(contract.get_next_requester(), None);

    assert_eq!(contract.set_max_contributors(ALICE, 2), Ok(()));
    assert_eq!(contract.contribute(ALICE, 100), Ok(()));

    // Now, Alice is the next requester.
    assert_eq!(contract.get_next_requester(), Some(ALICE));

    assert_eq!(contract.contribute(BOB, 100), Ok(()));

    // Alice still is, because Bob's contribution came after Alice's.
    assert_eq!(contract.get_next_requester(), Some(ALICE));
}

#[test]
fn get_completed_payouts_works() {
    let mut contract = Raiser::new(ALICE);

    // Initially, there are no completed payouts.
    assert_eq!(contract.get_completed_payouts(), 0);

    assert_eq!(contract.set_max_contributors(ALICE, 2), Ok(()));
    assert_eq!(contract.contribute(ALICE, 100), Ok(()));
    assert_eq!(contract.contribute(BOB, 100), Ok(()));
    assert_eq!(contract.request_token(ALICE), Ok(()));

    assert_eq!(contract.approve_request(ALICE, true), Ok(()));

    // Now, there is one completed payout.
    assert_eq!(contract.get_completed_payouts(), 1);
    assert_eq!(contract.get_payout_history().len(), 1);
}

#[test]
fn next_contribution_cycle_works() {
    let mut contract = Raiser::new(ALICE);

    // Initially, the ledger is in the first contribution cycle.
    assert_eq!(contract.get_contribution_cycle(), 1);

    // An empty ledger is trivially all-paid with a complete history, so the
    // rollover fires.
    contract.next_contribution_cycle();

    assert_eq!(contract.get_contribution_cycle(), 2);
}

#[test]
fn total_contributors_works() {
    let mut contract = Raiser::new(ALICE);

    assert_eq!(contract.total_contributors(), 0);

    assert_eq!(contract.set_max_contributors(ALICE, 1), Ok(()));
    assert_eq!(contract.contribute(ALICE, 100), Ok(()));
    assert_eq!(contract.total_contributors(), 1);

    assert_eq!(contract.contribute(BOB, 100), Ok(()));
    assert_eq!(contract.total_contributors(), 2);
}

#[test]
fn pool_sums_contributions_and_counts_distinct_callers() {
    let mut contract = Raiser::new(ALICE);
    assert_eq!(contract.contribute(ALICE, 100), Ok(()));
    assert_eq!(contract.contribute(BOB, 150), Ok(()));
    assert_eq!(contract.contribute(CHARLIE, 100), Ok(()));
    assert_eq!(contract.get_total_supply(), 350);
    assert_eq!(contract.total_contributors(), 3);
    assert_eq!(contract.balance_of(ALICE), 100);
    assert_eq!(contract.balance_of(BOB), 150);
    // An identity without a record has balance 0.
    assert_eq!(contract.balance_of(9), 0);
}

#[test]
fn low_amount_rejected_without_state_effect() {
    let mut contract = Raiser::new(ALICE);
    assert_eq!(contract.contribute(BOB, 10), Err(Error::LowAmount));
    assert_eq!(contract.get_total_supply(), 0);
    assert_eq!(contract.total_contributors(), 0);
    assert_eq!(contract.get_contributors().len(), 0);
}

#[test]
fn request_fails_outside_payment_phase() {
    let mut contract = Raiser::new(ALICE);
    assert_eq!(contract.set_max_contributors(ALICE, 2), Ok(()));
    assert_eq!(contract.contribute(ALICE, 100), Ok(()));
    // One participant with a quota of two: not yet in the payment phase,
    // whoever calls.
    assert_eq!(contract.request_token(ALICE), Err(Error::NotPaymentPhase));
    assert_eq!(contract.request_token(BOB), Err(Error::NotPaymentPhase));
    assert!(contract.get_pending_request().is_none());
}

#[test]
fn only_queue_head_may_request() {
    let mut contract = Raiser::new(ALICE);
    assert_eq!(contract.set_max_contributors(ALICE, 2), Ok(()));
    assert_eq!(contract.contribute(ALICE, 100), Ok(()));
    assert_eq!(contract.contribute(BOB, 100), Ok(()));
    assert_eq!(contract.request_token(BOB), Err(Error::NotNextContributor));
    assert_eq!(contract.request_token(ALICE), Ok(()));
    assert_eq!(contract.get_pending_request(), Some((ALICE, 200)));
}

#[test]
fn non_operator_cannot_set_quota() {
    let mut contract = Raiser::new(ALICE);
    assert_eq!(contract.set_max_contributors(BOB, 5), Err(Error::NotContractOwner));
    assert_eq!(contract.get_max_contributors(), 0);
}

#[test]
fn non_operator_cannot_approve() {
    let mut contract = Raiser::new(ALICE);
    assert_eq!(contract.set_max_contributors(ALICE, 1), Ok(()));
    assert_eq!(contract.contribute(BOB, 100), Ok(()));
    assert_eq!(contract.request_token(BOB), Ok(()));
    assert_eq!(contract.approve_request(BOB, true), Err(Error::NotContractOwner));
    // Queue and history are untouched.
    assert_eq!(contract.get_next_requester(), Some(BOB));
    assert_eq!(contract.get_payout_history().len(), 0);
    assert_eq!(contract.get_pending_request(), Some((BOB, 100)));
}

#[test]
fn approval_without_pending_request_fails() {
    let mut contract = Raiser::new(ALICE);
    assert_eq!(contract.approve_request(ALICE, true), Err(Error::NoPendingRequest));
}

#[test]
fn transfer_failure_leaves_state_unchanged() {
    let mut contract = Raiser::new(ALICE);
    assert_eq!(contract.set_max_contributors(ALICE, 2), Ok(()));
    assert_eq!(contract.contribute(ALICE, 100), Ok(()));
    assert_eq!(contract.contribute(BOB, 100), Ok(()));
    assert_eq!(contract.request_token(ALICE), Ok(()));

    // The outward transfer failed: the approval reports it and nothing moves.
    assert_eq!(contract.approve_request(ALICE, false), Err(Error::TransferError));
    assert_eq!(contract.get_pending_request(), Some((ALICE, 200)));
    assert_eq!(contract.get_next_requester(), Some(ALICE));
    assert_eq!(contract.get_total_supply(), 200);
    assert_eq!(contract.get_completed_payouts(), 0);
    assert_eq!(contract.get_payout_history().len(), 0);

    // The operator retries once the transfer can succeed.
    assert_eq!(contract.approve_request(ALICE, true), Ok(()));
    assert_eq!(contract.get_completed_payouts(), 1);
    assert_eq!(contract.get_payout_history(), vec![(ALICE, 200)]);
    assert_eq!(contract.get_next_requester(), Some(BOB));
}

#[test]
fn single_contributor_full_cycle() {
    let mut contract = Raiser::new(BOB);
    assert_eq!(contract.set_max_contributors(BOB, 1), Ok(()));
    assert_eq!(contract.contribute(ALICE, 100), Ok(()));
    assert_eq!(contract.get_total_supply(), 100);
    assert_eq!(contract.request_token(ALICE), Ok(()));
    assert_eq!(contract.approve_request(BOB, true), Ok(()));

    // The payout emptied the queue, and with the history covering the whole
    // participant count the rollover fired at once: the per-cycle fields are
    // reset and the cycle counter is 2.
    assert_eq!(contract.get_next_requester(), None);
    assert_eq!(contract.get_contribution_cycle(), 2);
    assert_eq!(contract.get_completed_payouts(), 0);
    assert_eq!(contract.get_payout_history().len(), 0);
    assert_eq!(contract.total_contributors(), 0);
    // The pool total is a running sum; a payout does not reduce it.
    assert_eq!(contract.get_total_supply(), 100);
    // After the rollover the earlier records are gone.
    assert_eq!(contract.balance_of(ALICE), 0);
    assert!(contract.all_paid());
}

#[test]
fn rollover_waits_for_every_payout() {
    let mut contract = Raiser::new(ALICE);
    assert_eq!(contract.set_max_contributors(ALICE, 2), Ok(()));
    assert_eq!(contract.contribute(ALICE, 100), Ok(()));
    assert_eq!(contract.contribute(BOB, 100), Ok(()));

    // Queued identities are unpaid, so the rollover gate stays shut.
    assert!(!contract.all_paid());
    contract.next_contribution_cycle();
    assert_eq!(contract.get_contribution_cycle(), 1);

    assert_eq!(contract.request_token(ALICE), Ok(()));
    assert_eq!(contract.approve_request(ALICE, true), Ok(()));
    assert_eq!(contract.get_contribution_cycle(), 1);
    assert_eq!(contract.get_completed_payouts(), 1);

    // Bob moved to the head; his payout completes the cycle.
    assert_eq!(contract.request_token(BOB), Ok(()));
    assert_eq!(contract.approve_request(ALICE, true), Ok(()));
    assert_eq!(contract.get_contribution_cycle(), 2);
    assert_eq!(contract.get_completed_payouts(), 0);
    assert_eq!(contract.get_payout_history().len(), 0);
    assert_eq!(contract.total_contributors(), 0);
}

#[test]
fn second_request_overwrites_pending() {
    // A second request by the head before approval overwrites the pending
    // slot rather than queueing a second one.
    let mut contract = Raiser::new(ALICE);
    assert_eq!(contract.set_max_contributors(ALICE, 1), Ok(()));
    assert_eq!(contract.contribute(ALICE, 100), Ok(()));
    assert_eq!(contract.request_token(ALICE), Ok(()));
    assert_eq!(contract.request_token(ALICE), Ok(()));
    assert_eq!(contract.get_pending_request(), Some((ALICE, 100)));
}

#[test]
fn fresh_ledger_is_trivially_all_paid() {
    let mut contract = Raiser::new(ALICE);
    assert!(contract.all_paid());
    assert_eq!(contract.contribute(BOB, 100), Ok(()));
    assert!(!contract.all_paid());
}

#[test]
fn events_carry_their_values() {
    // The host environment publishes these after the corresponding
    // operations; the ledger only defines their shape.
    let funds_received = raiser::Transfer {
        from: None,
        to: Some(ALICE),
        value: 100,
    };
    assert_eq!(funds_received.to, Some(ALICE));
    assert_eq!(funds_received.value, 100);
    let allowance = raiser::Approval {
        owner: ALICE,
        spender: BOB,
        value: 50,
    };
    assert_eq!(allowance.owner, ALICE);
    assert_eq!(allowance.spender, BOB);
    assert_eq!(allowance.value, 50);
}
