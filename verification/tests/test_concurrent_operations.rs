//! State consistency of the agreement engine when several parties submit
//! overlapping calls.

use stello_pay::address::Address;
use stello_pay::contract::PayrollContract;
use stello_pay::storage::{AgreementStatus, DisputeStatus, PayrollError};

/// A fresh engine with an owner and an arbiter.
/// Returns `(employer, token, arbiter, contract)`.
fn create_test_env() -> (Address, Address, Address, PayrollContract) {
    let mut contract = PayrollContract::new();
    let owner = Address::new(1);
    contract.initialize(owner).unwrap();
    let arbiter = Address::new(2);
    contract.set_arbiter(owner, arbiter).unwrap();
    let employer = Address::new(3);
    let token = Address::new(4);
    (employer, token, arbiter, contract)
}

/// Creates an escrow agreement, funds its escrow with the committed total
/// and activates it at `now`.
fn setup_funded_escrow(
    contract: &mut PayrollContract,
    employer: Address,
    contributor: Address,
    token: Address,
    amount_per_period: i128,
    period_seconds: u64,
    num_periods: u32,
    now: u64,
) -> u128 {
    let agreement_id = contract
        .create_escrow_agreement(
            employer,
            contributor,
            token,
            amount_per_period,
            period_seconds,
            num_periods,
        )
        .unwrap();
    let total = amount_per_period * (num_periods as i128);
    contract
        .set_agreement_escrow_balance(employer, agreement_id, token, total)
        .unwrap();
    contract.activate_agreement(employer, agreement_id, now).unwrap();
    agreement_id
}

/// Creates a milestone agreement with `num_milestones` milestones of
/// `amount` each.
fn setup_funded_milestone(
    contract: &mut PayrollContract,
    employer: Address,
    contributor: Address,
    token: Address,
    amount: i128,
    num_milestones: u32,
) -> u128 {
    let agreement_id = contract.create_milestone_agreement(employer, contributor, token);
    for _ in 1..=num_milestones {
        contract.add_milestone(employer, agreement_id, amount).unwrap();
    }
    agreement_id
}

#[test]
fn test_payroll_batch_claim_rejected_before_activation() {
    let (employer, token, _arbiter, mut client) = create_test_env();

    let e1 = Address::new(10);
    let e2 = Address::new(11);
    let salary = 1000i128;

    let agreement_id = client.create_payroll_agreement(employer, token, 604800u64);
    client.add_employee_to_agreement(employer, agreement_id, e1, salary).unwrap();
    client.add_employee_to_agreement(employer, agreement_id, e2, salary).unwrap();

    let indices = vec![0u32, 1u32];
    let result = client.batch_claim_payroll(employer, agreement_id, &indices, 0);

    assert_eq!(result, Err(PayrollError::InvalidData));
}

#[test]
fn test_payroll_interleaved_employee_claims() {
    let (employer, token, _arbiter, mut client) = create_test_env();

    let e1 = Address::new(10);
    let e2 = Address::new(11);
    let salary_e1 = 1000i128;
    let salary_e2 = 1500i128;
    let period_s = 86400u64;
    let num_periods = 4u32;
    let mut now = 0u64;

    let agreement_id = client.create_payroll_agreement(employer, token, 604800u64);
    client.add_employee_to_agreement(employer, agreement_id, e1, salary_e1).unwrap();
    client.add_employee_to_agreement(employer, agreement_id, e2, salary_e2).unwrap();

    let id_e1 = setup_funded_escrow(
        &mut client, employer, e1, token, salary_e1, period_s, num_periods, now,
    );
    let id_e2 = setup_funded_escrow(
        &mut client, employer, e2, token, salary_e2, period_s, num_periods, now,
    );

    let mut balance_e1 = 0i128;
    let mut balance_e2 = 0i128;

    now += period_s;
    balance_e1 += client.claim_time_based(e1, id_e1, now).unwrap();
    assert_eq!(client.get_claimed_periods(id_e1), 1u32);
    assert_eq!(client.get_claimed_periods(id_e2), 0u32);

    now += period_s;
    balance_e1 += client.claim_time_based(e1, id_e1, now).unwrap();
    balance_e2 += client.claim_time_based(e2, id_e2, now).unwrap();

    assert_eq!(client.get_claimed_periods(id_e1), 2u32);
    assert_eq!(client.get_claimed_periods(id_e2), 2u32);

    assert_eq!(balance_e1, salary_e1 * 2);
    assert_eq!(balance_e2, salary_e2 * 2);
}

#[test]
fn test_payroll_claims_are_isolated_between_agreements() {
    let (employer, token, _arbiter, mut client) = create_test_env();

    let c1 = Address::new(10);
    let c2 = Address::new(11);
    let period_s = 86400u64;
    let mut now = 0u64;

    let id1 = setup_funded_escrow(&mut client, employer, c1, token, 2000, period_s, 3, now);
    let id2 = setup_funded_escrow(&mut client, employer, c2, token, 3000, period_s, 3, now);

    now += period_s;
    let balance_c1 = client.claim_time_based(c1, id1, now).unwrap();
    let balance_c2 = 0i128;

    assert_eq!(client.get_claimed_periods(id1), 1u32);
    assert_eq!(client.get_claimed_periods(id2), 0u32);

    assert_eq!(balance_c1, 2000);
    assert_eq!(balance_c2, 0);
    assert_eq!(client.get_agreement(id2).unwrap().escrow_balance, 9000);
}

#[test]
fn test_milestone_concurrent_batch_claim_state_consistency() {
    let (employer, token, _arbiter, mut client) = create_test_env();
    let contributor = Address::new(10);

    let agreement_id =
        setup_funded_milestone(&mut client, employer, contributor, token, 1000, 5);

    client.approve_milestone(employer, agreement_id, 1).unwrap();
    client.approve_milestone(employer, agreement_id, 3).unwrap();
    client.approve_milestone(employer, agreement_id, 5).unwrap();

    let ids = vec![1u32, 2u32, 3u32, 6u32, 5u32];
    let res = client.batch_claim_milestones(contributor, agreement_id, &ids).unwrap();

    assert_eq!(res.successful_claims, 3);
    assert_eq!(res.failed_claims, 2);
    assert_eq!(res.total_claimed, 3000);

    assert!(client.get_milestone(agreement_id, 1).unwrap().claimed);
    assert!(!client.get_milestone(agreement_id, 2).unwrap().claimed);
    assert!(client.get_milestone(agreement_id, 3).unwrap().claimed);
    assert!(!client.get_milestone(agreement_id, 4).unwrap().claimed);
    assert!(client.get_milestone(agreement_id, 5).unwrap().claimed);
}

#[test]
fn test_milestone_duplicate_claims_rejected_idempotently() {
    let (employer, token, _arbiter, mut client) = create_test_env();
    let contributor = Address::new(10);

    let agreement_id =
        setup_funded_milestone(&mut client, employer, contributor, token, 500, 3);
    client.approve_milestone(employer, agreement_id, 1).unwrap();
    client.approve_milestone(employer, agreement_id, 2).unwrap();

    let first = client
        .batch_claim_milestones(contributor, agreement_id, &vec![1u32, 2u32])
        .unwrap();
    assert_eq!(first.successful_claims, 2);
    assert_eq!(first.total_claimed, 1000);

    let second = client
        .batch_claim_milestones(contributor, agreement_id, &vec![1u32, 2u32])
        .unwrap();
    assert_eq!(second.successful_claims, 0);
    assert_eq!(second.failed_claims, 2);
    assert_eq!(second.total_claimed, 0);

    client.approve_milestone(employer, agreement_id, 3).unwrap();
    let dedup = client
        .batch_claim_milestones(contributor, agreement_id, &vec![3u32, 3u32])
        .unwrap();
    assert_eq!(dedup.successful_claims, 1);
    assert_eq!(dedup.failed_claims, 1);

    let paid = first.total_claimed + second.total_claimed + dedup.total_claimed;
    assert_eq!(paid, 1500);
}

#[test]
fn test_milestone_auto_complete_on_all_claimed() {
    let (employer, token, _arbiter, mut client) = create_test_env();
    let contributor = Address::new(10);

    let agreement_id =
        setup_funded_milestone(&mut client, employer, contributor, token, 1000, 3);

    client.approve_milestone(employer, agreement_id, 1).unwrap();
    client.approve_milestone(employer, agreement_id, 2).unwrap();
    client.claim_milestone(contributor, agreement_id, 1).unwrap();
    client.claim_milestone(contributor, agreement_id, 2).unwrap();

    let mid_state = client.get_milestone(agreement_id, 3).unwrap();
    assert!(!mid_state.claimed);

    client.approve_milestone(employer, agreement_id, 3).unwrap();
    client.claim_milestone(contributor, agreement_id, 3).unwrap();

    assert!(client.get_milestone(agreement_id, 1).unwrap().claimed);
    assert!(client.get_milestone(agreement_id, 2).unwrap().claimed);
    assert!(client.get_milestone(agreement_id, 3).unwrap().claimed);
}

#[test]
fn test_concurrent_dispute_resolutions() {
    let (employer, token, arbiter, mut client) = create_test_env();
    let contributor = Address::new(10);

    let agreement_id =
        setup_funded_escrow(&mut client, employer, contributor, token, 1000, 86400, 4, 0);

    client.raise_dispute(employer, agreement_id, 0).unwrap();
    assert_eq!(client.get_dispute_status(agreement_id), DisputeStatus::Raised);

    let dup_raise = client.raise_dispute(contributor, agreement_id, 0);
    assert_eq!(dup_raise, Err(PayrollError::DisputeAlreadyRaised));

    let random_user = Address::new(99);
    let unauth_resolve = client.resolve_dispute(random_user, agreement_id, 500, 500);
    assert_eq!(unauth_resolve, Err(PayrollError::NotArbiter));

    client.resolve_dispute(arbiter, agreement_id, 500, 500).unwrap();
    assert_eq!(client.get_dispute_status(agreement_id), DisputeStatus::Resolved);

    let double_resolve = client.resolve_dispute(arbiter, agreement_id, 500, 500);
    assert_eq!(double_resolve, Err(PayrollError::NoDispute));
}

#[test]
fn test_pause_resume_blocks_and_restores_claims() {
    let (employer, token, _arbiter, mut client) = create_test_env();
    let contributor = Address::new(10);

    let agreement_id =
        setup_funded_milestone(&mut client, employer, contributor, token, 1000, 2);
    client.approve_milestone(employer, agreement_id, 1).unwrap();
    client.approve_milestone(employer, agreement_id, 2).unwrap();

    client.pause_agreement(employer, agreement_id).unwrap();

    let blocked = client.claim_milestone(contributor, agreement_id, 1);
    assert!(blocked.is_err());

    assert!(!client.get_milestone(agreement_id, 1).unwrap().claimed);

    client.resume_agreement(employer, agreement_id).unwrap();
    client.claim_milestone(contributor, agreement_id, 1).unwrap();
    assert!(client.get_milestone(agreement_id, 1).unwrap().claimed);

    assert!(!client.get_milestone(agreement_id, 2).unwrap().claimed);
    client.claim_milestone(contributor, agreement_id, 2).unwrap();
    assert!(client.get_milestone(agreement_id, 2).unwrap().claimed);
}

#[test]
fn test_cancel_during_active_period_grace_window() {
    let (employer, token, _arbiter, mut client) = create_test_env();
    let contributor = Address::new(10);

    let period_s = 86400u64;
    let num_periods = 5u32;
    let amount = 1000i128;
    let mut now = 0u64;

    let agreement_id = setup_funded_escrow(
        &mut client, employer, contributor, token, amount, period_s, num_periods, now,
    );

    now += period_s * 2;

    client.cancel_agreement(employer, agreement_id, now).unwrap();

    let cancelled = client.get_agreement(agreement_id).unwrap();
    assert_eq!(cancelled.status, AgreementStatus::Cancelled);

    assert!(client.is_grace_period_active(agreement_id, now));
    let balance = client.claim_time_based(contributor, agreement_id, now).unwrap();
    assert_eq!(client.get_claimed_periods(agreement_id), 2u32);

    assert_eq!(balance, amount * 2);

    let grace_end = client.get_grace_period_end(agreement_id).unwrap();
    now = grace_end + 1;

    assert!(!client.is_grace_period_active(agreement_id, now));

    let late_claim = client.claim_time_based(contributor, agreement_id, now);
    assert_eq!(late_claim, Err(PayrollError::NotInGracePeriod));
}

#[test]
fn test_sequential_agreement_creation_counter_consistency() {
    let (employer, token, _arbiter, mut client) = create_test_env();
    let contributor = Address::new(10);

    let mut payroll_ids: Vec<u128> = Vec::new();
    for _ in 0..10 {
        let id = client.create_payroll_agreement(employer, token, 604800u64);
        payroll_ids.push(id);
    }
    for i in 1..payroll_ids.len() {
        assert!(
            payroll_ids[i] > payroll_ids[i - 1],
            "Payroll IDs not strictly increasing at index {}: {} <= {}",
            i,
            payroll_ids[i],
            payroll_ids[i - 1]
        );
    }

    let mut milestone_ids: Vec<u128> = Vec::new();
    for _ in 0..10 {
        let id = client.create_milestone_agreement(employer, contributor, token);
        milestone_ids.push(id);
    }
    for i in 1..milestone_ids.len() {
        assert!(
            milestone_ids[i] > milestone_ids[i - 1],
            "Milestone IDs not strictly increasing at index {}: {} <= {}",
            i,
            milestone_ids[i],
            milestone_ids[i - 1]
        );
    }
}

#[test]
fn test_high_milestone_count_state_consistency() {
    let (employer, token, _arbiter, mut client) = create_test_env();
    let contributor = Address::new(10);

    let count = 20u32;
    let amount = 500i128;

    let agreement_id =
        setup_funded_milestone(&mut client, employer, contributor, token, amount, count);

    for i in 1..=count {
        client.approve_milestone(employer, agreement_id, i).unwrap();
    }

    let mut id_list: Vec<u32> = Vec::new();
    for i in 1..=count {
        id_list.push(i);
    }

    let res = client.batch_claim_milestones(contributor, agreement_id, &id_list).unwrap();

    assert_eq!(res.successful_claims, count);
    assert_eq!(res.failed_claims, 0);
    assert_eq!(res.total_claimed, amount * (count as i128));

    assert!(client.get_milestone(agreement_id, 1).unwrap().claimed);
    assert!(client.get_milestone(agreement_id, 10).unwrap().claimed);
    assert!(client.get_milestone(agreement_id, 20).unwrap().claimed);
    assert_eq!(
        client.get_agreement(agreement_id).unwrap().status,
        AgreementStatus::Completed
    );
}

#[test]
fn test_separate_agreements_do_not_interfere() {
    let (employer, token, arbiter, mut client) = create_test_env();

    let c1 = Address::new(10);
    let c2 = Address::new(11);

    let id1 = setup_funded_milestone(&mut client, employer, c1, token, 1000, 3);
    client.approve_milestone(employer, id1, 1).unwrap();
    client.approve_milestone(employer, id1, 2).unwrap();
    client.approve_milestone(employer, id1, 3).unwrap();

    let _dummy = client.create_payroll_agreement(employer, token, 604800u64);
    let id2 = setup_funded_escrow(&mut client, employer, c2, token, 2000, 86400, 2, 0);

    let batch1 = client.batch_claim_milestones(c1, id1, &vec![1u32, 2u32]).unwrap();
    assert_eq!(batch1.successful_claims, 2);
    assert_eq!(batch1.total_claimed, 2000);

    assert!(!client.get_milestone(id1, 3).unwrap().claimed);

    client.raise_dispute(employer, id2, 0).unwrap();
    assert_eq!(client.get_dispute_status(id2), DisputeStatus::Raised);

    assert!(client.get_milestone(id1, 1).unwrap().claimed);
    assert!(client.get_milestone(id1, 2).unwrap().claimed);
    assert!(!client.get_milestone(id1, 3).unwrap().claimed);

    client.resolve_dispute(arbiter, id2, 1000, 1000).unwrap();
    assert_eq!(client.get_dispute_status(id2), DisputeStatus::Resolved);

    assert!(!client.get_milestone(id1, 3).unwrap().claimed);
    let batch3 = client.batch_claim_milestones(c1, id1, &vec![3u32]).unwrap();
    assert_eq!(batch3.successful_claims, 1);

    assert_eq!(batch1.total_claimed + batch3.total_claimed, 3000);
}
