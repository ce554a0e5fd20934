//! The rules of the agreement engine on concrete values: every refusal,
//! the accrual formulas, the grace window, completion and isolation.

use stello_pay::address::Address;
use stello_pay::contract::PayrollContract;
use stello_pay::storage::{
    AgreementMode, AgreementStatus, BatchClaimResult, DisputeStatus, Milestone, PayrollError,
    DEFAULT_GRACE_PERIOD_SECONDS,
};

const OWNER: Address = Address { id: 1 };
const ARBITER: Address = Address { id: 2 };
const EMPLOYER: Address = Address { id: 3 };
const TOKEN: Address = Address { id: 4 };
const WORKER: Address = Address { id: 5 };
const STRANGER: Address = Address { id: 6 };
const DAY: u64 = 86400;

fn engine() -> PayrollContract {
    let mut c = PayrollContract::new();
    c.initialize(OWNER).unwrap();
    c.set_arbiter(OWNER, ARBITER).unwrap();
    c
}

fn active_escrow(c: &mut PayrollContract, amount: i128, periods: u32, funds: i128) -> u128 {
    let id = c.create_escrow_agreement(EMPLOYER, WORKER, TOKEN, amount, DAY, periods).unwrap();
    c.set_agreement_escrow_balance(EMPLOYER, id, TOKEN, funds).unwrap();
    c.activate_agreement(EMPLOYER, id, 0).unwrap();
    id
}

fn active_payroll(c: &mut PayrollContract, salary: i128, funds: i128) -> u128 {
    let id = c.create_payroll_agreement(EMPLOYER, TOKEN, 1000);
    c.add_employee_to_agreement(EMPLOYER, id, WORKER, salary).unwrap();
    c.set_agreement_period_duration(EMPLOYER, id, DAY).unwrap();
    c.set_agreement_escrow_balance(EMPLOYER, id, TOKEN, funds).unwrap();
    c.activate_agreement(EMPLOYER, id, 0).unwrap();
    id
}

#[test]
fn a_new_engine_is_empty() {
    let c = PayrollContract::new();
    assert_eq!(c.get_owner(), None);
    assert_eq!(c.get_arbiter(), None);
    assert_eq!(c.get_agreement(1), None);
    assert_eq!(c.get_milestone(1, 1), None);
    assert_eq!(c.get_dispute_status(1), DisputeStatus::NoDispute);
    assert_eq!(c.get_claimed_periods(1), 0);
    assert_eq!(c.get_employee_claimed_periods(1, 0), 0);
    assert!(c.get_agreement_employees(1).is_empty());
    assert!(!c.is_grace_period_active(1, 0));
    assert_eq!(c.get_grace_period_end(1), None);
}

#[test]
fn the_owner_is_set_once() {
    let mut c = PayrollContract::new();
    assert_eq!(c.set_arbiter(OWNER, ARBITER), Err(PayrollError::NotInitialized));
    assert_eq!(c.initialize(OWNER), Ok(()));
    assert_eq!(c.get_owner(), Some(OWNER));
    assert_eq!(c.initialize(STRANGER), Err(PayrollError::AlreadyInitialized));
    assert_eq!(c.get_owner(), Some(OWNER));
}

#[test]
fn the_arbiter_is_set_once_by_the_owner() {
    let mut c = PayrollContract::new();
    c.initialize(OWNER).unwrap();
    assert_eq!(c.set_arbiter(STRANGER, ARBITER), Err(PayrollError::NotAuthorized));
    assert_eq!(c.get_arbiter(), None);
    assert_eq!(c.set_arbiter(OWNER, ARBITER), Ok(()));
    assert_eq!(c.get_arbiter(), Some(ARBITER));
    assert_eq!(c.set_arbiter(OWNER, STRANGER), Err(PayrollError::InvalidData));
    assert_eq!(c.get_arbiter(), Some(ARBITER));
}

#[test]
fn the_two_id_sequences_are_independent_and_start_at_one() {
    let mut c = engine();
    assert_eq!(c.create_payroll_agreement(EMPLOYER, TOKEN, 10), 1);
    assert_eq!(c.create_escrow_agreement(EMPLOYER, WORKER, TOKEN, 5, 7, 3), Ok(2));
    assert_eq!(c.create_milestone_agreement(EMPLOYER, WORKER, TOKEN), 1);
    assert_eq!(c.create_milestone_agreement(EMPLOYER, WORKER, TOKEN), 2);
    assert_eq!(c.create_payroll_agreement(EMPLOYER, TOKEN, 10), 3);
    assert_eq!(c.get_agreement(1).unwrap().mode, AgreementMode::Payroll);
    assert_eq!(c.get_agreement(2).unwrap().mode, AgreementMode::Escrow);
    assert_eq!(c.get_agreement(3).unwrap().mode, AgreementMode::Payroll);
}

#[test]
fn an_id_of_both_sequences_finds_the_payroll_or_escrow_agreement() {
    let mut c = engine();
    let milestone_only = c.create_milestone_agreement(EMPLOYER, WORKER, TOKEN);
    assert_eq!(c.get_agreement(milestone_only).unwrap().mode, AgreementMode::Milestone);
    let shared = c.create_payroll_agreement(EMPLOYER, TOKEN, 10);
    assert_eq!(shared, milestone_only);
    assert_eq!(c.get_agreement(shared).unwrap().mode, AgreementMode::Payroll);
    assert_eq!(c.add_milestone(EMPLOYER, milestone_only, 10), Ok(1));
    assert_eq!(c.get_milestone(milestone_only, 1).unwrap().amount, 10);
}

#[test]
fn a_created_escrow_agreement_holds_its_terms() {
    let mut c = engine();
    let id = c.create_escrow_agreement(EMPLOYER, WORKER, TOKEN, 1000, DAY, 4).unwrap();
    let a = c.get_agreement(id).unwrap();
    assert_eq!(a.id, id);
    assert_eq!(a.employer, EMPLOYER);
    assert_eq!(a.contributor, Some(WORKER));
    assert_eq!(a.token, TOKEN);
    assert_eq!(a.mode, AgreementMode::Escrow);
    assert_eq!(a.status, AgreementStatus::Created);
    assert_eq!(a.grace_period_seconds, DEFAULT_GRACE_PERIOD_SECONDS);
    assert_eq!(a.grace_period_seconds, 604800);
    assert_eq!(a.activated_at, None);
    assert_eq!(a.cancelled_at, None);
    assert_eq!(a.period_duration, DAY);
    assert_eq!(a.escrow_balance, 0);
    assert_eq!(c.get_claimed_periods(id), 0);
}

#[test]
fn escrow_terms_must_be_positive_and_fit() {
    let mut c = engine();
    assert_eq!(
        c.create_escrow_agreement(EMPLOYER, WORKER, TOKEN, 0, DAY, 4),
        Err(PayrollError::InvalidAmount)
    );
    assert_eq!(
        c.create_escrow_agreement(EMPLOYER, WORKER, TOKEN, -1, DAY, 4),
        Err(PayrollError::InvalidAmount)
    );
    assert_eq!(
        c.create_escrow_agreement(EMPLOYER, WORKER, TOKEN, 1000, 0, 4),
        Err(PayrollError::InvalidAmount)
    );
    assert_eq!(
        c.create_escrow_agreement(EMPLOYER, WORKER, TOKEN, 1000, DAY, 0),
        Err(PayrollError::InvalidAmount)
    );
    assert_eq!(
        c.create_escrow_agreement(EMPLOYER, WORKER, TOKEN, i128::MAX, DAY, 2),
        Err(PayrollError::Overflow)
    );
    assert_eq!(c.get_agreement(1), None);
    assert_eq!(c.create_escrow_agreement(EMPLOYER, WORKER, TOKEN, i128::MAX, DAY, 1), Ok(1));
}

#[test]
fn a_milestone_agreement_is_active_from_the_start() {
    let mut c = engine();
    let id = c.create_milestone_agreement(EMPLOYER, WORKER, TOKEN);
    let a = c.get_agreement(id).unwrap();
    assert_eq!(a.status, AgreementStatus::Active);
    assert_eq!(a.mode, AgreementMode::Milestone);
    assert_eq!(a.contributor, Some(WORKER));
    assert_eq!(c.activate_agreement(EMPLOYER, id, 5), Err(PayrollError::InvalidData));
}

#[test]
fn employees_are_enrolled_in_order_while_the_agreement_is_created() {
    let mut c = engine();
    let id = c.create_payroll_agreement(EMPLOYER, TOKEN, 10);
    assert_eq!(c.add_employee_to_agreement(EMPLOYER, id, WORKER, 100), Ok(0));
    assert_eq!(c.add_employee_to_agreement(EMPLOYER, id, STRANGER, 200), Ok(1));
    assert_eq!(c.get_agreement_employees(id), vec![WORKER, STRANGER]);
    assert_eq!(
        c.add_employee_to_agreement(STRANGER, id, WORKER, 100),
        Err(PayrollError::NotAuthorized)
    );
    assert_eq!(
        c.add_employee_to_agreement(EMPLOYER, id, WORKER, 0),
        Err(PayrollError::InvalidAmount)
    );
    assert_eq!(
        c.add_employee_to_agreement(EMPLOYER, 9, WORKER, 100),
        Err(PayrollError::AgreementNotFound)
    );
    let escrow = c.create_escrow_agreement(EMPLOYER, WORKER, TOKEN, 5, 7, 3).unwrap();
    assert_eq!(
        c.add_employee_to_agreement(EMPLOYER, escrow, WORKER, 100),
        Err(PayrollError::InvalidData)
    );
    c.activate_agreement(EMPLOYER, id, 0).unwrap();
    assert_eq!(
        c.add_employee_to_agreement(EMPLOYER, id, WORKER, 100),
        Err(PayrollError::InvalidData)
    );
    assert_eq!(c.get_agreement_employees(id).len(), 2);
}

#[test]
fn the_life_of_an_agreement_follows_its_paths() {
    let mut c = engine();
    let id = c.create_payroll_agreement(EMPLOYER, TOKEN, 10);
    assert_eq!(c.pause_agreement(EMPLOYER, id), Err(PayrollError::InvalidData));
    assert_eq!(c.resume_agreement(EMPLOYER, id), Err(PayrollError::InvalidData));
    assert_eq!(c.cancel_agreement(EMPLOYER, id, 1), Err(PayrollError::InvalidData));
    assert_eq!(c.activate_agreement(STRANGER, id, 1), Err(PayrollError::NotAuthorized));
    assert_eq!(c.activate_agreement(EMPLOYER, id, 7), Ok(()));
    assert_eq!(c.get_agreement(id).unwrap().activated_at, Some(7));
    assert_eq!(c.activate_agreement(EMPLOYER, id, 9), Err(PayrollError::InvalidData));
    assert_eq!(c.get_agreement(id).unwrap().activated_at, Some(7));
    assert_eq!(c.resume_agreement(EMPLOYER, id), Err(PayrollError::InvalidData));
    assert_eq!(c.pause_agreement(STRANGER, id), Err(PayrollError::NotAuthorized));
    assert_eq!(c.pause_agreement(EMPLOYER, id), Ok(()));
    assert_eq!(c.get_agreement(id).unwrap().status, AgreementStatus::Paused);
    assert_eq!(c.pause_agreement(EMPLOYER, id), Err(PayrollError::InvalidData));
    assert_eq!(c.resume_agreement(STRANGER, id), Err(PayrollError::NotAuthorized));
    assert_eq!(c.resume_agreement(EMPLOYER, id), Ok(()));
    assert_eq!(c.get_agreement(id).unwrap().status, AgreementStatus::Active);
    assert_eq!(c.cancel_agreement(STRANGER, id, 20), Err(PayrollError::NotAuthorized));
    assert_eq!(c.cancel_agreement(EMPLOYER, id, 20), Ok(()));
    let a = c.get_agreement(id).unwrap();
    assert_eq!(a.status, AgreementStatus::Cancelled);
    assert_eq!(a.cancelled_at, Some(20));
    assert_eq!(c.cancel_agreement(EMPLOYER, id, 30), Err(PayrollError::InvalidData));
    assert_eq!(c.pause_agreement(EMPLOYER, id), Err(PayrollError::InvalidData));
    assert_eq!(c.resume_agreement(EMPLOYER, id), Err(PayrollError::InvalidData));
    assert_eq!(c.activate_agreement(EMPLOYER, id, 30), Err(PayrollError::InvalidData));
    assert_eq!(c.get_agreement(id).unwrap().cancelled_at, Some(20));
}

#[test]
fn calls_on_a_missing_agreement_are_refused() {
    let mut c = engine();
    assert_eq!(c.activate_agreement(EMPLOYER, 1, 0), Err(PayrollError::AgreementNotFound));
    assert_eq!(c.pause_agreement(EMPLOYER, 1), Err(PayrollError::AgreementNotFound));
    assert_eq!(c.resume_agreement(EMPLOYER, 1), Err(PayrollError::AgreementNotFound));
    assert_eq!(c.cancel_agreement(EMPLOYER, 1, 0), Err(PayrollError::AgreementNotFound));
    assert_eq!(c.claim_payroll(WORKER, 1, 0, 0), Err(PayrollError::AgreementNotFound));
    assert_eq!(
        c.batch_claim_payroll(WORKER, 1, &vec![0], 0),
        Err(PayrollError::AgreementNotFound)
    );
    assert_eq!(c.claim_time_based(WORKER, 1, 0), Err(PayrollError::AgreementNotFound));
    assert_eq!(c.add_milestone(EMPLOYER, 1, 5), Err(PayrollError::AgreementNotFound));
    assert_eq!(c.approve_milestone(EMPLOYER, 1, 1), Err(PayrollError::AgreementNotFound));
    assert_eq!(c.claim_milestone(WORKER, 1, 1), Err(PayrollError::AgreementNotFound));
    assert_eq!(
        c.batch_claim_milestones(WORKER, 1, &vec![1]),
        Err(PayrollError::AgreementNotFound)
    );
    assert_eq!(c.raise_dispute(EMPLOYER, 1, 0), Err(PayrollError::AgreementNotFound));
    assert_eq!(c.resolve_dispute(ARBITER, 1, 0, 0), Err(PayrollError::AgreementNotFound));
    assert_eq!(
        c.set_agreement_escrow_balance(EMPLOYER, 1, TOKEN, 5),
        Err(PayrollError::AgreementNotFound)
    );
    assert_eq!(
        c.set_agreement_period_duration(EMPLOYER, 0, 5),
        Err(PayrollError::AgreementNotFound)
    );
}

#[test]
fn the_escrow_balance_and_the_pay_period_are_set_by_the_employer() {
    let mut c = engine();
    let id = c.create_payroll_agreement(EMPLOYER, TOKEN, 10);
    assert_eq!(
        c.set_agreement_escrow_balance(STRANGER, id, TOKEN, 5),
        Err(PayrollError::NotAuthorized)
    );
    assert_eq!(
        c.set_agreement_escrow_balance(EMPLOYER, id, STRANGER, 5),
        Err(PayrollError::InvalidData)
    );
    assert_eq!(
        c.set_agreement_escrow_balance(EMPLOYER, id, TOKEN, -1),
        Err(PayrollError::InvalidAmount)
    );
    assert_eq!(c.set_agreement_escrow_balance(EMPLOYER, id, TOKEN, 5), Ok(()));
    assert_eq!(c.get_agreement(id).unwrap().escrow_balance, 5);
    assert_eq!(
        c.set_agreement_period_duration(STRANGER, id, 60),
        Err(PayrollError::NotAuthorized)
    );
    assert_eq!(c.set_agreement_period_duration(EMPLOYER, id, 0), Err(PayrollError::InvalidAmount));
    assert_eq!(c.set_agreement_period_duration(EMPLOYER, id, 60), Ok(()));
    assert_eq!(c.get_agreement(id).unwrap().period_duration, 60);
    let escrow = c.create_escrow_agreement(EMPLOYER, WORKER, TOKEN, 5, 7, 3).unwrap();
    assert_eq!(
        c.set_agreement_period_duration(EMPLOYER, escrow, 60),
        Err(PayrollError::InvalidData)
    );
}

#[test]
fn payroll_pays_the_salary_for_each_whole_period() {
    let mut c = engine();
    let id = active_payroll(&mut c, 1000, 10000);
    assert_eq!(c.claim_payroll(WORKER, id, 0, DAY - 1), Err(PayrollError::NoPeriodsToClaim));
    assert_eq!(c.claim_payroll(WORKER, id, 0, 3 * DAY + 5), Ok(3000));
    assert_eq!(c.get_employee_claimed_periods(id, 0), 3);
    assert_eq!(c.get_agreement(id).unwrap().escrow_balance, 7000);
    assert_eq!(c.claim_payroll(WORKER, id, 0, 4 * DAY - 1), Err(PayrollError::NoPeriodsToClaim));
    assert_eq!(c.claim_payroll(WORKER, id, 0, 5 * DAY), Ok(2000));
    assert_eq!(c.get_employee_claimed_periods(id, 0), 5);
    assert_eq!(c.get_agreement(id).unwrap().escrow_balance, 5000);
}

#[test]
fn payroll_claims_are_refused_in_the_stated_order() {
    let mut c = engine();
    let id = c.create_payroll_agreement(EMPLOYER, TOKEN, 1000);
    c.add_employee_to_agreement(EMPLOYER, id, WORKER, 1000).unwrap();
    assert_eq!(c.claim_payroll(WORKER, id, 0, DAY), Err(PayrollError::InvalidData));
    assert_eq!(c.claim_payroll(STRANGER, id, 7, DAY), Err(PayrollError::InvalidData));
    c.activate_agreement(EMPLOYER, id, 0).unwrap();
    assert_eq!(c.claim_payroll(WORKER, id, 1, DAY), Err(PayrollError::InvalidEmployeeIndex));
    assert_eq!(c.claim_payroll(STRANGER, id, 0, DAY), Err(PayrollError::NotAuthorized));
    assert_eq!(c.claim_payroll(WORKER, id, 0, DAY), Err(PayrollError::NoPeriodsToClaim));
    c.set_agreement_period_duration(EMPLOYER, id, DAY).unwrap();
    assert_eq!(c.claim_payroll(WORKER, id, 0, DAY), Err(PayrollError::InsufficientFunds));
    c.set_agreement_escrow_balance(EMPLOYER, id, TOKEN, 999).unwrap();
    assert_eq!(c.claim_payroll(WORKER, id, 0, DAY), Err(PayrollError::InsufficientFunds));
    c.pause_agreement(EMPLOYER, id).unwrap();
    assert_eq!(c.claim_payroll(WORKER, id, 0, DAY), Err(PayrollError::InvalidData));
    c.resume_agreement(EMPLOYER, id).unwrap();
    c.set_agreement_escrow_balance(EMPLOYER, id, TOKEN, 1000).unwrap();
    assert_eq!(c.claim_payroll(WORKER, id, 0, DAY), Ok(1000));
    assert_eq!(c.get_agreement(id).unwrap().escrow_balance, 0);
    let escrow = active_escrow(&mut c, 10, 3, 30);
    assert_eq!(c.claim_payroll(WORKER, escrow, 0, DAY), Err(PayrollError::InvalidData));
}

#[test]
fn payroll_amounts_and_counters_that_leave_their_range_are_refused() {
    let mut c = engine();
    let id = active_payroll(&mut c, i128::MAX, i128::MAX);
    assert_eq!(c.claim_payroll(WORKER, id, 0, 2 * DAY), Err(PayrollError::Overflow));
    assert_eq!(c.get_employee_claimed_periods(id, 0), 0);
    assert_eq!(c.claim_payroll(WORKER, id, 0, DAY), Ok(i128::MAX));
    let fast = c.create_payroll_agreement(EMPLOYER, TOKEN, 1000);
    c.add_employee_to_agreement(EMPLOYER, fast, WORKER, 1).unwrap();
    c.set_agreement_period_duration(EMPLOYER, fast, 1).unwrap();
    c.set_agreement_escrow_balance(EMPLOYER, fast, TOKEN, i128::MAX).unwrap();
    c.activate_agreement(EMPLOYER, fast, 0).unwrap();
    assert_eq!(c.claim_payroll(WORKER, fast, 0, 4294967296), Err(PayrollError::Overflow));
    assert_eq!(c.claim_payroll(WORKER, fast, 0, 4294967295), Ok(4294967295));
    assert_eq!(c.get_employee_claimed_periods(fast, 0), u32::MAX);
}

#[test]
fn a_payroll_batch_counts_what_it_pays_and_what_it_refuses() {
    let mut c = engine();
    let id = c.create_payroll_agreement(EMPLOYER, TOKEN, 1000);
    c.add_employee_to_agreement(EMPLOYER, id, WORKER, 100).unwrap();
    c.add_employee_to_agreement(EMPLOYER, id, STRANGER, 200).unwrap();
    c.add_employee_to_agreement(EMPLOYER, id, WORKER, 300).unwrap();
    c.set_agreement_period_duration(EMPLOYER, id, DAY).unwrap();
    c.set_agreement_escrow_balance(EMPLOYER, id, TOKEN, 900).unwrap();
    c.activate_agreement(EMPLOYER, id, 0).unwrap();
    let report = c.batch_claim_payroll(WORKER, id, &vec![0, 1, 2, 0, 9], 2 * DAY).unwrap();
    assert_eq!(
        report,
        BatchClaimResult { successful_claims: 2, failed_claims: 3, total_claimed: 800 }
    );
    assert_eq!(c.get_employee_claimed_periods(id, 0), 2);
    assert_eq!(c.get_employee_claimed_periods(id, 1), 0);
    assert_eq!(c.get_employee_claimed_periods(id, 2), 2);
    assert_eq!(c.get_agreement(id).unwrap().escrow_balance, 100);
    let again = c.batch_claim_payroll(WORKER, id, &vec![0, 2], 3 * DAY).unwrap();
    assert_eq!(
        again,
        BatchClaimResult { successful_claims: 1, failed_claims: 1, total_claimed: 100 }
    );
    let empty = c.batch_claim_payroll(WORKER, id, &Vec::new(), 3 * DAY).unwrap();
    assert_eq!(empty, BatchClaimResult { successful_claims: 0, failed_claims: 0, total_claimed: 0 });
}

#[test]
fn escrow_pays_one_period_and_nothing_on_repeat() {
    let mut c = engine();
    let id = active_escrow(&mut c, 1000, 4, 4000);
    assert_eq!(c.claim_time_based(WORKER, id, DAY), Ok(1000));
    assert_eq!(c.get_claimed_periods(id), 1);
    assert_eq!(c.claim_time_based(WORKER, id, DAY), Err(PayrollError::NoPeriodsToClaim));
    assert_eq!(c.get_claimed_periods(id), 1);
    assert_eq!(c.get_agreement(id).unwrap().escrow_balance, 3000);
}

#[test]
fn escrow_accrual_stops_at_the_number_of_periods_and_completes() {
    let mut c = engine();
    let id = active_escrow(&mut c, 1000, 4, 4000);
    assert_eq!(c.claim_time_based(WORKER, id, DAY - 1), Err(PayrollError::NoPeriodsToClaim));
    assert_eq!(c.claim_time_based(WORKER, id, 2 * DAY + 100), Ok(2000));
    assert_eq!(c.get_agreement(id).unwrap().status, AgreementStatus::Active);
    assert_eq!(c.claim_time_based(WORKER, id, 100 * DAY), Ok(2000));
    assert_eq!(c.get_claimed_periods(id), 4);
    let a = c.get_agreement(id).unwrap();
    assert_eq!(a.status, AgreementStatus::Completed);
    assert_eq!(a.escrow_balance, 0);
    assert_eq!(c.claim_time_based(WORKER, id, 200 * DAY), Err(PayrollError::InvalidData));
    assert_eq!(c.cancel_agreement(EMPLOYER, id, 200 * DAY), Err(PayrollError::InvalidData));
}

#[test]
fn escrow_claims_are_refused_in_the_stated_order() {
    let mut c = engine();
    let id = c.create_escrow_agreement(EMPLOYER, WORKER, TOKEN, 1000, DAY, 4).unwrap();
    assert_eq!(c.claim_time_based(STRANGER, id, DAY), Err(PayrollError::NotAuthorized));
    assert_eq!(c.claim_time_based(EMPLOYER, id, DAY), Err(PayrollError::NotAuthorized));
    assert_eq!(c.claim_time_based(WORKER, id, DAY), Err(PayrollError::InvalidData));
    c.activate_agreement(EMPLOYER, id, 10).unwrap();
    assert_eq!(c.claim_time_based(WORKER, id, 5), Err(PayrollError::NoPeriodsToClaim));
    assert_eq!(c.claim_time_based(WORKER, id, DAY + 9), Err(PayrollError::NoPeriodsToClaim));
    assert_eq!(c.claim_time_based(WORKER, id, DAY + 10), Err(PayrollError::InsufficientFunds));
    c.set_agreement_escrow_balance(EMPLOYER, id, TOKEN, 1000).unwrap();
    c.pause_agreement(EMPLOYER, id).unwrap();
    assert_eq!(c.claim_time_based(WORKER, id, DAY + 10), Err(PayrollError::InvalidData));
    c.resume_agreement(EMPLOYER, id).unwrap();
    assert_eq!(c.claim_time_based(WORKER, id, 2 * DAY + 10), Err(PayrollError::InsufficientFunds));
    assert_eq!(c.claim_time_based(WORKER, id, DAY + 10), Ok(1000));
    let payroll = active_payroll(&mut c, 10, 100);
    assert_eq!(c.claim_time_based(WORKER, payroll, DAY), Err(PayrollError::InvalidData));
}

#[test]
fn a_cancelled_escrow_pays_what_was_earned_until_the_grace_window_closes() {
    let mut c = engine();
    let id = active_escrow(&mut c, 1000, 5, 5000);
    let cancelled_at = 2 * DAY + 500;
    c.cancel_agreement(EMPLOYER, id, cancelled_at).unwrap();
    let end = cancelled_at + DEFAULT_GRACE_PERIOD_SECONDS;
    assert_eq!(c.get_grace_period_end(id), Some(end));
    assert!(c.is_grace_period_active(id, cancelled_at));
    assert!(c.is_grace_period_active(id, end));
    assert!(!c.is_grace_period_active(id, end + 1));
    assert_eq!(c.claim_time_based(WORKER, id, end + 1), Err(PayrollError::NotInGracePeriod));
    assert_eq!(c.claim_time_based(WORKER, id, end), Ok(2000));
    assert_eq!(c.get_claimed_periods(id), 2);
    assert_eq!(c.get_agreement(id).unwrap().status, AgreementStatus::Cancelled);
    assert_eq!(c.claim_time_based(WORKER, id, end), Err(PayrollError::NoPeriodsToClaim));
    assert_eq!(c.claim_time_based(WORKER, id, end + 1), Err(PayrollError::NotInGracePeriod));
}

#[test]
fn the_grace_window_of_a_payroll_agreement_is_the_one_it_was_created_with() {
    let mut c = engine();
    let id = c.create_payroll_agreement(EMPLOYER, TOKEN, 50);
    assert_eq!(c.get_grace_period_end(id), None);
    assert!(!c.is_grace_period_active(id, 0));
    c.activate_agreement(EMPLOYER, id, 0).unwrap();
    assert_eq!(c.get_grace_period_end(id), None);
    c.cancel_agreement(EMPLOYER, id, 100).unwrap();
    assert_eq!(c.get_grace_period_end(id), Some(150));
    assert!(c.is_grace_period_active(id, 150));
    assert!(!c.is_grace_period_active(id, 151));
    let late = c.create_payroll_agreement(EMPLOYER, TOKEN, u64::MAX);
    c.activate_agreement(EMPLOYER, late, 0).unwrap();
    c.cancel_agreement(EMPLOYER, late, 100).unwrap();
    assert_eq!(c.get_grace_period_end(late), Some(u64::MAX));
    assert!(c.is_grace_period_active(late, u64::MAX));
}

#[test]
fn milestones_are_numbered_from_one_and_start_unapproved() {
    let mut c = engine();
    let id = c.create_milestone_agreement(EMPLOYER, WORKER, TOKEN);
    assert_eq!(c.add_milestone(EMPLOYER, id, 700), Ok(1));
    assert_eq!(c.add_milestone(EMPLOYER, id, 300), Ok(2));
    assert_eq!(
        c.get_milestone(id, 1),
        Some(Milestone { id: 1, amount: 700, approved: false, claimed: false })
    );
    assert_eq!(
        c.get_milestone(id, 2),
        Some(Milestone { id: 2, amount: 300, approved: false, claimed: false })
    );
    assert_eq!(c.get_milestone(id, 0), None);
    assert_eq!(c.get_milestone(id, 3), None);
    assert_eq!(c.add_milestone(STRANGER, id, 5), Err(PayrollError::NotAuthorized));
    assert_eq!(c.add_milestone(EMPLOYER, id, 0), Err(PayrollError::InvalidAmount));
    assert_eq!(c.add_milestone(EMPLOYER, id, -5), Err(PayrollError::InvalidAmount));
    assert_eq!(c.add_milestone(EMPLOYER, id, i128::MAX - 999), Err(PayrollError::Overflow));
    assert_eq!(c.add_milestone(EMPLOYER, id, i128::MAX - 1000), Ok(3));
}

#[test]
fn approval_is_by_the_employer_and_can_be_repeated() {
    let mut c = engine();
    let id = c.create_milestone_agreement(EMPLOYER, WORKER, TOKEN);
    c.add_milestone(EMPLOYER, id, 700).unwrap();
    assert_eq!(c.approve_milestone(WORKER, id, 1), Err(PayrollError::NotAuthorized));
    assert_eq!(c.approve_milestone(EMPLOYER, id, 0), Err(PayrollError::InvalidMilestoneId));
    assert_eq!(c.approve_milestone(EMPLOYER, id, 2), Err(PayrollError::InvalidMilestoneId));
    assert_eq!(c.approve_milestone(EMPLOYER, id, 1), Ok(()));
    assert!(c.get_milestone(id, 1).unwrap().approved);
    assert_eq!(c.approve_milestone(EMPLOYER, id, 1), Ok(()));
    assert!(c.get_milestone(id, 1).unwrap().approved);
    assert!(!c.get_milestone(id, 1).unwrap().claimed);
}

#[test]
fn a_milestone_is_paid_once() {
    let mut c = engine();
    let id = c.create_milestone_agreement(EMPLOYER, WORKER, TOKEN);
    c.add_milestone(EMPLOYER, id, 700).unwrap();
    c.add_milestone(EMPLOYER, id, 300).unwrap();
    assert_eq!(c.claim_milestone(STRANGER, id, 1), Err(PayrollError::NotAuthorized));
    assert_eq!(c.claim_milestone(WORKER, id, 0), Err(PayrollError::InvalidMilestoneId));
    assert_eq!(c.claim_milestone(WORKER, id, 3), Err(PayrollError::InvalidMilestoneId));
    assert_eq!(c.claim_milestone(WORKER, id, 1), Err(PayrollError::NotApproved));
    c.approve_milestone(EMPLOYER, id, 1).unwrap();
    assert_eq!(c.claim_milestone(WORKER, id, 1), Ok(700));
    assert_eq!(c.claim_milestone(WORKER, id, 1), Err(PayrollError::AlreadyClaimed));
    assert_eq!(c.get_agreement(id).unwrap().status, AgreementStatus::Active);
    let batch = c.batch_claim_milestones(WORKER, id, &vec![1, 1, 1]).unwrap();
    assert_eq!(batch, BatchClaimResult { successful_claims: 0, failed_claims: 3, total_claimed: 0 });
    assert_eq!(
        c.get_milestone(id, 1),
        Some(Milestone { id: 1, amount: 700, approved: true, claimed: true })
    );
}

#[test]
fn a_batch_pays_approved_milestones_and_counts_the_rest() {
    let mut c = engine();
    let id = c.create_milestone_agreement(EMPLOYER, WORKER, TOKEN);
    for _ in 0..5 {
        c.add_milestone(EMPLOYER, id, 1000).unwrap();
    }
    for m in [1u32, 3, 5] {
        c.approve_milestone(EMPLOYER, id, m).unwrap();
    }
    let first = c.batch_claim_milestones(WORKER, id, &vec![1, 2, 3, 6, 5]).unwrap();
    assert_eq!(
        first,
        BatchClaimResult { successful_claims: 3, failed_claims: 2, total_claimed: 3000 }
    );
    assert!(!c.get_milestone(id, 2).unwrap().claimed);
    assert!(!c.get_milestone(id, 4).unwrap().claimed);
    let second = c.batch_claim_milestones(WORKER, id, &vec![1, 2]).unwrap();
    assert_eq!(
        second,
        BatchClaimResult { successful_claims: 0, failed_claims: 2, total_claimed: 0 }
    );
    let replay = c.batch_claim_milestones(WORKER, id, &vec![1, 2, 3, 6, 5]).unwrap();
    assert_eq!(
        replay,
        BatchClaimResult { successful_claims: 0, failed_claims: 5, total_claimed: 0 }
    );
    assert_eq!(c.get_agreement(id).unwrap().status, AgreementStatus::Active);
}

#[test]
fn a_batch_is_refused_as_a_whole_when_the_agreement_does_not_permit_claims() {
    let mut c = engine();
    let id = c.create_milestone_agreement(EMPLOYER, WORKER, TOKEN);
    c.add_milestone(EMPLOYER, id, 1000).unwrap();
    c.approve_milestone(EMPLOYER, id, 1).unwrap();
    assert_eq!(
        c.batch_claim_milestones(STRANGER, id, &vec![1]),
        Err(PayrollError::NotAuthorized)
    );
    c.pause_agreement(EMPLOYER, id).unwrap();
    assert_eq!(c.batch_claim_milestones(WORKER, id, &vec![1]), Err(PayrollError::InvalidData));
    assert_eq!(c.claim_milestone(WORKER, id, 1), Err(PayrollError::InvalidData));
    c.cancel_agreement(EMPLOYER, id, 5).unwrap();
    assert_eq!(c.batch_claim_milestones(WORKER, id, &vec![1]), Err(PayrollError::InvalidData));
    assert_eq!(c.claim_milestone(WORKER, id, 1), Err(PayrollError::InvalidData));
    assert!(!c.get_milestone(id, 1).unwrap().claimed);
}

#[test]
fn a_milestone_agreement_completes_with_its_last_payment_and_not_before() {
    let mut c = engine();
    let id = c.create_milestone_agreement(EMPLOYER, WORKER, TOKEN);
    for _ in 0..3 {
        c.add_milestone(EMPLOYER, id, 10).unwrap();
    }
    for m in 1..=3u32 {
        c.approve_milestone(EMPLOYER, id, m).unwrap();
    }
    c.claim_milestone(WORKER, id, 2).unwrap();
    assert_eq!(c.get_agreement(id).unwrap().status, AgreementStatus::Active);
    c.batch_claim_milestones(WORKER, id, &vec![3]).unwrap();
    assert_eq!(c.get_agreement(id).unwrap().status, AgreementStatus::Active);
    c.claim_milestone(WORKER, id, 1).unwrap();
    assert_eq!(c.get_agreement(id).unwrap().status, AgreementStatus::Completed);
    let by_batch = c.create_milestone_agreement(EMPLOYER, WORKER, TOKEN);
    c.add_milestone(EMPLOYER, by_batch, 10).unwrap();
    c.add_milestone(EMPLOYER, by_batch, 20).unwrap();
    c.approve_milestone(EMPLOYER, by_batch, 1).unwrap();
    c.approve_milestone(EMPLOYER, by_batch, 2).unwrap();
    let report = c.batch_claim_milestones(WORKER, by_batch, &vec![2, 1]).unwrap();
    assert_eq!(report.total_claimed, 30);
    assert_eq!(c.get_agreement(by_batch).unwrap().status, AgreementStatus::Completed);
}

#[test]
fn a_dispute_is_raised_by_a_party_and_once() {
    let mut c = engine();
    let id = active_escrow(&mut c, 1000, 4, 4000);
    assert_eq!(c.get_dispute_status(id), DisputeStatus::NoDispute);
    assert_eq!(c.raise_dispute(STRANGER, id, 5), Err(PayrollError::NotAuthorized));
    assert_eq!(c.raise_dispute(WORKER, id, 5), Ok(()));
    assert_eq!(c.get_dispute_status(id), DisputeStatus::Raised);
    assert_eq!(c.raise_dispute(EMPLOYER, id, 6), Err(PayrollError::DisputeAlreadyRaised));
    assert_eq!(c.raise_dispute(WORKER, id, 6), Err(PayrollError::DisputeAlreadyRaised));
    let payroll = active_payroll(&mut c, 10, 100);
    assert_eq!(c.raise_dispute(WORKER, payroll, 5), Ok(()));
    assert_eq!(c.get_dispute_status(payroll), DisputeStatus::Raised);
}

#[test]
fn a_dispute_is_settled_by_the_arbiter_and_once() {
    let mut c = engine();
    let id = active_escrow(&mut c, 1000, 4, 4000);
    assert_eq!(c.resolve_dispute(ARBITER, id, 1, 1), Err(PayrollError::NoDispute));
    c.raise_dispute(EMPLOYER, id, 5).unwrap();
    assert_eq!(c.resolve_dispute(EMPLOYER, id, 1, 1), Err(PayrollError::NotArbiter));
    assert_eq!(c.resolve_dispute(OWNER, id, 1, 1), Err(PayrollError::NotArbiter));
    assert_eq!(c.resolve_dispute(ARBITER, id, -1, 1), Err(PayrollError::InvalidAmount));
    assert_eq!(c.resolve_dispute(ARBITER, id, 1, -1), Err(PayrollError::InvalidAmount));
    assert_eq!(c.resolve_dispute(ARBITER, id, 4000, 1), Err(PayrollError::InsufficientFunds));
    assert_eq!(
        c.resolve_dispute(ARBITER, id, i128::MAX, i128::MAX),
        Err(PayrollError::InsufficientFunds)
    );
    assert_eq!(c.get_dispute_status(id), DisputeStatus::Raised);
    assert_eq!(c.resolve_dispute(ARBITER, id, 1500, 2500), Ok(()));
    assert_eq!(c.get_dispute_status(id), DisputeStatus::Resolved);
    assert_eq!(c.get_agreement(id).unwrap().escrow_balance, 0);
    assert_eq!(c.resolve_dispute(ARBITER, id, 0, 0), Err(PayrollError::NoDispute));
    assert_eq!(c.raise_dispute(EMPLOYER, id, 9), Err(PayrollError::DisputeAlreadyRaised));
}

#[test]
fn a_payroll_dispute_pays_no_contributor() {
    let mut c = engine();
    let id = active_payroll(&mut c, 10, 100);
    c.raise_dispute(EMPLOYER, id, 5).unwrap();
    assert_eq!(c.resolve_dispute(ARBITER, id, 10, 1), Err(PayrollError::InvalidData));
    assert_eq!(c.resolve_dispute(ARBITER, id, 10, 0), Ok(()));
    assert_eq!(c.get_agreement(id).unwrap().escrow_balance, 90);
}

#[test]
fn without_an_arbiter_nobody_settles() {
    let mut c = PayrollContract::new();
    c.initialize(OWNER).unwrap();
    let id = active_escrow(&mut c, 1000, 4, 4000);
    c.raise_dispute(EMPLOYER, id, 5).unwrap();
    assert_eq!(c.resolve_dispute(OWNER, id, 1, 1), Err(PayrollError::NotArbiter));
    assert_eq!(c.resolve_dispute(ARBITER, id, 1, 1), Err(PayrollError::NotArbiter));
}

#[test]
fn a_call_on_one_agreement_leaves_the_others_as_they_were() {
    let mut c = engine();
    let first = active_escrow(&mut c, 1000, 4, 4000);
    let second = active_escrow(&mut c, 500, 4, 2000);
    c.create_milestone_agreement(EMPLOYER, STRANGER, TOKEN);
    c.create_milestone_agreement(EMPLOYER, STRANGER, TOKEN);
    let third = c.create_milestone_agreement(EMPLOYER, WORKER, TOKEN);
    assert_eq!(third, 3);
    c.add_milestone(EMPLOYER, third, 10).unwrap();
    let before_second = c.get_agreement(second).unwrap();
    let before_third = c.get_agreement(third).unwrap();
    let before_milestone = c.get_milestone(third, 1);
    c.claim_time_based(WORKER, first, 2 * DAY).unwrap();
    c.raise_dispute(EMPLOYER, first, 2 * DAY).unwrap();
    c.resolve_dispute(ARBITER, first, 100, 100).unwrap();
    c.pause_agreement(EMPLOYER, first).unwrap();
    c.resume_agreement(EMPLOYER, first).unwrap();
    c.cancel_agreement(EMPLOYER, first, 3 * DAY).unwrap();
    assert_eq!(c.get_agreement(second), Some(before_second));
    assert_eq!(c.get_claimed_periods(second), 0);
    assert_eq!(c.get_dispute_status(second), DisputeStatus::NoDispute);
    assert_eq!(c.get_agreement(third), Some(before_third));
    assert_eq!(c.get_milestone(third, 1), before_milestone);
    assert_eq!(c.get_dispute_status(third), DisputeStatus::NoDispute);
}

#[test]
fn paid_periods_never_go_down() {
    let mut c = engine();
    let id = active_escrow(&mut c, 10, 6, 60);
    let mut last = 0u32;
    for now in [DAY, DAY / 2, 3 * DAY, 0, 2 * DAY, 5 * DAY, 4 * DAY, 9 * DAY, DAY] {
        let _ = c.claim_time_based(WORKER, id, now);
        let paid = c.get_claimed_periods(id);
        assert!(paid >= last);
        last = paid;
    }
    assert_eq!(last, 6);
}
