//! Taking a state apart and putting it together again: what was taken
//! apart is accepted back unchanged, and parts that break the state's
//! invariant are refused.

use stello_pay::address::Address;
use stello_pay::compliance_reporting::{ComplianceReportingContract, ReportType};
use stello_pay::contract::PayrollContract;
use stello_pay::department_manager::DepartmentManagerContract;
use stello_pay::multisig::{MultisigContract, OperationKind, OperationStatus};
use stello_pay::payment_scheduler::{JobStatus, PaymentSchedulerContract};
use stello_pay::payment_splitter::{PaymentSplitterContract, RecipientShare, ShareKind};
use stello_pay::storage::{AgreementMode, AgreementStatus, DisputeStatus};
use stello_pay::token_vesting::{CustomCheckpoint, TokenVestingContract};

const OWNER: Address = Address { id: 1 };
const EMPLOYER: Address = Address { id: 2 };
const WORKER: Address = Address { id: 3 };
const TOKEN: Address = Address { id: 4 };

fn busy_engine() -> PayrollContract {
    let mut c = PayrollContract::new();
    c.initialize(OWNER).unwrap();
    c.set_arbiter(OWNER, OWNER).unwrap();
    let payroll = c.create_payroll_agreement(EMPLOYER, TOKEN, 10);
    c.add_employee_to_agreement(EMPLOYER, payroll, WORKER, 100).unwrap();
    let escrow = c.create_escrow_agreement(EMPLOYER, WORKER, TOKEN, 10, 5, 3).unwrap();
    c.set_agreement_escrow_balance(EMPLOYER, escrow, TOKEN, 30).unwrap();
    c.activate_agreement(EMPLOYER, escrow, 0).unwrap();
    c.claim_time_based(WORKER, escrow, 5).unwrap();
    c.raise_dispute(WORKER, escrow, 6).unwrap();
    let milestone = c.create_milestone_agreement(EMPLOYER, WORKER, TOKEN);
    c.add_milestone(EMPLOYER, milestone, 7).unwrap();
    c.add_milestone(EMPLOYER, milestone, 8).unwrap();
    c.approve_milestone(EMPLOYER, milestone, 2).unwrap();
    c.claim_milestone(WORKER, milestone, 2).unwrap();
    c
}

#[test]
fn an_engine_taken_apart_is_accepted_back_unchanged() {
    let (owner, arbiter, agreements, milestone_agreements) = busy_engine().into_parts();
    assert_eq!(owner, Some(OWNER));
    assert_eq!(arbiter, Some(OWNER));
    assert_eq!(agreements.len(), 2);
    assert_eq!(milestone_agreements.len(), 1);
    assert_eq!(agreements[0].info.mode, AgreementMode::Payroll);
    assert_eq!(agreements[0].employees.len(), 1);
    assert_eq!(agreements[1].escrow.unwrap().claimed_periods, 1);
    assert_eq!(agreements[1].dispute.status, DisputeStatus::Raised);
    assert_eq!(agreements[1].dispute.raised_at, Some(6));
    assert!(agreements[0].is_well_formed());
    assert!(agreements[1].is_well_formed());
    assert!(milestone_agreements[0].is_well_formed());
    let mut back =
        PayrollContract::from_parts(owner, arbiter, agreements, milestone_agreements).unwrap();
    assert_eq!(back.get_claimed_periods(2), 1);
    assert_eq!(back.get_agreement(2).unwrap().escrow_balance, 20);
    assert_eq!(back.get_dispute_status(2), DisputeStatus::Raised);
    assert_eq!(back.get_agreement_employees(1), vec![WORKER]);
    assert!(back.get_milestone(1, 2).unwrap().claimed);
    assert!(!back.get_milestone(1, 1).unwrap().claimed);
    assert_eq!(back.get_milestone_agreement(1).unwrap().mode, AgreementMode::Milestone);
    assert_eq!(back.get_agreement(1).unwrap().mode, AgreementMode::Payroll);
    assert_eq!(back.get_milestone_agreement(2), None);
    assert_eq!(back.claim_time_based(WORKER, 2, 10), Ok(10));
    assert_eq!(back.create_payroll_agreement(EMPLOYER, TOKEN, 1), 3);
}

#[test]
fn parts_that_break_the_engine_are_refused() {
    let parts = || busy_engine().into_parts();
    let (owner, arbiter, agreements, milestones) = parts();
    assert!(PayrollContract::from_parts(None, arbiter, agreements, milestones).is_none());
    let (owner2, _, agreements, milestones) = parts();
    assert_eq!(owner, owner2);
    assert!(PayrollContract::from_parts(owner, None, agreements, milestones).is_some());
    let (owner, arbiter, mut agreements, milestones) = parts();
    agreements[0].info.id = 5;
    assert!(!agreements[0].is_well_formed() || agreements[0].info.id != 1);
    assert!(PayrollContract::from_parts(owner, arbiter, agreements, milestones).is_none());
    let (owner, arbiter, mut agreements, milestones) = parts();
    agreements.swap(0, 1);
    assert!(PayrollContract::from_parts(owner, arbiter, agreements, milestones).is_none());
    let (owner, arbiter, agreements, milestones) = parts();
    assert!(PayrollContract::from_parts(owner, arbiter, milestones, agreements).is_none());
    let checks: Vec<fn(&mut stello_pay::storage::AgreementRecord)> = vec![
        |r| r.info.escrow_balance = -1,
        |r| r.escrow.as_mut().unwrap().claimed_periods = 4,
        |r| r.escrow.as_mut().unwrap().amount_per_period = 0,
        |r| r.escrow.as_mut().unwrap().period_seconds = 6,
        |r| r.escrow = None,
        |r| r.info.contributor = None,
        |r| r.info.activated_at = None,
        |r| r.info.cancelled_at = Some(3),
        |r| r.info.status = AgreementStatus::Cancelled,
        |r| r.info.status = AgreementStatus::Completed,
        |r| r.info.status = AgreementStatus::Created,
        |r| r.dispute.raised_at = None,
        |r| r.dispute.status = DisputeStatus::NoDispute,
        |r| r.info.mode = AgreementMode::Payroll,
        |r| r.milestones.push(stello_pay::storage::Milestone {
            id: 1,
            amount: 1,
            approved: false,
            claimed: false,
        }),
    ];
    for damage in checks {
        let (owner, arbiter, mut agreements, milestones) = parts();
        damage(&mut agreements[1]);
        assert!(!agreements[1].is_well_formed());
        assert!(PayrollContract::from_parts(owner, arbiter, agreements, milestones).is_none());
    }
    let milestone_checks: Vec<fn(&mut stello_pay::storage::AgreementRecord)> = vec![
        |r| r.milestones[0].id = 2,
        |r| r.milestones[0].amount = 0,
        |r| r.milestones[0].claimed = true,
        |r| r.milestones[1].amount = i128::MAX,
        |r| r.info.status = AgreementStatus::Created,
        |r| r.info.activated_at = Some(1),
        |r| r.info.mode = AgreementMode::Escrow,
    ];
    for damage in milestone_checks {
        let (owner, arbiter, agreements, mut milestones) = parts();
        damage(&mut milestones[0]);
        assert!(!milestones[0].is_well_formed());
        assert!(PayrollContract::from_parts(owner, arbiter, agreements, milestones).is_none());
    }
    let employee_checks: Vec<fn(&mut stello_pay::storage::AgreementRecord)> = vec![
        |r| r.employees[0].index = 1,
        |r| r.employees[0].salary = 0,
        |r| r.info.contributor = Some(WORKER),
    ];
    for damage in employee_checks {
        let (owner, arbiter, mut agreements, milestones) = parts();
        damage(&mut agreements[0]);
        assert!(!agreements[0].is_well_formed());
        assert!(PayrollContract::from_parts(owner, arbiter, agreements, milestones).is_none());
    }
}

#[test]
fn a_scheduler_is_put_together_from_jobs_in_order() {
    let mut c = PaymentSchedulerContract::new();
    c.initialize(OWNER).unwrap();
    c.create_job(EMPLOYER, WORKER, TOKEN, 10, 5, 0, None, 0).unwrap();
    c.create_job(EMPLOYER, WORKER, TOKEN, 20, 5, 0, Some(2), 1).unwrap();
    c.pause_job(EMPLOYER, 2).unwrap();
    let (owner, jobs) = c.into_parts();
    assert_eq!(jobs[1].status, JobStatus::Paused);
    let back = PaymentSchedulerContract::from_parts(owner, jobs.clone()).unwrap();
    assert_eq!(back.get_job(2), Some(jobs[1]));
    assert_eq!(back.get_owner(), Some(OWNER));
    let mut bad = jobs.clone();
    bad[1].id = 3;
    assert!(PaymentSchedulerContract::from_parts(owner, bad).is_none());
    let mut bad = jobs.clone();
    bad[0].amount = 0;
    assert!(PaymentSchedulerContract::from_parts(owner, bad).is_none());
    let mut bad = jobs;
    bad[0].interval_seconds = 0;
    assert!(PaymentSchedulerContract::from_parts(owner, bad).is_none());
}

#[test]
fn a_vesting_state_is_put_together_from_schedules_in_order() {
    let mut c = TokenVestingContract::new();
    c.initialize(OWNER).unwrap();
    c.create_linear_schedule(EMPLOYER, WORKER, TOKEN, 100, 0, 10, None, true).unwrap();
    c.create_custom_schedule(
        EMPLOYER,
        WORKER,
        TOKEN,
        10,
        vec![CustomCheckpoint { time: 1, cumulative_amount: 10 }],
        true,
    )
    .unwrap();
    c.claim(WORKER, 1, 5).unwrap();
    let take = |c: TokenVestingContract| c.into_parts();
    let (owner, schedules) = take(c);
    assert_eq!(schedules[0].released_amount, 50);
    let back = TokenVestingContract::from_parts(owner, schedules).unwrap();
    assert_eq!(back.get_releasable_amount(1, 10), Ok(50));
    let (owner, mut bad) = take(back);
    bad[1].checkpoints[0].cumulative_amount = -1;
    assert!(TokenVestingContract::from_parts(owner, bad).is_none());
    let mut c = TokenVestingContract::new();
    c.initialize(OWNER).unwrap();
    c.create_cliff_schedule(EMPLOYER, WORKER, TOKEN, 100, 10, true).unwrap();
    let (owner, mut bad) = take(c);
    bad[0].released_amount = -1;
    assert!(TokenVestingContract::from_parts(owner, bad).is_none());
    let mut c = TokenVestingContract::new();
    c.initialize(OWNER).unwrap();
    c.create_cliff_schedule(EMPLOYER, WORKER, TOKEN, 100, 10, true).unwrap();
    let (owner, mut bad) = take(c);
    bad[0].total_amount = 0;
    assert!(TokenVestingContract::from_parts(owner, bad).is_none());
    let mut c = TokenVestingContract::new();
    c.initialize(OWNER).unwrap();
    c.create_cliff_schedule(EMPLOYER, WORKER, TOKEN, 100, 10, true).unwrap();
    let (owner, mut bad) = take(c);
    bad[0].id = 0;
    assert!(TokenVestingContract::from_parts(owner, bad).is_none());
}

#[test]
fn a_splitter_is_put_together_from_splits_in_order() {
    let mut c = PaymentSplitterContract::new();
    c.initialize(OWNER).unwrap();
    c.create_split(
        EMPLOYER,
        vec![
            RecipientShare { recipient: WORKER, kind: ShareKind::Percent(2500) },
            RecipientShare { recipient: OWNER, kind: ShareKind::Percent(7500) },
        ],
    )
    .unwrap();
    let (admin, splits) = c.into_parts();
    let back = PaymentSplitterContract::from_parts(admin, splits).unwrap();
    assert_eq!(back.compute_split(1, 400), Ok(vec![(WORKER, 100), (OWNER, 300)]));
    let (admin, mut bad) = back.into_parts();
    bad[0].recipients[0].kind = ShareKind::Percent(2501);
    assert!(PaymentSplitterContract::from_parts(admin, bad).is_none());
    let mut c = PaymentSplitterContract::new();
    c.initialize(OWNER).unwrap();
    c.create_split(EMPLOYER, vec![RecipientShare { recipient: WORKER, kind: ShareKind::Fixed(1) }])
        .unwrap();
    let (admin, mut bad) = c.into_parts();
    bad[0].recipients.clear();
    assert!(PaymentSplitterContract::from_parts(admin, bad).is_none());
    let mut c = PaymentSplitterContract::new();
    c.initialize(OWNER).unwrap();
    c.create_split(EMPLOYER, vec![RecipientShare { recipient: WORKER, kind: ShareKind::Fixed(1) }])
        .unwrap();
    let (admin, mut bad) = c.into_parts();
    bad[0].id = 2;
    assert!(PaymentSplitterContract::from_parts(admin, bad).is_none());
    let mut c = PaymentSplitterContract::new();
    c.initialize(OWNER).unwrap();
    c.create_split(EMPLOYER, vec![RecipientShare { recipient: WORKER, kind: ShareKind::Fixed(1) }])
        .unwrap();
    let (admin, mut bad) = c.into_parts();
    bad[0].recipients.push(RecipientShare { recipient: WORKER, kind: ShareKind::Percent(u32::MAX) });
    bad[0].recipients.push(RecipientShare { recipient: WORKER, kind: ShareKind::Percent(10001) });
    assert!(PaymentSplitterContract::from_parts(admin, bad).is_none());
}

#[test]
fn an_approver_is_put_together_from_parts_in_order() {
    let third = Address::new(9);
    let build = || {
        let mut c = MultisigContract::new();
        c.initialize(OWNER, vec![EMPLOYER, WORKER, third], 2, Some(TOKEN)).unwrap();
        c.propose_operation(EMPLOYER, OperationKind::LargePayment(TOKEN, WORKER, 5), 1).unwrap();
        c.propose_operation(WORKER, OperationKind::LargePayment(TOKEN, WORKER, 6), 2).unwrap();
        c.approve_operation(third, 2, 3).unwrap();
        c.into_parts()
    };
    let (owner, guardian, signers, threshold, operations) = build();
    assert_eq!((owner, guardian, threshold), (Some(OWNER), Some(TOKEN), 2));
    assert_eq!(operations[1].approvals, vec![WORKER, third]);
    assert_eq!(operations[1].operation.status, OperationStatus::Executed);
    let mut back =
        MultisigContract::from_parts(owner, guardian, signers, threshold, operations).unwrap();
    assert_eq!(back.get_approvals(1), vec![EMPLOYER]);
    assert!(back.approve_operation(WORKER, 1, 4).unwrap().executed.is_some());
    let (owner, guardian, signers, threshold, operations) = build();
    assert!(MultisigContract::from_parts(None, guardian, signers, threshold, operations).is_none());
    assert!(MultisigContract::from_parts(None, None, Vec::new(), 0, Vec::new()).is_some());
    assert!(MultisigContract::from_parts(owner, None, Vec::new(), 1, Vec::new()).is_none());
    let (owner, guardian, signers, _, operations) = build();
    assert!(MultisigContract::from_parts(owner, guardian, signers, 4, operations).is_none());
    let (owner, guardian, signers, _, operations) = build();
    assert!(MultisigContract::from_parts(owner, guardian, signers, 0, operations).is_none());
    let (owner, guardian, signers, _, operations) = build();
    assert!(MultisigContract::from_parts(owner, guardian, signers, 1, operations).is_none());
    let (owner, guardian, mut signers, threshold, operations) = build();
    signers[2] = EMPLOYER;
    assert!(MultisigContract::from_parts(owner, guardian, signers, threshold, operations).is_none());
    let (owner, guardian, signers, threshold, mut operations) = build();
    operations[0].approvals.push(OWNER);
    operations[0].operation.status = OperationStatus::Cancelled;
    assert!(MultisigContract::from_parts(owner, guardian, signers, threshold, operations).is_none());
    let (owner, guardian, signers, threshold, mut operations) = build();
    operations[1].approvals.push(WORKER);
    assert!(MultisigContract::from_parts(owner, guardian, signers, threshold, operations).is_none());
    let (owner, guardian, signers, threshold, mut operations) = build();
    operations[1].operation.id = 1;
    assert!(MultisigContract::from_parts(owner, guardian, signers, threshold, operations).is_none());
    let (owner, guardian, signers, threshold, mut operations) = build();
    operations[1].operation.status = OperationStatus::Pending;
    assert!(MultisigContract::from_parts(owner, guardian, signers, threshold, operations).is_none());
}

#[test]
fn a_manager_is_put_together_from_parts_in_order() {
    let build = || {
        let mut c = DepartmentManagerContract::new();
        c.initialize(OWNER).unwrap();
        let org = c.create_organization(EMPLOYER, String::from("Acme"), 1).unwrap();
        let a = c.create_department(EMPLOYER, org, String::from("A"), None, 2).unwrap();
        c.create_department(EMPLOYER, org, String::from("B"), Some(a), 3).unwrap();
        c.assign_employee_to_department(EMPLOYER, org, a, WORKER).unwrap();
        c.into_parts()
    };
    let (admin, organizations, departments) = build();
    assert_eq!(organizations[0].departments, vec![1, 2]);
    assert_eq!(organizations[0].assignments.len(), 1);
    assert_eq!(departments[0].children, vec![2]);
    assert_eq!(departments[0].employees, vec![WORKER]);
    let back = DepartmentManagerContract::from_parts(admin, organizations, departments).unwrap();
    assert_eq!(back.get_employee_department(WORKER, 1), Some(1));
    assert_eq!(back.get_department(2).unwrap().parent_id, Some(1));
    let (admin, mut organizations, departments) = build();
    organizations[0].assignments[0].department_id = 3;
    assert!(DepartmentManagerContract::from_parts(admin, organizations, departments).is_none());
    let (admin, mut organizations, departments) = build();
    organizations[0].assignments[0].department_id = 0;
    assert!(DepartmentManagerContract::from_parts(admin, organizations, departments).is_none());
    let (admin, mut organizations, departments) = build();
    organizations[0].organization.id = 2;
    assert!(DepartmentManagerContract::from_parts(admin, organizations, departments).is_none());
    let (admin, organizations, mut departments) = build();
    departments[1].department.org_id = 2;
    assert!(DepartmentManagerContract::from_parts(admin, organizations, departments).is_none());
    let (admin, organizations, mut departments) = build();
    departments[1].department.id = 1;
    assert!(DepartmentManagerContract::from_parts(admin, organizations, departments).is_none());
    let (admin, _, departments) = build();
    assert!(DepartmentManagerContract::from_parts(admin, Vec::new(), departments).is_none());
}

#[test]
fn a_compliance_state_is_put_together_from_logs_in_order() {
    let build = || {
        let mut c = ComplianceReportingContract::new();
        c.initialize(OWNER).unwrap();
        c.log_record(EMPLOYER, WORKER, TOKEN, 5, ReportType::Tax, vec![1, 2], 10).unwrap();
        c.log_record(EMPLOYER, WORKER, TOKEN, 6, ReportType::Payroll, Vec::new(), 11).unwrap();
        c.log_record(WORKER, WORKER, TOKEN, 7, ReportType::Payroll, Vec::new(), 12).unwrap();
        c.into_parts()
    };
    let (admin, logs) = build();
    assert_eq!(logs.len(), 2);
    assert_eq!(logs[0].employer, EMPLOYER);
    assert_eq!(logs[0].records[0].metadata, vec![1u8, 2]);
    let back = ComplianceReportingContract::from_parts(admin, logs).unwrap();
    assert_eq!(back.get_record_count(EMPLOYER), 2);
    assert_eq!(back.generate_report(EMPLOYER, 0, 20, None, 9).unwrap().total_amount, 11);
    let (admin, mut logs) = build();
    logs[0].records[1].id = 3;
    assert!(ComplianceReportingContract::from_parts(admin, logs).is_none());
    let (admin, mut logs) = build();
    logs[0].records[1].employer = WORKER;
    assert!(ComplianceReportingContract::from_parts(admin, logs).is_none());
    let (_, logs) = build();
    assert!(ComplianceReportingContract::from_parts(None, logs).is_none());
    assert!(ComplianceReportingContract::from_parts(None, Vec::new()).is_some());
}

#[test]
fn a_new_approver_has_nothing_set() {
    let (owner, guardian, signers, threshold, operations) = MultisigContract::new().into_parts();
    assert_eq!(owner, None);
    assert_eq!(guardian, None);
    assert!(signers.is_empty());
    assert_eq!(threshold, 0);
    assert!(operations.is_empty());
}
