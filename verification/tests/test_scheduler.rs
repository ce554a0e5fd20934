//! Recurring payment jobs and the sweep that settles them.

use stello_pay::address::Address;
use stello_pay::payment_scheduler::{
    JobEvent, JobStatus, PaymentSchedulerContract, SchedulerError, TokenBalance,
};

fn register_contract() -> PaymentSchedulerContract {
    PaymentSchedulerContract::new()
}

/// Sweeps with the given holdings, keeps what is left of them, and returns
/// the number of handled jobs and what the sweep paid out.
fn sweep(
    client: &mut PaymentSchedulerContract,
    holdings: &mut Vec<TokenBalance>,
    now: u64,
    max_jobs: u32,
) -> (u32, i128) {
    let report = client.process_due_payments(now, max_jobs, holdings.clone()).unwrap();
    *holdings = report.balances;
    let mut paid = 0i128;
    for event in report.events.iter() {
        if let JobEvent::Executed(e) = event {
            paid += e.amount;
        }
    }
    (report.processed, paid)
}

#[test]
fn test_scheduler_initialize_and_owner() {
    let mut client = register_contract();
    let owner = Address::new(1);

    client.initialize(owner).unwrap();
    assert_eq!(client.get_owner(), Some(owner));

    let res = client.initialize(owner);
    assert!(res.is_err());
    assert_eq!(res, Err(SchedulerError::AlreadyInitialized));
}

#[test]
fn basic_recurring_job_execution() {
    let mut client = register_contract();
    let owner = Address::new(1);
    client.initialize(owner).unwrap();

    let employer = Address::new(2);
    let recipient = Address::new(3);
    let token = Address::new(4);

    let mut holdings = vec![TokenBalance { token, amount: 300i128 }];
    let mut recipient_balance = 0i128;

    let job_id = client
        .create_job(employer, recipient, token, 100i128, 10u64, 0u64, Some(3u32), 1u32)
        .unwrap()
        .job_id;

    let (processed, paid) = sweep(&mut client, &mut holdings, 0, 10u32);
    recipient_balance += paid;
    assert_eq!(processed, 1);

    let job = client.get_job(job_id).unwrap();
    assert_eq!(job.executions, 1);
    assert_eq!(job.status, JobStatus::Active);
    assert_eq!(recipient_balance, 100i128);

    let (_, paid) = sweep(&mut client, &mut holdings, 10, 10u32);
    recipient_balance += paid;
    let job = client.get_job(job_id).unwrap();
    assert_eq!(job.executions, 2);
    assert_eq!(recipient_balance, 200i128);

    let (_, paid) = sweep(&mut client, &mut holdings, 20, 10u32);
    recipient_balance += paid;
    let job = client.get_job(job_id).unwrap();
    assert_eq!(job.executions, 3);
    assert_eq!(job.status, JobStatus::Completed);
    assert_eq!(recipient_balance, 300i128);
    assert_eq!(holdings, vec![TokenBalance { token, amount: 0 }]);
}

#[test]
fn insufficient_funds_and_retries() {
    let mut client = register_contract();
    let owner = Address::new(1);
    client.initialize(owner).unwrap();

    let employer = Address::new(2);
    let recipient = Address::new(3);
    let token = Address::new(4);

    let mut holdings = vec![TokenBalance { token, amount: 50i128 }];
    let mut recipient_balance = 0i128;

    let job_id = client
        .create_job(employer, recipient, token, 100i128, 10u64, 0u64, Some(1u32), 2u32)
        .unwrap()
        .job_id;

    let (processed, paid) = sweep(&mut client, &mut holdings, 0, 5u32);
    recipient_balance += paid;
    assert_eq!(processed, 1);
    let mut job = client.get_job(job_id).unwrap();
    assert_eq!(job.retry_count, 1);
    assert_eq!(job.status, JobStatus::Active);
    assert_eq!(recipient_balance, 0i128);

    holdings[0].amount += 200i128;

    let now = job.next_scheduled_time;
    let (_, paid) = sweep(&mut client, &mut holdings, now, 5u32);
    recipient_balance += paid;

    job = client.get_job(job_id).unwrap();
    assert_eq!(job.executions, 1);
    assert_eq!(job.status, JobStatus::Completed);
    assert_eq!(recipient_balance, 100i128);
}

#[test]
fn pause_and_resume_job() {
    let mut client = register_contract();
    let owner = Address::new(1);
    client.initialize(owner).unwrap();

    let employer = Address::new(2);
    let recipient = Address::new(3);
    let token = Address::new(4);

    let mut holdings = vec![TokenBalance { token, amount: 500i128 }];
    let mut recipient_balance = 0i128;

    let job_id = client
        .create_job(employer, recipient, token, 100i128, 10u64, 0u64, None, 1u32)
        .unwrap()
        .job_id;

    client.pause_job(employer, job_id).unwrap();
    let job = client.get_job(job_id).unwrap();
    assert_eq!(job.status, JobStatus::Paused);

    let now = 100u64;
    let (processed, paid) = sweep(&mut client, &mut holdings, now, 10u32);
    recipient_balance += paid;
    assert_eq!(processed, 0);
    assert_eq!(recipient_balance, 0i128);

    client.resume_job(employer, job_id).unwrap();
    let (_, paid) = sweep(&mut client, &mut holdings, now, 10u32);
    recipient_balance += paid;
    let job = client.get_job(job_id).unwrap();
    assert_eq!(job.executions, 1);
    assert_eq!(job.status, JobStatus::Active);
    assert_eq!(recipient_balance, 100i128);
}
