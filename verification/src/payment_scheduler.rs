//! Recurring payments: jobs that pay a fixed amount at a fixed interval,
//! retried while funds are short and settled by a periodic sweep.

use vstd::prelude::*;
use crate::address::Address;

verus! {

/// Where a payment job stands.
#[derive(Clone, Copy, Debug, PartialEq, Eq, Structural)]
pub enum JobStatus {
    Active,
    Paused,
    Failed,
    Completed,
}

/// One recurring payment.
#[derive(Clone, Copy, Debug, PartialEq, Eq, Structural)]
pub struct PaymentJob {
    pub id: u128,
    pub employer: Address,
    pub recipient: Address,
    pub token: Address,
    pub amount: i128,
    pub interval_seconds: u64,
    pub next_scheduled_time: u64,
    pub max_executions: Option<u32>,
    pub executions: u32,
    pub max_retries: u32,
    pub retry_count: u32,
    pub status: JobStatus,
}

/// A job was created.
#[derive(Clone, Copy, Debug, PartialEq, Eq, Structural)]
pub struct JobCreatedEvent {
    pub job_id: u128,
    pub employer: Address,
    pub recipient: Address,
}

/// A job paid its recipient; `execution_index` counts this payment.
#[derive(Clone, Copy, Debug, PartialEq, Eq, Structural)]
pub struct JobExecutedEvent {
    pub job_id: u128,
    pub execution_index: u32,
    pub amount: i128,
}

/// A job found the funds short; `retry_count` counts this attempt.
#[derive(Clone, Copy, Debug, PartialEq, Eq, Structural)]
pub struct JobFailedEvent {
    pub job_id: u128,
    pub retry_count: u32,
    pub max_retries: u32,
}

/// What a sweep did to one job.
#[derive(Clone, Copy, Debug, PartialEq, Eq, Structural)]
pub enum JobEvent {
    Executed(JobExecutedEvent),
    Failed(JobFailedEvent),
}

/// The scheduler's holding of one token.
#[derive(Clone, Copy, Debug, PartialEq, Eq, Structural)]
pub struct TokenBalance {
    pub token: Address,
    pub amount: i128,
}

/// Why a scheduler call was refused. A refused call leaves the state as it was.
#[derive(Clone, Copy, Debug, PartialEq, Eq, Structural)]
pub enum SchedulerError {
    NotInitialized,
    AlreadyInitialized,
    /// The amount is not strictly positive.
    InvalidAmount,
    /// The interval is zero.
    InvalidInterval,
    JobNotFound,
    /// The caller is not the employer of the job.
    NotEmployer,
    /// The job is not `Active`.
    NotActive,
    /// The job is not `Paused`.
    NotPaused,
}

/// What a sweep over the jobs did: how many jobs it handled, what happened
/// to each of them in order, and the holdings that are left.
pub struct SweepReport {
    pub processed: u32,
    pub events: Vec<JobEvent>,
    pub balances: Vec<TokenBalance>,
}

/// The payment scheduler: its owner and its jobs. The job with id `n` is
/// the `n`-th that was created.
pub struct PaymentSchedulerContract {
    owner: Option<Address>,
    jobs: Vec<PaymentJob>,
}

/// The mathematical value of a [`PaymentSchedulerContract`].
pub struct SchedulerView {
    pub owner: Option<Address>,
    pub jobs: Seq<PaymentJob>,
}

/// The progress of a sweep: the jobs and holdings as they are by now, what
/// has happened so far, and how many jobs were handled.
pub struct SweepState {
    pub jobs: Seq<PaymentJob>,
    pub balances: Seq<TokenBalance>,
    pub events: Seq<JobEvent>,
    pub processed: nat,
}

impl View for PaymentSchedulerContract {
    type V = SchedulerView;

    closed spec fn view(&self) -> SchedulerView {
        SchedulerView { owner: self.owner, jobs: self.jobs@ }
    }
}

/// `a + b`, capped at the largest time stamp.
pub open spec fn capped_time(a: u64, b: u64) -> u64 {
    if a + b > u64::MAX {
        u64::MAX
    } else {
        (a + b) as u64
    }
}

/// `n + 1`, capped at the largest count.
pub open spec fn capped_next(n: u32) -> u32 {
    if n == u32::MAX {
        u32::MAX
    } else {
        (n + 1) as u32
    }
}

/// The job is active and its time has come.
pub open spec fn job_due(job: PaymentJob, now: u64) -> bool {
    job.status is Active && now >= job.next_scheduled_time
}

/// The position of the first holding of `token` in `balances`, or the
/// length of `balances` if there is none.
pub open spec fn holding_index(balances: Seq<TokenBalance>, token: Address) -> int
    decreases balances.len(),
{
    if balances.len() == 0 {
        0
    } else if balances[0].token == token {
        0
    } else {
        1 + holding_index(balances.skip(1), token)
    }
}

/// What `balances` holds of `token`: the amount of its first holding, or
/// nothing.
pub open spec fn balance_of(balances: Seq<TokenBalance>, token: Address) -> int {
    let k = holding_index(balances, token);
    if k < balances.len() {
        balances[k].amount as int
    } else {
        0
    }
}

/// `balances` after `amount` of `token` was paid out of its first holding.
pub open spec fn after_payment(balances: Seq<TokenBalance>, token: Address, amount: i128) -> Seq<
    TokenBalance,
> {
    let k = holding_index(balances, token);
    if k < balances.len() {
        balances.update(k, TokenBalance { token, amount: (balances[k].amount - amount) as i128 })
    } else {
        balances
    }
}

/// The job after an attempt at `now` that found the funds short: one more
/// retry is counted; beyond the allowed retries the job has failed,
/// otherwise it is tried again one interval later.
pub open spec fn after_shortfall(job: PaymentJob, now: u64) -> PaymentJob {
    let retries = capped_next(job.retry_count);
    if retries > job.max_retries {
        PaymentJob { retry_count: retries, status: JobStatus::Failed, ..job }
    } else {
        PaymentJob {
            retry_count: retries,
            next_scheduled_time: capped_time(now, job.interval_seconds),
            ..job
        }
    }
}

/// The job after it paid at `now`: one more execution is counted, the
/// retries start over, the next payment is one interval later, and a job
/// that has reached its number of executions is completed.
pub open spec fn after_execution(job: PaymentJob, now: u64) -> PaymentJob {
    let executions = capped_next(job.executions);
    PaymentJob {
        executions,
        retry_count: 0,
        next_scheduled_time: capped_time(now, job.interval_seconds),
        status: if job.max_executions is Some && executions >= job.max_executions.unwrap() {
            JobStatus::Completed
        } else {
            job.status
        },
        ..job
    }
}

/// The event that a handled job gives rise to.
pub open spec fn job_event(job: PaymentJob, funded: bool, now: u64) -> JobEvent {
    if funded {
        JobEvent::Executed(
            JobExecutedEvent {
                job_id: job.id,
                execution_index: after_execution(job, now).executions,
                amount: job.amount,
            },
        )
    } else {
        JobEvent::Failed(
            JobFailedEvent {
                job_id: job.id,
                retry_count: after_shortfall(job, now).retry_count,
                max_retries: job.max_retries,
            },
        )
    }
}

/// The sweep after it looked at the job at position `k`. A job that is not
/// due, and every job once `max_jobs` jobs were handled, is passed over.
/// A due job pays if the holding of its token covers its amount, and counts
/// a shortfall otherwise; either way it is handled.
pub open spec fn sweep_step(s: SweepState, k: int, now: u64, max_jobs: u32) -> SweepState {
    let job = s.jobs[k];
    if s.processed >= max_jobs || !job_due(job, now) {
        s
    } else if balance_of(s.balances, job.token) < job.amount {
        SweepState {
            jobs: s.jobs.update(k, after_shortfall(job, now)),
            balances: s.balances,
            events: s.events.push(job_event(job, false, now)),
            processed: s.processed + 1,
        }
    } else {
        SweepState {
            jobs: s.jobs.update(k, after_execution(job, now)),
            balances: after_payment(s.balances, job.token, job.amount),
            events: s.events.push(job_event(job, true, now)),
            processed: s.processed + 1,
        }
    }
}

/// The sweep after it looked at the first `k` jobs, in order of their ids.
pub open spec fn sweep(
    jobs: Seq<PaymentJob>,
    balances: Seq<TokenBalance>,
    now: u64,
    max_jobs: u32,
    k: int,
) -> SweepState
    decreases k,
{
    if k <= 0 {
        SweepState { jobs, balances, events: Seq::empty(), processed: 0 }
    } else {
        sweep_step(sweep(jobs, balances, now, max_jobs, k - 1), k - 1, now, max_jobs)
    }
}

impl SchedulerView {
    /// The job with this id.
    pub open spec fn job(self, id: u128) -> Option<PaymentJob> {
        if 1 <= id <= self.jobs.len() {
            Some(self.jobs[id - 1])
        } else {
            None
        }
    }

    /// The invariant of the scheduler: without an owner there are no jobs,
    /// and every job sits at the place its id names, pays a positive amount
    /// and has a positive interval.
    pub open spec fn wf(self) -> bool {
        &&& self.owner is None ==> self.jobs.len() == 0
        &&& forall|i: int|
            0 <= i < self.jobs.len() ==> {
                &&& (#[trigger] self.jobs[i]).id == i + 1
                &&& self.jobs[i].amount > 0
                &&& self.jobs[i].interval_seconds > 0
            }
    }
}

/// Why a job with these terms cannot be created in `s`, if anything.
pub open spec fn create_job_error(s: SchedulerView, amount: i128, interval_seconds: u64) -> Option<
    SchedulerError,
> {
    if s.owner is None {
        Some(SchedulerError::NotInitialized)
    } else if amount <= 0 {
        Some(SchedulerError::InvalidAmount)
    } else if interval_seconds == 0 {
        Some(SchedulerError::InvalidInterval)
    } else {
        None
    }
}

/// Why `caller` may not move job `id` of `s` out of the status `from`, if
/// anything.
pub open spec fn job_switch_error(s: SchedulerView, caller: Address, id: u128, from: JobStatus)
    -> Option<SchedulerError> {
    if s.owner is None {
        Some(SchedulerError::NotInitialized)
    } else if s.job(id) is None {
        Some(SchedulerError::JobNotFound)
    } else if s.job(id).unwrap().employer != caller {
        Some(SchedulerError::NotEmployer)
    } else if s.job(id).unwrap().status != from {
        Some(if from is Active {
            SchedulerError::NotActive
        } else {
            SchedulerError::NotPaused
        })
    } else {
        None
    }
}

/// Why job `id` of `s` cannot be funded with `amount`, if anything.
pub open spec fn fund_job_error(s: SchedulerView, id: u128, amount: i128) -> Option<SchedulerError> {
    if s.owner is None {
        Some(SchedulerError::NotInitialized)
    } else if amount <= 0 {
        Some(SchedulerError::InvalidAmount)
    } else if s.job(id) is None {
        Some(SchedulerError::JobNotFound)
    } else {
        None
    }
}

/// The first holding of a token lies within the holdings or right behind
/// them, and no holding before it is of that token.
pub proof fn lemma_holding_index(balances: Seq<TokenBalance>, token: Address)
    ensures
        0 <= holding_index(balances, token) <= balances.len(),
        holding_index(balances, token) < balances.len() ==> balances[holding_index(
            balances,
            token,
        )].token == token,
        forall|i: int|
            0 <= i < holding_index(balances, token) ==> (#[trigger] balances[i]).token != token,
    decreases balances.len(),
{
    if balances.len() > 0 && balances[0].token != token {
        let rest = balances.skip(1);
        lemma_holding_index(rest, token);
        assert forall|i: int| 0 <= i < holding_index(balances, token) implies (
        #[trigger] balances[i]).token != token by {
            if i > 0 {
                assert(rest[i - 1] == balances[i]);
            }
        }
    }
}

/// Once `max_jobs` jobs were handled, looking at further jobs changes nothing.
pub proof fn lemma_sweep_stops(
    jobs: Seq<PaymentJob>,
    balances: Seq<TokenBalance>,
    now: u64,
    max_jobs: u32,
    k: int,
    n: int,
)
    requires
        0 <= k <= n,
        sweep(jobs, balances, now, max_jobs, k).processed >= max_jobs,
    ensures
        sweep(jobs, balances, now, max_jobs, n) == sweep(jobs, balances, now, max_jobs, k),
    decreases n - k,
{
    if k < n {
        lemma_sweep_stops(jobs, balances, now, max_jobs, k, n - 1);
    }
}

/// A sweep handles at most `max_jobs` jobs and at most as many as it looked
/// at, reports one event for each, keeps the number of jobs, their ids,
/// amounts and intervals, and leaves the jobs it has not looked at as they
/// were.
pub proof fn lemma_sweep_shape(
    jobs: Seq<PaymentJob>,
    balances: Seq<TokenBalance>,
    now: u64,
    max_jobs: u32,
    k: int,
)
    requires
        0 <= k <= jobs.len(),
    ensures
        ({
            let s = sweep(jobs, balances, now, max_jobs, k);
            &&& s.processed <= max_jobs
            &&& s.processed <= k
            &&& s.events.len() == s.processed
            &&& s.jobs.len() == jobs.len()
            &&& s.balances.len() == balances.len()
            &&& forall|i: int|
                0 <= i < jobs.len() ==> {
                    &&& (#[trigger] s.jobs[i]).id == jobs[i].id
                    &&& s.jobs[i].amount == jobs[i].amount
                    &&& s.jobs[i].interval_seconds == jobs[i].interval_seconds
                }
            &&& forall|i: int| k <= i < jobs.len() ==> #[trigger] s.jobs[i] == jobs[i]
        }),
    decreases k,
{
    if k > 0 {
        lemma_sweep_shape(jobs, balances, now, max_jobs, k - 1);
        let prev = sweep(jobs, balances, now, max_jobs, k - 1);
        let s = sweep_step(prev, k - 1, now, max_jobs);
        assert(s == sweep(jobs, balances, now, max_jobs, k));
        assert(prev.jobs[k - 1] == jobs[k - 1]);
        lemma_holding_index(prev.balances, jobs[k - 1].token);
        assert forall|i: int| 0 <= i < jobs.len() implies {
            &&& (#[trigger] s.jobs[i]).id == jobs[i].id
            &&& s.jobs[i].amount == jobs[i].amount
            &&& s.jobs[i].interval_seconds == jobs[i].interval_seconds
        } by {
            assert(prev.jobs[i].id == jobs[i].id);
        }
    }
}

/// The position of the first holding of `token` in `balances`, or the
/// length of `balances` if there is none.
fn find_holding(balances: &Vec<TokenBalance>, token: Address) -> (k: usize)
    ensures
        k == holding_index(balances@, token),
        k <= balances@.len(),
{
    let mut k: usize = 0;
    proof {
        assert(balances@.skip(0) =~= balances@);
    }
    while k < balances.len()
        invariant
            k <= balances@.len(),
            holding_index(balances@, token) == k + holding_index(balances@.skip(k as int), token),
        decreases balances@.len() - k,
    {
        proof {
            let rest = balances@.skip(k as int);
            assert(rest[0] == balances@[k as int]);
            assert(rest.skip(1) =~= balances@.skip(k + 1));
        }
        if balances[k].token == token {
            return k;
        }
        k += 1;
    }
    proof {
        assert(balances@.skip(k as int).len() == 0);
    }
    k
}

impl PaymentSchedulerContract {
    /// A scheduler without owner or jobs.
    pub fn new() -> (c: PaymentSchedulerContract)
        ensures
            c@.wf(),
            c@.owner is None,
            c@.jobs.len() == 0,
    {
        PaymentSchedulerContract { owner: None, jobs: Vec::new() }
    }

    /// Records `owner` as the owner of the scheduler. This can be done once.
    pub fn initialize(&mut self, owner: Address) -> (res: Result<(), SchedulerError>)
        requires
            old(self)@.wf(),
        ensures
            final(self)@.wf(),
            match res {
                Ok(_) => old(self)@.owner is None && final(self)@ == (SchedulerView {
                    owner: Some(owner),
                    ..old(self)@
                }),
                Err(e) => old(self)@.owner is Some && e == SchedulerError::AlreadyInitialized
                    && final(self)@ == old(self)@,
            },
    {
        if self.owner.is_some() {
            return Err(SchedulerError::AlreadyInitialized);
        }
        self.owner = Some(owner);
        Ok(())
    }

    /// Creates an active job for `employer`, who is the caller, that pays
    /// `amount` of `token` to `recipient` every `interval_seconds`, first at
    /// `start_time`. The job's id is one more than the number of jobs
    /// created before; the event names it.
    pub fn create_job(
        &mut self,
        employer: Address,
        recipient: Address,
        token: Address,
        amount: i128,
        interval_seconds: u64,
        start_time: u64,
        max_executions: Option<u32>,
        max_retries: u32,
    ) -> (res: Result<JobCreatedEvent, SchedulerError>)
        requires
            old(self)@.wf(),
        ensures
            final(self)@.wf(),
            match res {
                Ok(event) => {
                    &&& create_job_error(old(self)@, amount, interval_seconds) is None
                    &&& event == (JobCreatedEvent {
                        job_id: (old(self)@.jobs.len() + 1) as u128,
                        employer,
                        recipient,
                    })
                    &&& final(self)@ == (SchedulerView {
                        jobs: old(self)@.jobs.push(
                            PaymentJob {
                                id: event.job_id,
                                employer,
                                recipient,
                                token,
                                amount,
                                interval_seconds,
                                next_scheduled_time: start_time,
                                max_executions,
                                executions: 0,
                                max_retries,
                                retry_count: 0,
                                status: JobStatus::Active,
                            },
                        ),
                        ..old(self)@
                    })
                },
                Err(e) => {
                    &&& create_job_error(old(self)@, amount, interval_seconds) == Some(e)
                    &&& final(self)@ == old(self)@
                },
            },
    {
        if self.owner.is_none() {
            return Err(SchedulerError::NotInitialized);
        }
        if amount <= 0 {
            return Err(SchedulerError::InvalidAmount);
        }
        if interval_seconds == 0 {
            return Err(SchedulerError::InvalidInterval);
        }
        let id: u128 = self.jobs.len() as u128 + 1;
        self.jobs.push(
            PaymentJob {
                id,
                employer,
                recipient,
                token,
                amount,
                interval_seconds,
                next_scheduled_time: start_time,
                max_executions,
                executions: 0,
                max_retries,
                retry_count: 0,
                status: JobStatus::Active,
            },
        );
        Ok(JobCreatedEvent { job_id: id, employer, recipient })
    }

    /// Sweeps the jobs in order of their ids and handles those that are
    /// active and due at `now`, until `max_jobs` jobs were handled.
    /// `balances` is what the scheduler holds of each token: a due job whose
    /// token's holding covers its amount pays, which lowers that holding,
    /// and any other due job counts a shortfall. The report lists what
    /// happened to each handled job and the holdings that are left.
    pub fn process_due_payments(&mut self, now: u64, max_jobs: u32, balances: Vec<TokenBalance>)
        -> (res: Result<SweepReport, SchedulerError>)
        requires
            old(self)@.wf(),
        ensures
            final(self)@.wf(),
            final(self)@.owner == old(self)@.owner,
            match res {
                Ok(report) => {
                    let end = sweep(
                        old(self)@.jobs,
                        balances@,
                        now,
                        max_jobs,
                        old(self)@.jobs.len() as int,
                    );
                    &&& old(self)@.owner is Some
                    &&& final(self)@.jobs == end.jobs
                    &&& report.processed == end.processed
                    &&& report.events@ == end.events
                    &&& report.balances@ == end.balances
                },
                Err(e) => {
                    &&& old(self)@.owner is None
                    &&& e == SchedulerError::NotInitialized
                    &&& final(self)@ == old(self)@
                },
            },
    {
        if self.owner.is_none() {
            return Err(SchedulerError::NotInitialized);
        }
        let ghost start = self@.jobs;
        let ghost funds = balances@;
        let mut balances = balances;
        let mut events: Vec<JobEvent> = Vec::new();
        let mut processed: u32 = 0;
        let mut k: usize = 0;
        while k < self.jobs.len() && processed < max_jobs
            invariant
                k <= start.len(),
                self.jobs@.len() == start.len(),
                self.owner == old(self).owner,
                old(self)@.wf(),
                start == old(self)@.jobs,
                self.jobs@ == sweep(start, funds, now, max_jobs, k as int).jobs,
                balances@ == sweep(start, funds, now, max_jobs, k as int).balances,
                events@ == sweep(start, funds, now, max_jobs, k as int).events,
                processed == sweep(start, funds, now, max_jobs, k as int).processed,
                processed <= max_jobs,
            decreases start.len() - k,
        {
            proof {
                lemma_sweep_shape(start, funds, now, max_jobs, k as int);
                lemma_sweep_shape(start, funds, now, max_jobs, k + 1);
            }
            let job = self.jobs[k];
            if job.status == JobStatus::Active && now >= job.next_scheduled_time {
                let h = find_holding(&balances, job.token);
                let funded = h < balances.len() && balances[h].amount >= job.amount;
                proof {
                    lemma_holding_index(balances@, job.token);
                }
                if !funded {
                    let retries = job.retry_count.saturating_add(1);
                    if retries > job.max_retries {
                        self.jobs[k].retry_count = retries;
                        self.jobs[k].status = JobStatus::Failed;
                    } else {
                        self.jobs[k].retry_count = retries;
                        self.jobs[k].next_scheduled_time = now.saturating_add(job.interval_seconds);
                    }
                    events.push(
                        JobEvent::Failed(
                            JobFailedEvent {
                                job_id: job.id,
                                retry_count: retries,
                                max_retries: job.max_retries,
                            },
                        ),
                    );
                } else {
                    balances[h].amount = balances[h].amount - job.amount;
                    let executions = job.executions.saturating_add(1);
                    self.jobs[k].executions = executions;
                    self.jobs[k].retry_count = 0;
                    self.jobs[k].next_scheduled_time = now.saturating_add(job.interval_seconds);
                    match job.max_executions {
                        Some(most) => {
                            if executions >= most {
                                self.jobs[k].status = JobStatus::Completed;
                            }
                        },
                        None => {},
                    }
                    events.push(
                        JobEvent::Executed(
                            JobExecutedEvent {
                                job_id: job.id,
                                execution_index: executions,
                                amount: job.amount,
                            },
                        ),
                    );
                }
                processed = processed + 1;
            }
            k += 1;
        }
        proof {
            lemma_sweep_shape(start, funds, now, max_jobs, k as int);
            if k < start.len() {
                lemma_sweep_stops(start, funds, now, max_jobs, k as int, start.len() as int);
            }
        }
        Ok(SweepReport { processed, events, balances })
    }

    /// Pauses an active job on behalf of its employer.
    pub fn pause_job(&mut self, caller: Address, job_id: u128) -> (res: Result<(), SchedulerError>)
        requires
            old(self)@.wf(),
        ensures
            final(self)@.wf(),
            match res {
                Ok(_) => {
                    &&& job_switch_error(old(self)@, caller, job_id, JobStatus::Active) is None
                    &&& final(self)@ == (SchedulerView {
                        jobs: old(self)@.jobs.update(
                            job_id - 1,
                            PaymentJob { status: JobStatus::Paused, ..old(self)@.jobs[job_id - 1] },
                        ),
                        ..old(self)@
                    })
                },
                Err(e) => {
                    &&& job_switch_error(old(self)@, caller, job_id, JobStatus::Active) == Some(e)
                    &&& final(self)@ == old(self)@
                },
            },
    {
        if self.owner.is_none() {
            return Err(SchedulerError::NotInitialized);
        }
        if job_id < 1 || job_id > self.jobs.len() as u128 {
            return Err(SchedulerError::JobNotFound);
        }
        let k: usize = (job_id - 1) as usize;
        if self.jobs[k].employer != caller {
            return Err(SchedulerError::NotEmployer);
        }
        if self.jobs[k].status != JobStatus::Active {
            return Err(SchedulerError::NotActive);
        }
        self.jobs[k].status = JobStatus::Paused;
        Ok(())
    }

    /// Resumes a paused job on behalf of its employer.
    pub fn resume_job(&mut self, caller: Address, job_id: u128) -> (res: Result<(), SchedulerError>)
        requires
            old(self)@.wf(),
        ensures
            final(self)@.wf(),
            match res {
                Ok(_) => {
                    &&& job_switch_error(old(self)@, caller, job_id, JobStatus::Paused) is None
                    &&& final(self)@ == (SchedulerView {
                        jobs: old(self)@.jobs.update(
                            job_id - 1,
                            PaymentJob { status: JobStatus::Active, ..old(self)@.jobs[job_id - 1] },
                        ),
                        ..old(self)@
                    })
                },
                Err(e) => {
                    &&& job_switch_error(old(self)@, caller, job_id, JobStatus::Paused) == Some(e)
                    &&& final(self)@ == old(self)@
                },
            },
    {
        if self.owner.is_none() {
            return Err(SchedulerError::NotInitialized);
        }
        if job_id < 1 || job_id > self.jobs.len() as u128 {
            return Err(SchedulerError::JobNotFound);
        }
        let k: usize = (job_id - 1) as usize;
        if self.jobs[k].employer != caller {
            return Err(SchedulerError::NotEmployer);
        }
        if self.jobs[k].status != JobStatus::Paused {
            return Err(SchedulerError::NotPaused);
        }
        self.jobs[k].status = JobStatus::Active;
        Ok(())
    }

    /// Accepts `amount` as funds for job `job_id` and says what is to be
    /// moved into the scheduler: `amount` of the job's token. The jobs stay
    /// as they are.
    pub fn fund_job(&self, job_id: u128, amount: i128) -> (res: Result<TokenBalance, SchedulerError>)
        ensures
            match res {
                Ok(funds) => {
                    &&& fund_job_error(self@, job_id, amount) is None
                    &&& funds == (TokenBalance {
                        token: self@.job(job_id).unwrap().token,
                        amount,
                    })
                },
                Err(e) => fund_job_error(self@, job_id, amount) == Some(e),
            },
    {
        if self.owner.is_none() {
            return Err(SchedulerError::NotInitialized);
        }
        if amount <= 0 {
            return Err(SchedulerError::InvalidAmount);
        }
        if job_id < 1 || job_id > self.jobs.len() as u128 {
            return Err(SchedulerError::JobNotFound);
        }
        Ok(TokenBalance { token: self.jobs[(job_id - 1) as usize].token, amount })
    }

    /// The job with this id, if there is one.
    pub fn get_job(&self, job_id: u128) -> (job: Option<PaymentJob>)
        ensures
            job == self@.job(job_id),
    {
        if job_id >= 1 && job_id <= self.jobs.len() as u128 {
            Some(self.jobs[(job_id - 1) as usize])
        } else {
            None
        }
    }

    /// The owner of the scheduler, once it has one.
    pub fn get_owner(&self) -> (owner: Option<Address>)
        ensures
            owner == self@.owner,
    {
        self.owner
    }
}

impl PaymentSchedulerContract {
    /// Puts a scheduler together from its owner and its jobs, if they meet
    /// the scheduler's invariant.
    pub fn from_parts(owner: Option<Address>, jobs: Vec<PaymentJob>) -> (res: Option<
        PaymentSchedulerContract,
    >)
        ensures
            res is Some <==> (SchedulerView { owner, jobs: jobs@ }).wf(),
            res is Some ==> res.unwrap()@ == (SchedulerView { owner, jobs: jobs@ }),
    {
        if owner.is_none() && jobs.len() != 0 {
            return None;
        }
        let mut i: usize = 0;
        while i < jobs.len()
            invariant
                i <= jobs@.len(),
                owner is None ==> jobs@.len() == 0,
                forall|k: int|
                    0 <= k < i ==> {
                        &&& (#[trigger] jobs@[k]).id == k + 1
                        &&& jobs@[k].amount > 0
                        &&& jobs@[k].interval_seconds > 0
                    },
            decreases jobs@.len() - i,
        {
            if jobs[i].id != i as u128 + 1 || jobs[i].amount <= 0 || jobs[i].interval_seconds == 0 {
                return None;
            }
            i += 1;
        }
        Some(PaymentSchedulerContract { owner, jobs })
    }

    /// Takes the scheduler apart: its owner and its jobs.
    pub fn into_parts(self) -> (parts: (Option<Address>, Vec<PaymentJob>))
        ensures
            self@ == (SchedulerView { owner: parts.0, jobs: parts.1@ }),
    {
        (self.owner, self.jobs)
    }
}

} // verus!
