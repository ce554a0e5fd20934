//! Compliance records: each employer logs its payments, and a report
//! gathers the latest records of a span of time, of one kind or of all.

use vstd::prelude::*;
use crate::address::Address;

verus! {

/// Why a compliance call was refused. A refused call leaves the state as it was.
#[derive(Clone, Copy, Debug, PartialEq, Eq, Structural)]
pub enum ComplianceError {
    NotInitialized,
    AlreadyInitialized,
    NotAuthorized,
    /// The span starts after it ends.
    InvalidDateRange,
    /// A report may gather at most `MAX_REPORT_RECORDS` records.
    QueryLimitExceeded,
    /// A record id or a sum of amounts leaves its range.
    Overflow,
}

/// What a record reports.
#[derive(Clone, Copy, Debug, PartialEq, Eq, Structural)]
pub enum ReportType {
    Payroll,
    Tax,
    Regulatory,
}

/// The most records a report may be asked for.
pub const MAX_REPORT_RECORDS: u32 = 100;

/// One logged payment.
#[derive(Debug, PartialEq, Eq)]
pub struct ComplianceRecord {
    pub id: u32,
    pub employer: Address,
    pub employee: Address,
    pub token: Address,
    pub amount: i128,
    pub timestamp: u64,
    pub report_type: ReportType,
    /// A reference to data kept elsewhere.
    pub metadata: Vec<u8>,
}

/// The mathematical value of a [`ComplianceRecord`].
pub struct RecordView {
    pub id: u32,
    pub employer: Address,
    pub employee: Address,
    pub token: Address,
    pub amount: i128,
    pub timestamp: u64,
    pub report_type: ReportType,
    pub metadata: Seq<u8>,
}

impl View for ComplianceRecord {
    type V = RecordView;

    open spec fn view(&self) -> RecordView {
        RecordView {
            id: self.id,
            employer: self.employer,
            employee: self.employee,
            token: self.token,
            amount: self.amount,
            timestamp: self.timestamp,
            report_type: self.report_type,
            metadata: self.metadata@,
        }
    }
}

/// A report: the records that matched, latest first, their number and the
/// sum of their amounts.
#[derive(Debug, PartialEq, Eq)]
pub struct ComplianceReport {
    pub employer: Address,
    pub start_date: u64,
    pub end_date: u64,
    pub total_amount: i128,
    pub record_count: u32,
    pub records: Vec<ComplianceRecord>,
}

/// The records logged by one employer.
pub struct EmployerLog {
    pub employer: Address,
    /// The records of the employer, oldest first.
    pub records: Vec<ComplianceRecord>,
}

/// The mathematical value of an [`EmployerLog`].
pub struct LogView {
    pub employer: Address,
    /// The records, oldest first; the one with id `n` is at `n - 1`.
    pub records: Seq<RecordView>,
}

impl View for EmployerLog {
    type V = LogView;

    open spec fn view(&self) -> LogView {
        LogView {
            employer: self.employer,
            records: Seq::new(self.records@.len(), |i: int| self.records@[i]@),
        }
    }
}

/// The compliance state: its admin and one log per employer.
pub struct ComplianceReportingContract {
    admin: Option<Address>,
    logs: Vec<EmployerLog>,
}

/// The mathematical value of a [`ComplianceReportingContract`].
pub struct ComplianceView {
    pub admin: Option<Address>,
    pub logs: Seq<LogView>,
}

impl View for ComplianceReportingContract {
    type V = ComplianceView;

    closed spec fn view(&self) -> ComplianceView {
        ComplianceView {
            admin: self.admin,
            logs: Seq::new(self.logs@.len(), |i: int| self.logs@[i]@),
        }
    }
}

/// The position of the log of `employer` in `logs`, or the length of
/// `logs` if it has none.
pub open spec fn log_index(logs: Seq<LogView>, employer: Address) -> int
    decreases logs.len(),
{
    if logs.len() == 0 {
        0
    } else if logs[0].employer == employer {
        0
    } else {
        1 + log_index(logs.skip(1), employer)
    }
}

/// The records of `employer` in `logs`, oldest first.
pub open spec fn records_of(logs: Seq<LogView>, employer: Address) -> Seq<RecordView> {
    let k = log_index(logs, employer);
    if k < logs.len() {
        logs[k].records
    } else {
        Seq::empty()
    }
}

/// `logs` with `record` appended to the records of `employer`, in the
/// employer's log or, if it has none, in a new log at the end.
pub open spec fn with_record(logs: Seq<LogView>, employer: Address, record: RecordView) -> Seq<
    LogView,
> {
    let k = log_index(logs, employer);
    if k < logs.len() {
        logs.update(k, LogView { employer, records: logs[k].records.push(record) })
    } else {
        logs.push(LogView { employer, records: seq![record] })
    }
}

/// The record is of the kind that `filter` asks for; without a filter
/// every record is.
pub open spec fn type_matches(record: RecordView, filter: Option<ReportType>) -> bool {
    filter is None || filter == Some(record.report_type)
}

/// The records that a report gathers out of the first `n` records, going
/// from the latest back: those within the span and of the right kind, at
/// most `budget` of them, and none from the first record on that is older
/// than the span.
pub open spec fn gathered(
    records: Seq<RecordView>,
    n: int,
    start_date: u64,
    end_date: u64,
    filter: Option<ReportType>,
    budget: int,
) -> Seq<RecordView>
    decreases n,
{
    if n <= 0 || budget <= 0 {
        Seq::empty()
    } else {
        let record = records[n - 1];
        if start_date <= record.timestamp <= end_date {
            if type_matches(record, filter) {
                seq![record] + gathered(records, n - 1, start_date, end_date, filter, budget - 1)
            } else {
                gathered(records, n - 1, start_date, end_date, filter, budget)
            }
        } else if record.timestamp < start_date {
            Seq::empty()
        } else {
            gathered(records, n - 1, start_date, end_date, filter, budget)
        }
    }
}

/// The sum of the amounts of `records`.
pub open spec fn amount_total(records: Seq<RecordView>) -> int
    decreases records.len(),
{
    if records.len() == 0 {
        0
    } else {
        amount_total(records.drop_last()) + records.last().amount
    }
}

/// Added up in order, the amounts of `records` never leave the range of
/// amounts.
pub open spec fn amounts_fit(records: Seq<RecordView>) -> bool
    decreases records.len(),
{
    if records.len() == 0 {
        true
    } else {
        amounts_fit(records.drop_last()) && i128::MIN <= amount_total(records) <= i128::MAX
    }
}

/// Why no report can be made for this span and this limit, if anything.
pub open spec fn report_error(v: ComplianceView, start_date: u64, end_date: u64, limit: u32)
    -> Option<ComplianceError> {
    if v.admin is None {
        Some(ComplianceError::NotInitialized)
    } else if start_date > end_date {
        Some(ComplianceError::InvalidDateRange)
    } else if limit > MAX_REPORT_RECORDS {
        Some(ComplianceError::QueryLimitExceeded)
    } else {
        None
    }
}

impl ComplianceView {
    /// The invariant of the compliance state: without an admin there are
    /// no logs, and every record sits in the log of its employer at the
    /// place its id names.
    pub open spec fn wf(self) -> bool {
        &&& self.admin is None ==> self.logs.len() == 0
        &&& forall|i: int|
            0 <= i < self.logs.len() ==> {
                &&& (#[trigger] self.logs[i]).records.len() <= u32::MAX
                &&& forall|j: int|
                    0 <= j < self.logs[i].records.len() ==> {
                        &&& (#[trigger] self.logs[i].records[j]).id == j + 1
                        &&& self.logs[i].records[j].employer == self.logs[i].employer
                    }
            }
    }
}

/// The log of an employer lies within the logs or right behind them.
pub proof fn lemma_log_index(logs: Seq<LogView>, employer: Address)
    ensures
        0 <= log_index(logs, employer) <= logs.len(),
        log_index(logs, employer) < logs.len() ==> logs[log_index(logs, employer)].employer
            == employer,
    decreases logs.len(),
{
    if logs.len() > 0 && logs[0].employer != employer {
        lemma_log_index(logs.skip(1), employer);
    }
}

/// A report gathers no more records than it was allowed and no more than
/// it looked at.
pub proof fn law_report_within_limit(
    records: Seq<RecordView>,
    n: int,
    start_date: u64,
    end_date: u64,
    filter: Option<ReportType>,
    budget: int,
)
    ensures
        gathered(records, n, start_date, end_date, filter, budget).len() <= if budget > 0 {
            budget
        } else {
            0
        },
        gathered(records, n, start_date, end_date, filter, budget).len() <= if n > 0 {
            n
        } else {
            0
        },
    decreases n,
{
    if n > 0 && budget > 0 {
        law_report_within_limit(records, n - 1, start_date, end_date, filter, budget - 1);
        law_report_within_limit(records, n - 1, start_date, end_date, filter, budget);
    }
}

/// Amounts whose beginning does not fit do not fit.
proof fn lemma_amounts_fit_prefix(front: Seq<RecordView>, rest: Seq<RecordView>)
    requires
        !amounts_fit(front),
    ensures
        !amounts_fit(front + rest),
    decreases rest.len(),
{
    if rest.len() == 0 {
        assert(front + rest =~= front);
    } else {
        assert((front + rest).drop_last() =~= front + rest.drop_last());
        lemma_amounts_fit_prefix(front, rest.drop_last());
    }
}

fn find_log(logs: &Vec<EmployerLog>, employer: Address) -> (k: usize)
    ensures
        k == log_index(Seq::new(logs@.len(), |i: int| logs@[i]@), employer),
        k <= logs@.len(),
{
    let ghost views = Seq::new(logs@.len(), |i: int| logs@[i]@);
    let mut k: usize = 0;
    proof {
        assert(views.skip(0) =~= views);
    }
    while k < logs.len()
        invariant
            k <= logs@.len(),
            views == Seq::new(logs@.len(), |i: int| logs@[i]@),
            log_index(views, employer) == k + log_index(views.skip(k as int), employer),
        decreases logs@.len() - k,
    {
        proof {
            let rest = views.skip(k as int);
            assert(rest[0] == views[k as int]);
            assert(rest.skip(1) =~= views.skip(k + 1));
        }
        if logs[k].employer == employer {
            return k;
        }
        k += 1;
    }
    proof {
        assert(views.skip(k as int).len() == 0);
    }
    k
}

fn copy_bytes(bytes: &Vec<u8>) -> (copy: Vec<u8>)
    ensures
        copy@ == bytes@,
{
    let mut copy: Vec<u8> = Vec::new();
    let mut k: usize = 0;
    while k < bytes.len()
        invariant
            k <= bytes@.len(),
            copy@ == bytes@.take(k as int),
        decreases bytes@.len() - k,
    {
        copy.push(bytes[k]);
        proof {
            assert(bytes@.take(k + 1) =~= bytes@.take(k as int).push(bytes@[k as int]));
        }
        k += 1;
    }
    proof {
        assert(bytes@.take(k as int) =~= bytes@);
    }
    copy
}

fn copy_record(record: &ComplianceRecord) -> (copy: ComplianceRecord)
    ensures
        copy@ == record@,
{
    ComplianceRecord {
        id: record.id,
        employer: record.employer,
        employee: record.employee,
        token: record.token,
        amount: record.amount,
        timestamp: record.timestamp,
        report_type: record.report_type,
        metadata: copy_bytes(&record.metadata),
    }
}

impl ComplianceReportingContract {
    /// A compliance state without admin or records.
    pub fn new() -> (c: ComplianceReportingContract)
        ensures
            c@.wf(),
            c@.admin is None,
            c@.logs.len() == 0,
    {
        ComplianceReportingContract { admin: None, logs: Vec::new() }
    }

    /// Records `admin` as the admin. This can be done once.
    pub fn initialize(&mut self, admin: Address) -> (res: Result<(), ComplianceError>)
        requires
            old(self)@.wf(),
        ensures
            final(self)@.wf(),
            match res {
                Ok(_) => old(self)@.admin is None && final(self)@ == (ComplianceView {
                    admin: Some(admin),
                    ..old(self)@
                }),
                Err(e) => old(self)@.admin is Some && e == ComplianceError::AlreadyInitialized
                    && final(self)@ == old(self)@,
            },
    {
        if self.admin.is_some() {
            return Err(ComplianceError::AlreadyInitialized);
        }
        self.admin = Some(admin);
        proof {
            assert(self@.logs =~= old(self)@.logs);
        }
        Ok(())
    }

    /// Logs a payment of `employer`, who is the caller, at `now`, and
    /// returns the id of the record: one more than the number of records
    /// the employer had logged before.
    pub fn log_record(
        &mut self,
        employer: Address,
        employee: Address,
        token: Address,
        amount: i128,
        report_type: ReportType,
        metadata: Vec<u8>,
        now: u64,
    ) -> (res: Result<u32, ComplianceError>)
        requires
            old(self)@.wf(),
        ensures
            final(self)@.wf(),
            match res {
                Ok(id) => {
                    &&& old(self)@.admin is Some
                    &&& id == records_of(old(self)@.logs, employer).len() + 1
                    &&& final(self)@ == (ComplianceView {
                        logs: with_record(
                            old(self)@.logs,
                            employer,
                            RecordView {
                                id,
                                employer,
                                employee,
                                token,
                                amount,
                                timestamp: now,
                                report_type,
                                metadata: metadata@,
                            },
                        ),
                        ..old(self)@
                    })
                },
                Err(e) => {
                    &&& final(self)@ == old(self)@
                    &&& old(self)@.admin is None ==> e == ComplianceError::NotInitialized
                    &&& old(self)@.admin is Some ==> e == ComplianceError::Overflow && records_of(
                        old(self)@.logs,
                        employer,
                    ).len() >= u32::MAX
                },
            },
    {
        if self.admin.is_none() {
            return Err(ComplianceError::NotInitialized);
        }
        let k = find_log(&self.logs, employer);
        proof {
            lemma_log_index(self@.logs, employer);
        }
        if k < self.logs.len() {
            if self.logs[k].records.len() >= u32::MAX as usize {
                return Err(ComplianceError::Overflow);
            }
            let id: u32 = (self.logs[k].records.len() + 1) as u32;
            let record = ComplianceRecord {
                id,
                employer,
                employee,
                token,
                amount,
                timestamp: now,
                report_type,
                metadata,
            };
            self.logs[k].records.push(record);
            proof {
                let goal = with_record(old(self)@.logs, employer, record@);
                assert(self@.logs[k as int].records =~= old(self)@.logs[k as int].records.push(
                    record@,
                ));
                assert(self@.logs =~= goal);
            }
            Ok(id)
        } else {
            let record = ComplianceRecord {
                id: 1,
                employer,
                employee,
                token,
                amount,
                timestamp: now,
                report_type,
                metadata,
            };
            let mut records: Vec<ComplianceRecord> = Vec::new();
            records.push(record);
            let log = EmployerLog { employer, records };
            proof {
                assert(log@.records =~= seq![record@]);
            }
            self.logs.push(log);
            proof {
                let goal = with_record(old(self)@.logs, employer, record@);
                assert(self@.logs =~= goal);
            }
            Ok(1)
        }
    }

    /// Reports on the records of `employer`: going from the latest record
    /// back, it gathers those whose time lies within the span and whose
    /// kind is the one asked for, until it has `limit` of them or meets a
    /// record older than the span. The report lists them latest first,
    /// with their number and the sum of their amounts.
    pub fn generate_report(
        &self,
        employer: Address,
        start_date: u64,
        end_date: u64,
        filter_type: Option<ReportType>,
        limit: u32,
    ) -> (res: Result<ComplianceReport, ComplianceError>)
        requires
            self@.wf(),
        ensures
            match res {
                Ok(report) => {
                    let found = gathered(
                        records_of(self@.logs, employer),
                        records_of(self@.logs, employer).len() as int,
                        start_date,
                        end_date,
                        filter_type,
                        limit as int,
                    );
                    &&& report_error(self@, start_date, end_date, limit) is None
                    &&& amounts_fit(found)
                    &&& report.employer == employer
                    &&& report.start_date == start_date
                    &&& report.end_date == end_date
                    &&& report.records@.len() == found.len()
                    &&& forall|i: int| 0 <= i < found.len() ==> (#[trigger] report.records@[i])@ == found[i]
                    &&& report.record_count == found.len()
                    &&& report.total_amount == amount_total(found)
                },
                Err(e) => {
                    &&& report_error(self@, start_date, end_date, limit) is Some ==> report_error(
                        self@,
                        start_date,
                        end_date,
                        limit,
                    ) == Some(e)
                    &&& report_error(self@, start_date, end_date, limit) is None ==> e
                        == ComplianceError::Overflow && !amounts_fit(
                        gathered(
                            records_of(self@.logs, employer),
                            records_of(self@.logs, employer).len() as int,
                            start_date,
                            end_date,
                            filter_type,
                            limit as int,
                        ),
                    )
                },
            },
    {
        if self.admin.is_none() {
            return Err(ComplianceError::NotInitialized);
        }
        if start_date > end_date {
            return Err(ComplianceError::InvalidDateRange);
        }
        if limit > MAX_REPORT_RECORDS {
            return Err(ComplianceError::QueryLimitExceeded);
        }
        let mut matching: Vec<ComplianceRecord> = Vec::new();
        let mut total_amount: i128 = 0;
        let mut processed: u32 = 0;
        let k = find_log(&self.logs, employer);
        proof {
            lemma_log_index(self@.logs, employer);
        }
        if k < self.logs.len() {
            let records = &self.logs[k].records;
            let ghost all = records_of(self@.logs, employer);
            let ghost goal = gathered(all, all.len() as int, start_date, end_date, filter_type, limit as int);
            let ghost mut found: Seq<RecordView> = Seq::empty();
            let mut n: usize = records.len();
            proof {
                assert(found + goal =~= goal);
            }
            while n > 0 && processed < limit
                invariant
                    n <= records@.len(),
                    all.len() == records@.len(),
                    forall|i: int| 0 <= i < all.len() ==> all[i] == (#[trigger] records@[i])@,
                    processed <= limit <= MAX_REPORT_RECORDS,
                    start_date <= end_date,
                    self@.admin is Some,
                    all == records_of(self@.logs, employer),
                    goal == gathered(
                        all,
                        all.len() as int,
                        start_date,
                        end_date,
                        filter_type,
                        limit as int,
                    ),
                    goal == found + gathered(
                        all,
                        n as int,
                        start_date,
                        end_date,
                        filter_type,
                        limit - processed,
                    ),
                    found.len() == processed,
                    matching@.len() == found.len(),
                    forall|i: int| 0 <= i < found.len() ==> (#[trigger] matching@[i])@ == found[i],
                    amounts_fit(found),
                    total_amount == amount_total(found),
                decreases n,
            {
                let record = &records[n - 1];
                assert(record@ == all[n - 1]);
                if record.timestamp >= start_date && record.timestamp <= end_date {
                    let wanted = match filter_type {
                        Some(t) => record.report_type == t,
                        None => true,
                    };
                    if wanted {
                        proof {
                            let rest = gathered(
                                all,
                                n - 1,
                                start_date,
                                end_date,
                                filter_type,
                                limit - processed - 1,
                            );
                            assert(found + (seq![record@] + rest) =~= found.push(record@) + rest);
                            assert(found.push(record@).drop_last() =~= found);
                            if !amounts_fit(found.push(record@)) {
                                lemma_amounts_fit_prefix(found.push(record@), rest);
                            }
                        }
                        total_amount = match total_amount.checked_add(record.amount) {
                            Some(sum) => sum,
                            None => {
                                return Err(ComplianceError::Overflow);
                            },
                        };
                        matching.push(copy_record(record));
                        processed = processed + 1;
                        proof {
                            found = found.push(record@);
                        }
                    }
                    n -= 1;
                } else if record.timestamp < start_date {
                    n = 0;
                } else {
                    n -= 1;
                }
            }
            proof {
                assert(found + Seq::<RecordView>::empty() =~= found);
                assert(goal == found);
            }
        } else {
            proof {
                let all = records_of(self@.logs, employer);
                assert(all.len() == 0);
            }
        }
        Ok(
            ComplianceReport {
                employer,
                start_date,
                end_date,
                total_amount,
                record_count: processed,
                records: matching,
            },
        )
    }

    /// The number of records that `employer` has logged.
    pub fn get_record_count(&self, employer: Address) -> (count: u32)
        requires
            self@.wf(),
        ensures
            count == records_of(self@.logs, employer).len(),
    {
        let k = find_log(&self.logs, employer);
        proof {
            lemma_log_index(self@.logs, employer);
        }
        if k < self.logs.len() {
            assert(self@.logs[k as int].records.len() <= u32::MAX);
            self.logs[k].records.len() as u32
        } else {
            0
        }
    }
}

/// The state that an admin and these logs make up.
pub open spec fn assembled(admin: Option<Address>, logs: Seq<EmployerLog>) -> ComplianceView {
    ComplianceView { admin, logs: Seq::new(logs.len(), |i: int| logs[i]@) }
}

/// Every record of the log belongs to the log's employer and sits at the
/// place its id names, and the records are not too many to be counted.
pub open spec fn log_fits(log: LogView) -> bool {
    &&& log.records.len() <= u32::MAX
    &&& forall|j: int|
        0 <= j < log.records.len() ==> {
            &&& (#[trigger] log.records[j]).id == j + 1
            &&& log.records[j].employer == log.employer
        }
}

fn log_in_order(log: &EmployerLog) -> (ok: bool)
    ensures
        ok == log_fits(log@),
{
    if log.records.len() > u32::MAX as usize {
        return false;
    }
    let mut j: usize = 0;
    while j < log.records.len()
        invariant
            j <= log.records@.len(),
            log.records@.len() <= u32::MAX,
            log@.records.len() == log.records@.len(),
            log@.employer == log.employer,
            forall|k: int| 0 <= k < log.records@.len() ==> log@.records[k] == (#[trigger] log.records@[k])@,
            forall|k: int|
                0 <= k < j ==> {
                    &&& (#[trigger] log@.records[k]).id == k + 1
                    &&& log@.records[k].employer == log@.employer
                },
        decreases log.records@.len() - j,
    {
        if log.records[j].id as usize != j + 1 || log.records[j].employer != log.employer {
            assert(log@.records[j as int] == log.records@[j as int]@);
            return false;
        }
        assert(log@.records[j as int] == log.records@[j as int]@);
        j += 1;
    }
    true
}

impl ComplianceReportingContract {
    /// Puts a compliance state together from its admin and its logs, if
    /// they meet its invariant.
    pub fn from_parts(admin: Option<Address>, logs: Vec<EmployerLog>) -> (res: Option<
        ComplianceReportingContract,
    >)
        ensures
            res is Some <==> assembled(admin, logs@).wf(),
            res is Some ==> res.unwrap()@ == assembled(admin, logs@),
    {
        let ghost whole = assembled(admin, logs@);
        if admin.is_none() && logs.len() != 0 {
            return None;
        }
        let mut i: usize = 0;
        while i < logs.len()
            invariant
                i <= logs@.len(),
                admin is None ==> logs@.len() == 0,
                whole == assembled(admin, logs@),
                forall|k: int| 0 <= k < i ==> log_fits((#[trigger] logs@[k])@),
            decreases logs@.len() - i,
        {
            if !log_in_order(&logs[i]) {
                proof {
                    assert(whole.logs[i as int] == logs@[i as int]@);
                }
                return None;
            }
            i += 1;
        }
        proof {
            assert forall|k: int| 0 <= k < whole.logs.len() implies {
                &&& (#[trigger] whole.logs[k]).records.len() <= u32::MAX
                &&& forall|j: int|
                    0 <= j < whole.logs[k].records.len() ==> {
                        &&& (#[trigger] whole.logs[k].records[j]).id == j + 1
                        &&& whole.logs[k].records[j].employer == whole.logs[k].employer
                    }
            } by {
                assert(log_fits(logs@[k]@));
            }
        }
        Some(ComplianceReportingContract { admin, logs })
    }

    /// Takes the compliance state apart: its admin and its logs.
    pub fn into_parts(self) -> (parts: (Option<Address>, Vec<EmployerLog>))
        ensures
            self@ == assembled(parts.0, parts.1@),
    {
        (self.admin, self.logs)
    }
}

} // verus!
