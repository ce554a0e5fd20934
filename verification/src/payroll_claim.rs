//! The payroll claim engine: every employee of an active agreement draws a
//! salary for each whole period since activation.

use vstd::prelude::*;
use crate::address::Address;
use crate::claims::{ClaimCall, after_claim_call};
use crate::contract::{PayrollContract, lemma_term_replaced, refusal};
use crate::storage::{
    Agreement, AgreementMode, AgreementRecord, AgreementStatus, BatchClaimResult, EmployeeEntry,
    PayrollError, RecordView, periods_elapsed,
};

verus! {

/// Periods of a payroll agreement that have passed since activation.
pub open spec fn payroll_periods_due(r: RecordView, now: u64) -> int
    recommends
        r.info.activated_at is Some,
{
    periods_elapsed(r.info.activated_at.unwrap(), now, r.info.period_duration)
}

/// What employee `index` is paid by a claim at `now`: the salary times the
/// periods passed and not yet paid.
pub open spec fn payroll_claim_amount(r: RecordView, index: u32, now: u64) -> int
    recommends
        r.info.activated_at is Some,
        index < r.employees.len(),
{
    r.employees[index as int].salary * (payroll_periods_due(r, now)
        - r.employees[index as int].claimed_periods)
}

/// Why no payroll claim can be made on `r` at all, if anything: the
/// condition that refuses a whole call, single or batch.
pub open spec fn payroll_claim_gate(r: RecordView) -> Option<PayrollError> {
    if r.info.mode != AgreementMode::Payroll {
        Some(PayrollError::InvalidData)
    } else if !(r.info.status is Active) {
        Some(PayrollError::InvalidData)
    } else {
        None
    }
}

/// Why `caller` may not claim for employee `index` of `r` at `now`, if anything.
pub open spec fn payroll_claim_error(r: RecordView, caller: Address, index: u32, now: u64)
    -> Option<PayrollError> {
    if payroll_claim_gate(r) is Some {
        payroll_claim_gate(r)
    } else if index >= r.employees.len() {
        Some(PayrollError::InvalidEmployeeIndex)
    } else if r.employees[index as int].address != caller {
        Some(PayrollError::NotAuthorized)
    } else if payroll_periods_due(r, now) <= r.employees[index as int].claimed_periods {
        Some(PayrollError::NoPeriodsToClaim)
    } else if payroll_periods_due(r, now) > u32::MAX || payroll_claim_amount(r, index, now)
        > i128::MAX {
        Some(PayrollError::Overflow)
    } else if r.info.escrow_balance < payroll_claim_amount(r, index, now) {
        Some(PayrollError::InsufficientFunds)
    } else {
        None
    }
}

/// The record after a successful claim for employee `index` at `now`: all
/// passed periods are paid and the escrow balance has shrunk by the payment.
pub open spec fn after_payroll_claim(r: RecordView, index: u32, now: u64) -> RecordView
    recommends
        r.info.activated_at is Some,
        index < r.employees.len(),
{
    RecordView {
        info: Agreement {
            escrow_balance: (r.info.escrow_balance - payroll_claim_amount(r, index, now)) as i128,
            ..r.info
        },
        employees: r.employees.update(
            index as int,
            EmployeeEntry {
                claimed_periods: payroll_periods_due(r, now) as u32,
                ..r.employees[index as int]
            },
        ),
        ..r
    }
}

/// The record after one attempt to claim for employee `index`: paid if the
/// claim is in order, untouched otherwise.
pub open spec fn payroll_attempt(r: RecordView, caller: Address, index: u32, now: u64)
    -> RecordView {
    if payroll_claim_error(r, caller, index, now) is None {
        after_payroll_claim(r, index, now)
    } else {
        r
    }
}

/// The record after the indices of `indices` have been attempted from left
/// to right.
pub open spec fn after_payroll_batch(r: RecordView, caller: Address, indices: Seq<u32>, now: u64)
    -> RecordView
    decreases indices.len(),
{
    if indices.len() == 0 {
        r
    } else {
        payroll_attempt(
            after_payroll_batch(r, caller, indices.drop_last(), now),
            caller,
            indices.last(),
            now,
        )
    }
}

/// How many attempts of the batch `indices` are paid.
pub open spec fn payroll_batch_successes(
    r: RecordView,
    caller: Address,
    indices: Seq<u32>,
    now: u64,
) -> int
    decreases indices.len(),
{
    if indices.len() == 0 {
        0
    } else {
        payroll_batch_successes(r, caller, indices.drop_last(), now) + if payroll_claim_error(
            after_payroll_batch(r, caller, indices.drop_last(), now),
            caller,
            indices.last(),
            now,
        ) is None {
            1int
        } else {
            0
        }
    }
}

/// The sum that the batch `indices` pays.
pub open spec fn payroll_batch_total(r: RecordView, caller: Address, indices: Seq<u32>, now: u64)
    -> int
    decreases indices.len(),
{
    if indices.len() == 0 {
        0
    } else {
        let before = after_payroll_batch(r, caller, indices.drop_last(), now);
        payroll_batch_total(r, caller, indices.drop_last(), now) + if payroll_claim_error(
            before,
            caller,
            indices.last(),
            now,
        ) is None {
            payroll_claim_amount(before, indices.last(), now)
        } else {
            0
        }
    }
}

/// A successful claim keeps the record well formed, pays a positive amount
/// and moves the employee's counter strictly forward.
pub proof fn lemma_payroll_claim_step(r: RecordView, caller: Address, index: u32, now: u64)
    requires
        r.wf(),
        payroll_claim_error(r, caller, index, now) is None,
    ensures
        after_payroll_claim(r, index, now).wf(),
        0 < payroll_claim_amount(r, index, now) <= r.info.escrow_balance,
        after_payroll_claim(r, index, now).info.escrow_balance == r.info.escrow_balance
            - payroll_claim_amount(r, index, now),
        after_payroll_claim(r, index, now).employees[index as int].claimed_periods
            > r.employees[index as int].claimed_periods,
{
    let e = r.employees[index as int];
    let earned = payroll_periods_due(r, now) - e.claimed_periods;
    assert(e.salary * earned > 0) by (nonlinear_arith)
        requires
            e.salary > 0,
            earned > 0,
    ;
}

/// A batch keeps the record well formed, pays out of the escrow balance
/// exactly what it reports, never pays more attempts than it makes, and
/// touches nothing of the top-level record but the escrow balance.
pub proof fn lemma_payroll_batch_accounts(
    r: RecordView,
    caller: Address,
    indices: Seq<u32>,
    now: u64,
)
    requires
        r.wf(),
    ensures
        after_payroll_batch(r, caller, indices, now).wf(),
        payroll_batch_total(r, caller, indices, now) == r.info.escrow_balance
            - after_payroll_batch(r, caller, indices, now).info.escrow_balance,
        0 <= payroll_batch_total(r, caller, indices, now) <= r.info.escrow_balance,
        0 <= payroll_batch_successes(r, caller, indices, now) <= indices.len(),
        after_payroll_batch(r, caller, indices, now).info == (Agreement {
            escrow_balance: after_payroll_batch(r, caller, indices, now).info.escrow_balance,
            ..r.info
        }),
        after_payroll_batch(r, caller, indices, now).employees.len() == r.employees.len(),
    decreases indices.len(),
{
    if indices.len() > 0 {
        let front = indices.drop_last();
        lemma_payroll_batch_accounts(r, caller, front, now);
        let before = after_payroll_batch(r, caller, front, now);
        if payroll_claim_error(before, caller, indices.last(), now) is None {
            lemma_payroll_claim_step(before, caller, indices.last(), now);
        }
    }
}

impl AgreementRecord {
    /// Pays employee `index` the salary for every period passed and not yet
    /// paid, and returns the payment.
    pub(crate) fn claim_payroll(&mut self, caller: Address, index: u32, now: u64) -> (res: Result<
        i128,
        PayrollError,
    >)
        requires
            old(self)@.wf(),
        ensures
            final(self)@.wf(),
            match res {
                Ok(amount) => {
                    &&& payroll_claim_error(old(self)@, caller, index, now) is None
                    &&& amount == payroll_claim_amount(old(self)@, index, now)
                    &&& amount > 0
                    &&& final(self)@ == after_payroll_claim(old(self)@, index, now)
                },
                Err(e) => {
                    &&& payroll_claim_error(old(self)@, caller, index, now) == Some(e)
                    &&& final(self)@ == old(self)@
                },
            },
    {
        if self.info.mode != AgreementMode::Payroll {
            return Err(PayrollError::InvalidData);
        }
        if self.info.status != AgreementStatus::Active {
            return Err(PayrollError::InvalidData);
        }
        if index as usize >= self.employees.len() {
            return Err(PayrollError::InvalidEmployeeIndex);
        }
        let k: usize = index as usize;
        let employee = self.employees[k];
        if employee.address != caller {
            return Err(PayrollError::NotAuthorized);
        }
        let start = self.info.activated_at.unwrap();
        let due: u64 = if now <= start || self.info.period_duration == 0 {
            0
        } else {
            (now - start) / self.info.period_duration
        };
        if due <= employee.claimed_periods as u64 {
            return Err(PayrollError::NoPeriodsToClaim);
        }
        if due > u32::MAX as u64 {
            return Err(PayrollError::Overflow);
        }
        let earned: u64 = due - employee.claimed_periods as u64;
        let amount: i128 = match employee.salary.checked_mul(earned as i128) {
            Some(a) => a,
            None => {
                return Err(PayrollError::Overflow);
            },
        };
        if self.info.escrow_balance < amount {
            return Err(PayrollError::InsufficientFunds);
        }
        proof {
            lemma_payroll_claim_step(self@, caller, index, now);
        }
        self.employees[k].claimed_periods = due as u32;
        self.info.escrow_balance = self.info.escrow_balance - amount;
        Ok(amount)
    }

    /// Attempts a claim for each index of `indices` from left to right, all
    /// on behalf of `caller`. A refused attempt counts as a failure and
    /// changes nothing; the others are paid as single claims are.
    pub(crate) fn batch_claim_payroll(&mut self, caller: Address, indices: &Vec<u32>, now: u64)
        -> (res: Result<BatchClaimResult, PayrollError>)
        requires
            old(self)@.wf(),
            indices@.len() <= u32::MAX,
        ensures
            final(self)@.wf(),
            match res {
                Ok(report) => {
                    &&& payroll_claim_gate(old(self)@) is None
                    &&& report.successful_claims == payroll_batch_successes(
                        old(self)@,
                        caller,
                        indices@,
                        now,
                    )
                    &&& report.failed_claims == indices@.len() - payroll_batch_successes(
                        old(self)@,
                        caller,
                        indices@,
                        now,
                    )
                    &&& report.total_claimed == payroll_batch_total(
                        old(self)@,
                        caller,
                        indices@,
                        now,
                    )
                    &&& final(self)@ == after_payroll_batch(old(self)@, caller, indices@, now)
                },
                Err(e) => {
                    &&& payroll_claim_gate(old(self)@) == Some(e)
                    &&& final(self)@ == old(self)@
                },
            },
    {
        if self.info.mode != AgreementMode::Payroll {
            return Err(PayrollError::InvalidData);
        }
        if self.info.status != AgreementStatus::Active {
            return Err(PayrollError::InvalidData);
        }
        let ghost start = self@;
        let mut successful: u32 = 0;
        let mut failed: u32 = 0;
        let mut total: i128 = 0;
        let mut p: usize = 0;
        while p < indices.len()
            invariant
                p <= indices@.len(),
                indices@.len() <= u32::MAX,
                start.wf(),
                self@.wf(),
                self@ == after_payroll_batch(start, caller, indices@.take(p as int), now),
                successful == payroll_batch_successes(start, caller, indices@.take(p as int), now),
                failed == p - successful,
                total == payroll_batch_total(start, caller, indices@.take(p as int), now),
            decreases indices@.len() - p,
        {
            let index = indices[p];
            proof {
                let front = indices@.take(p as int);
                let next = indices@.take(p + 1);
                assert(next.drop_last() =~= front);
                assert(next.last() == index);
                lemma_payroll_batch_accounts(start, caller, front, now);
                lemma_payroll_batch_accounts(start, caller, next, now);
            }
            match self.claim_payroll(caller, index, now) {
                Ok(amount) => {
                    total = total + amount;
                    successful = successful + 1;
                },
                Err(_) => {
                    failed = failed + 1;
                },
            }
            p += 1;
        }
        proof {
            assert(indices@.take(p as int) =~= indices@);
        }
        Ok(BatchClaimResult { successful_claims: successful, failed_claims: failed, total_claimed: total })
    }
}

impl PayrollContract {
    /// Pays employee `employee_index` of an active payroll agreement the
    /// salary for every whole period since activation that was not paid
    /// before, out of the agreement's escrow balance, and returns the
    /// payment. `caller` must be that employee.
    pub fn claim_payroll(
        &mut self,
        caller: Address,
        agreement_id: u128,
        employee_index: u32,
        now: u64,
    ) -> (res: Result<i128, PayrollError>)
        requires
            old(self)@.wf(),
        ensures
            final(self)@.wf(),
            final(self)@ == after_claim_call(
                old(self)@,
                ClaimCall::Payroll { caller, agreement_id, employee_index, now },
            ),
            match res {
                Ok(amount) => {
                    &&& refusal(
                        old(self)@.term(agreement_id),
                        payroll_claim_error(
                            old(self)@.term(agreement_id).unwrap(),
                            caller,
                            employee_index,
                            now,
                        ),
                    ) is None
                    &&& amount == payroll_claim_amount(
                        old(self)@.term(agreement_id).unwrap(),
                        employee_index,
                        now,
                    )
                    &&& amount > 0
                    &&& final(self)@ == old(self)@.put_term(
                        agreement_id,
                        after_payroll_claim(
                            old(self)@.term(agreement_id).unwrap(),
                            employee_index,
                            now,
                        ),
                    )
                },
                Err(e) => {
                    &&& refusal(
                        old(self)@.term(agreement_id),
                        payroll_claim_error(
                            old(self)@.term(agreement_id).unwrap(),
                            caller,
                            employee_index,
                            now,
                        ),
                    ) == Some(e)
                    &&& final(self)@ == old(self)@
                },
            },
    {
        match self.term_slot(agreement_id) {
            Some(i) => {
                let res = self.agreements[i].claim_payroll(caller, employee_index, now);
                proof {
                    lemma_term_replaced(*old(self), *self, i as int);
                }
                res
            },
            None => Err(PayrollError::AgreementNotFound),
        }
    }

    /// Attempts a payroll claim for each index of `indices`, from left to
    /// right, all on behalf of `caller`. If the agreement is not an active
    /// payroll agreement the whole call is refused. Otherwise an attempt
    /// that a single claim would refuse counts as a failure and changes
    /// nothing, and every other attempt is paid as a single claim is. The
    /// list may hold as many indices as a claim count can hold.
    pub fn batch_claim_payroll(
        &mut self,
        caller: Address,
        agreement_id: u128,
        indices: &Vec<u32>,
        now: u64,
    ) -> (res: Result<BatchClaimResult, PayrollError>)
        requires
            old(self)@.wf(),
            indices@.len() <= u32::MAX,
        ensures
            final(self)@.wf(),
            final(self)@ == after_claim_call(
                old(self)@,
                ClaimCall::PayrollBatch { caller, agreement_id, indices: indices@, now },
            ),
            match res {
                Ok(report) => {
                    &&& refusal(
                        old(self)@.term(agreement_id),
                        payroll_claim_gate(old(self)@.term(agreement_id).unwrap()),
                    ) is None
                    &&& report.successful_claims == payroll_batch_successes(
                        old(self)@.term(agreement_id).unwrap(),
                        caller,
                        indices@,
                        now,
                    )
                    &&& report.failed_claims == indices@.len() - report.successful_claims
                    &&& report.total_claimed == payroll_batch_total(
                        old(self)@.term(agreement_id).unwrap(),
                        caller,
                        indices@,
                        now,
                    )
                    &&& final(self)@ == old(self)@.put_term(
                        agreement_id,
                        after_payroll_batch(
                            old(self)@.term(agreement_id).unwrap(),
                            caller,
                            indices@,
                            now,
                        ),
                    )
                },
                Err(e) => {
                    &&& refusal(
                        old(self)@.term(agreement_id),
                        payroll_claim_gate(old(self)@.term(agreement_id).unwrap()),
                    ) == Some(e)
                    &&& final(self)@ == old(self)@
                },
            },
    {
        match self.term_slot(agreement_id) {
            Some(i) => {
                let res = self.agreements[i].batch_claim_payroll(caller, indices, now);
                proof {
                    lemma_payroll_batch_accounts(
                        old(self)@.term(agreement_id).unwrap(),
                        caller,
                        indices@,
                        now,
                    );
                    lemma_term_replaced(*old(self), *self, i as int);
                }
                res
            },
            None => Err(PayrollError::AgreementNotFound),
        }
    }
}

} // verus!
