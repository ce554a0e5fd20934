//! The life of one agreement: creation, enrolment of employees, activation,
//! pause and resumption, cancellation, and the funding of its escrow.

use vstd::prelude::*;
use crate::address::Address;
use crate::contract::{
    ContractView, PayrollContract, Slot, lemma_milestone_replaced, lemma_term_replaced, refusal,
};
use crate::escrow_claim::{grace_period_active, grace_period_end};
use crate::storage::{
    Agreement, AgreementMode, AgreementRecord, AgreementStatus, DEFAULT_GRACE_PERIOD_SECONDS,
    Dispute, DisputeStatus, EmployeeEntry, EscrowTerms, PayrollError, RecordView,
};

verus! {

/// The dispute record of an agreement that was never disputed.
pub open spec fn no_dispute() -> Dispute {
    Dispute { status: DisputeStatus::NoDispute, raised_at: None }
}

/// A freshly created payroll agreement.
pub open spec fn new_payroll_record(id: u128, employer: Address, token: Address, grace: u64)
    -> RecordView {
    RecordView {
        info: Agreement {
            id,
            employer,
            contributor: None,
            token,
            mode: AgreementMode::Payroll,
            status: AgreementStatus::Created,
            grace_period_seconds: grace,
            activated_at: None,
            cancelled_at: None,
            period_duration: 0,
            escrow_balance: 0,
        },
        escrow: None,
        dispute: no_dispute(),
        employees: Seq::empty(),
        milestones: Seq::empty(),
    }
}

/// Why an escrow agreement with these terms cannot be created, if anything.
pub open spec fn escrow_terms_error(amount_per_period: i128, period_seconds: u64, num_periods: u32)
    -> Option<PayrollError> {
    if amount_per_period <= 0 || period_seconds == 0 || num_periods == 0 {
        Some(PayrollError::InvalidAmount)
    } else if amount_per_period * num_periods > i128::MAX {
        Some(PayrollError::Overflow)
    } else {
        None
    }
}

/// A freshly created escrow agreement.
pub open spec fn new_escrow_record(
    id: u128,
    employer: Address,
    contributor: Address,
    token: Address,
    amount_per_period: i128,
    period_seconds: u64,
    num_periods: u32,
) -> RecordView {
    RecordView {
        info: Agreement {
            id,
            employer,
            contributor: Some(contributor),
            token,
            mode: AgreementMode::Escrow,
            status: AgreementStatus::Created,
            grace_period_seconds: DEFAULT_GRACE_PERIOD_SECONDS,
            activated_at: None,
            cancelled_at: None,
            period_duration: period_seconds,
            escrow_balance: 0,
        },
        escrow: Some(EscrowTerms { amount_per_period, period_seconds, num_periods, claimed_periods: 0 }),
        dispute: no_dispute(),
        employees: Seq::empty(),
        milestones: Seq::empty(),
    }
}

/// A freshly created milestone agreement. It needs no activation: it is
/// `Active` from the start.
pub open spec fn new_milestone_record(
    id: u128,
    employer: Address,
    contributor: Address,
    token: Address,
) -> RecordView {
    RecordView {
        info: Agreement {
            id,
            employer,
            contributor: Some(contributor),
            token,
            mode: AgreementMode::Milestone,
            status: AgreementStatus::Active,
            grace_period_seconds: DEFAULT_GRACE_PERIOD_SECONDS,
            activated_at: None,
            cancelled_at: None,
            period_duration: 0,
            escrow_balance: 0,
        },
        escrow: None,
        dispute: no_dispute(),
        employees: Seq::empty(),
        milestones: Seq::empty(),
    }
}

/// Why `caller` may not enrol an employee with `salary` in `r`, if anything.
pub open spec fn add_employee_error(r: RecordView, caller: Address, salary: i128) -> Option<
    PayrollError,
> {
    if r.info.mode != AgreementMode::Payroll {
        Some(PayrollError::InvalidData)
    } else if r.info.employer != caller {
        Some(PayrollError::NotAuthorized)
    } else if !(r.info.status is Created) {
        Some(PayrollError::InvalidData)
    } else if salary <= 0 {
        Some(PayrollError::InvalidAmount)
    } else if r.employees.len() >= u32::MAX {
        Some(PayrollError::Overflow)
    } else {
        None
    }
}

/// Why `caller` may not move `r` out of a status in `from`, if anything:
/// only the employer may, and only from one of those statuses.
pub open spec fn transition_error(r: RecordView, caller: Address, from: Set<AgreementStatus>)
    -> Option<PayrollError> {
    if r.info.employer != caller {
        Some(PayrollError::NotAuthorized)
    } else if !from.contains(r.info.status) {
        Some(PayrollError::InvalidData)
    } else {
        None
    }
}

/// Why `caller` may not activate `r`, if anything.
pub open spec fn activate_error(r: RecordView, caller: Address) -> Option<PayrollError> {
    transition_error(r, caller, set![AgreementStatus::Created])
}

/// Why `caller` may not pause `r`, if anything.
pub open spec fn pause_error(r: RecordView, caller: Address) -> Option<PayrollError> {
    transition_error(r, caller, set![AgreementStatus::Active])
}

/// Why `caller` may not resume `r`, if anything.
pub open spec fn resume_error(r: RecordView, caller: Address) -> Option<PayrollError> {
    transition_error(r, caller, set![AgreementStatus::Paused])
}

/// Why `caller` may not cancel `r`, if anything.
pub open spec fn cancel_error(r: RecordView, caller: Address) -> Option<PayrollError> {
    transition_error(r, caller, set![AgreementStatus::Active, AgreementStatus::Paused])
}

/// `r` with its status replaced.
pub open spec fn with_status(r: RecordView, status: AgreementStatus) -> RecordView {
    RecordView { info: Agreement { status, ..r.info }, ..r }
}

/// `r` after activation at `now`.
pub open spec fn activated(r: RecordView, now: u64) -> RecordView {
    RecordView {
        info: Agreement { status: AgreementStatus::Active, activated_at: Some(now), ..r.info },
        ..r
    }
}

/// `r` after cancellation at `now`.
pub open spec fn cancelled(r: RecordView, now: u64) -> RecordView {
    RecordView {
        info: Agreement { status: AgreementStatus::Cancelled, cancelled_at: Some(now), ..r.info },
        ..r
    }
}

/// Why `caller` may not set the pay period of `r` to `seconds`, if anything.
pub open spec fn set_period_error(r: RecordView, caller: Address, seconds: u64) -> Option<
    PayrollError,
> {
    if r.info.mode != AgreementMode::Payroll {
        Some(PayrollError::InvalidData)
    } else if r.info.employer != caller {
        Some(PayrollError::NotAuthorized)
    } else if seconds == 0 {
        Some(PayrollError::InvalidAmount)
    } else {
        None
    }
}

/// Why `caller` may not set the escrow balance of `r` to `amount` of
/// `token`, if anything.
pub open spec fn set_balance_error(r: RecordView, caller: Address, token: Address, amount: i128)
    -> Option<PayrollError> {
    if r.info.employer != caller {
        Some(PayrollError::NotAuthorized)
    } else if r.info.token != token {
        Some(PayrollError::InvalidData)
    } else if amount < 0 {
        Some(PayrollError::InvalidAmount)
    } else {
        None
    }
}

impl AgreementRecord {
    /// A payroll agreement in status `Created`, with no employees, no pay
    /// period and no funds.
    pub(crate) fn new_payroll(id: u128, employer: Address, token: Address, grace: u64) -> (rec:
        AgreementRecord)
        ensures
            rec@ == new_payroll_record(id, employer, token, grace),
            rec@.wf(),
    {
        let rec = AgreementRecord {
            info: Agreement {
                id,
                employer,
                contributor: None,
                token,
                mode: AgreementMode::Payroll,
                status: AgreementStatus::Created,
                grace_period_seconds: grace,
                activated_at: None,
                cancelled_at: None,
                period_duration: 0,
                escrow_balance: 0,
            },
            escrow: None,
            dispute: Dispute { status: DisputeStatus::NoDispute, raised_at: None },
            employees: Vec::new(),
            milestones: Vec::new(),
        };
        assert(rec@.employees =~= Seq::empty());
        assert(rec@.milestones =~= Seq::empty());
        rec
    }

    /// An escrow agreement in status `Created`, with nothing paid and no funds.
    pub(crate) fn new_escrow(
        id: u128,
        employer: Address,
        contributor: Address,
        token: Address,
        amount_per_period: i128,
        period_seconds: u64,
        num_periods: u32,
    ) -> (res: Result<AgreementRecord, PayrollError>)
        ensures
            match res {
                Ok(rec) => {
                    &&& escrow_terms_error(amount_per_period, period_seconds, num_periods) is None
                    &&& rec@ == new_escrow_record(
                        id,
                        employer,
                        contributor,
                        token,
                        amount_per_period,
                        period_seconds,
                        num_periods,
                    )
                    &&& rec@.wf()
                },
                Err(e) => escrow_terms_error(amount_per_period, period_seconds, num_periods)
                    == Some(e),
            },
    {
        if amount_per_period <= 0 || period_seconds == 0 || num_periods == 0 {
            return Err(PayrollError::InvalidAmount);
        }
        if amount_per_period.checked_mul(num_periods as i128).is_none() {
            assert(amount_per_period * num_periods >= 0) by (nonlinear_arith)
                requires
                    amount_per_period > 0,
                    num_periods > 0,
            ;
            return Err(PayrollError::Overflow);
        }
        let rec = AgreementRecord {
            info: Agreement {
                id,
                employer,
                contributor: Some(contributor),
                token,
                mode: AgreementMode::Escrow,
                status: AgreementStatus::Created,
                grace_period_seconds: DEFAULT_GRACE_PERIOD_SECONDS,
                activated_at: None,
                cancelled_at: None,
                period_duration: period_seconds,
                escrow_balance: 0,
            },
            escrow: Some(
                EscrowTerms { amount_per_period, period_seconds, num_periods, claimed_periods: 0 },
            ),
            dispute: Dispute { status: DisputeStatus::NoDispute, raised_at: None },
            employees: Vec::new(),
            milestones: Vec::new(),
        };
        assert(rec@.employees =~= Seq::empty());
        assert(rec@.milestones =~= Seq::empty());
        Ok(rec)
    }

    /// A milestone agreement, `Active` from the start, with no milestones
    /// and no funds.
    pub(crate) fn new_milestone(id: u128, employer: Address, contributor: Address, token: Address)
        -> (rec: AgreementRecord)
        ensures
            rec@ == new_milestone_record(id, employer, contributor, token),
            rec@.wf(),
    {
        let rec = AgreementRecord {
            info: Agreement {
                id,
                employer,
                contributor: Some(contributor),
                token,
                mode: AgreementMode::Milestone,
                status: AgreementStatus::Active,
                grace_period_seconds: DEFAULT_GRACE_PERIOD_SECONDS,
                activated_at: None,
                cancelled_at: None,
                period_duration: 0,
                escrow_balance: 0,
            },
            escrow: None,
            dispute: Dispute { status: DisputeStatus::NoDispute, raised_at: None },
            employees: Vec::new(),
            milestones: Vec::new(),
        };
        assert(rec@.employees =~= Seq::empty());
        assert(rec@.milestones =~= Seq::empty());
        rec
    }

    /// Enrols `employee` with `salary` and returns the index given to it:
    /// the number of employees enrolled before.
    pub(crate) fn add_employee(&mut self, caller: Address, employee: Address, salary: i128) -> (res:
        Result<u32, PayrollError>)
        requires
            old(self)@.wf(),
        ensures
            final(self)@.wf(),
            match res {
                Ok(index) => {
                    &&& add_employee_error(old(self)@, caller, salary) is None
                    &&& index == old(self)@.employees.len()
                    &&& final(self)@ == (RecordView {
                        employees: old(self)@.employees.push(
                            EmployeeEntry { index, address: employee, salary, claimed_periods: 0 },
                        ),
                        ..old(self)@
                    })
                },
                Err(e) => {
                    &&& add_employee_error(old(self)@, caller, salary) == Some(e)
                    &&& final(self)@ == old(self)@
                },
            },
    {
        if self.info.mode != AgreementMode::Payroll {
            return Err(PayrollError::InvalidData);
        }
        if self.info.employer != caller {
            return Err(PayrollError::NotAuthorized);
        }
        if self.info.status != AgreementStatus::Created {
            return Err(PayrollError::InvalidData);
        }
        if salary <= 0 {
            return Err(PayrollError::InvalidAmount);
        }
        if self.employees.len() >= u32::MAX as usize {
            return Err(PayrollError::Overflow);
        }
        let index: u32 = self.employees.len() as u32;
        self.employees.push(EmployeeEntry { index, address: employee, salary, claimed_periods: 0 });
        Ok(index)
    }

    /// Moves a `Created` agreement to `Active` and records `now` as its
    /// activation time.
    pub(crate) fn activate(&mut self, caller: Address, now: u64) -> (res: Result<(), PayrollError>)
        requires
            old(self)@.wf(),
        ensures
            final(self)@.wf(),
            match res {
                Ok(_) => {
                    &&& activate_error(old(self)@, caller) is None
                    &&& final(self)@ == activated(old(self)@, now)
                },
                Err(e) => {
                    &&& activate_error(old(self)@, caller) == Some(e)
                    &&& final(self)@ == old(self)@
                },
            },
    {
        if self.info.employer != caller {
            return Err(PayrollError::NotAuthorized);
        }
        if self.info.status != AgreementStatus::Created {
            return Err(PayrollError::InvalidData);
        }
        self.info.status = AgreementStatus::Active;
        self.info.activated_at = Some(now);
        Ok(())
    }

    /// Moves an `Active` agreement to `Paused`.
    pub(crate) fn pause(&mut self, caller: Address) -> (res: Result<(), PayrollError>)
        requires
            old(self)@.wf(),
        ensures
            final(self)@.wf(),
            match res {
                Ok(_) => {
                    &&& pause_error(old(self)@, caller) is None
                    &&& final(self)@ == with_status(old(self)@, AgreementStatus::Paused)
                },
                Err(e) => {
                    &&& pause_error(old(self)@, caller) == Some(e)
                    &&& final(self)@ == old(self)@
                },
            },
    {
        if self.info.employer != caller {
            return Err(PayrollError::NotAuthorized);
        }
        if self.info.status != AgreementStatus::Active {
            return Err(PayrollError::InvalidData);
        }
        self.info.status = AgreementStatus::Paused;
        Ok(())
    }

    /// Moves a `Paused` agreement back to `Active`.
    pub(crate) fn resume(&mut self, caller: Address) -> (res: Result<(), PayrollError>)
        requires
            old(self)@.wf(),
        ensures
            final(self)@.wf(),
            match res {
                Ok(_) => {
                    &&& resume_error(old(self)@, caller) is None
                    &&& final(self)@ == with_status(old(self)@, AgreementStatus::Active)
                },
                Err(e) => {
                    &&& resume_error(old(self)@, caller) == Some(e)
                    &&& final(self)@ == old(self)@
                },
            },
    {
        if self.info.employer != caller {
            return Err(PayrollError::NotAuthorized);
        }
        if self.info.status != AgreementStatus::Paused {
            return Err(PayrollError::InvalidData);
        }
        self.info.status = AgreementStatus::Active;
        Ok(())
    }

    /// Moves an `Active` or `Paused` agreement to `Cancelled` and records
    /// `now` as its cancellation time.
    pub(crate) fn cancel(&mut self, caller: Address, now: u64) -> (res: Result<(), PayrollError>)
        requires
            old(self)@.wf(),
        ensures
            final(self)@.wf(),
            match res {
                Ok(_) => {
                    &&& cancel_error(old(self)@, caller) is None
                    &&& final(self)@ == cancelled(old(self)@, now)
                },
                Err(e) => {
                    &&& cancel_error(old(self)@, caller) == Some(e)
                    &&& final(self)@ == old(self)@
                },
            },
    {
        if self.info.employer != caller {
            return Err(PayrollError::NotAuthorized);
        }
        if !(self.info.status == AgreementStatus::Active || self.info.status
            == AgreementStatus::Paused) {
            return Err(PayrollError::InvalidData);
        }
        self.info.status = AgreementStatus::Cancelled;
        self.info.cancelled_at = Some(now);
        Ok(())
    }

    /// The end of the grace window of a cancelled agreement, capped at the
    /// largest time stamp; `None` for an agreement that is not cancelled.
    pub(crate) fn grace_end(&self) -> (end: Option<u64>)
        requires
            self@.wf(),
        ensures
            end is Some <==> self@.info.status is Cancelled,
            end is Some ==> end.unwrap() == if grace_period_end(self@.info) <= u64::MAX {
                grace_period_end(self@.info)
            } else {
                u64::MAX as int
            },
    {
        match self.info.cancelled_at {
            Some(at) => Some(at.saturating_add(self.info.grace_period_seconds)),
            None => None,
        }
    }

    /// Sets the length of the pay period of a payroll agreement.
    pub(crate) fn set_period_duration(&mut self, caller: Address, seconds: u64) -> (res: Result<
        (),
        PayrollError,
    >)
        requires
            old(self)@.wf(),
        ensures
            final(self)@.wf(),
            match res {
                Ok(_) => {
                    &&& set_period_error(old(self)@, caller, seconds) is None
                    &&& final(self)@ == (RecordView {
                        info: Agreement { period_duration: seconds, ..old(self)@.info },
                        ..old(self)@
                    })
                },
                Err(e) => {
                    &&& set_period_error(old(self)@, caller, seconds) == Some(e)
                    &&& final(self)@ == old(self)@
                },
            },
    {
        if self.info.mode != AgreementMode::Payroll {
            return Err(PayrollError::InvalidData);
        }
        if self.info.employer != caller {
            return Err(PayrollError::NotAuthorized);
        }
        if seconds == 0 {
            return Err(PayrollError::InvalidAmount);
        }
        self.info.period_duration = seconds;
        Ok(())
    }

    /// Sets the funds earmarked for the agreement.
    pub(crate) fn set_escrow_balance(&mut self, caller: Address, token: Address, amount: i128)
        -> (res: Result<(), PayrollError>)
        requires
            old(self)@.wf(),
        ensures
            final(self)@.wf(),
            match res {
                Ok(_) => {
                    &&& set_balance_error(old(self)@, caller, token, amount) is None
                    &&& final(self)@ == (RecordView {
                        info: Agreement { escrow_balance: amount, ..old(self)@.info },
                        ..old(self)@
                    })
                },
                Err(e) => {
                    &&& set_balance_error(old(self)@, caller, token, amount) == Some(e)
                    &&& final(self)@ == old(self)@
                },
            },
    {
        if self.info.employer != caller {
            return Err(PayrollError::NotAuthorized);
        }
        if self.info.token != token {
            return Err(PayrollError::InvalidData);
        }
        if amount < 0 {
            return Err(PayrollError::InvalidAmount);
        }
        self.info.escrow_balance = amount;
        Ok(())
    }
}

/// The addresses of the employees in `employees`, in order of enrolment.
pub open spec fn employee_addresses(employees: Seq<EmployeeEntry>) -> Seq<Address> {
    employees.map_values(|e: EmployeeEntry| e.address)
}

impl PayrollContract {
    /// Creates a payroll agreement for `employer`, who is the caller, and
    /// returns its id: the next of the ids that payroll and escrow
    /// agreements share.
    pub fn create_payroll_agreement(
        &mut self,
        employer: Address,
        token: Address,
        grace_period_seconds: u64,
    ) -> (id: u128)
        requires
            old(self)@.wf(),
        ensures
            final(self)@.wf(),
            id == old(self)@.agreements.len() + 1,
            final(self)@ == (ContractView {
                agreements: old(self)@.agreements.push(
                    new_payroll_record(id, employer, token, grace_period_seconds),
                ),
                ..old(self)@
            }),
    {
        let id: u128 = self.agreements.len() as u128 + 1;
        let rec = AgreementRecord::new_payroll(id, employer, token, grace_period_seconds);
        self.agreements.push(rec);
        proof {
            assert(self@.agreements =~= old(self)@.agreements.push(rec@));
            assert(self@.milestone_agreements =~= old(self)@.milestone_agreements);
        }
        id
    }

    /// Creates an escrow agreement between `employer`, who is the caller,
    /// and `contributor`, and returns its id: the next of the ids that
    /// payroll and escrow agreements share. The amount per period, the
    /// period length and the number of periods must be positive, and the
    /// committed total must fit the amount type.
    pub fn create_escrow_agreement(
        &mut self,
        employer: Address,
        contributor: Address,
        token: Address,
        amount_per_period: i128,
        period_seconds: u64,
        num_periods: u32,
    ) -> (res: Result<u128, PayrollError>)
        requires
            old(self)@.wf(),
        ensures
            final(self)@.wf(),
            match res {
                Ok(id) => {
                    &&& escrow_terms_error(amount_per_period, period_seconds, num_periods) is None
                    &&& id == old(self)@.agreements.len() + 1
                    &&& final(self)@ == (ContractView {
                        agreements: old(self)@.agreements.push(
                            new_escrow_record(
                                id,
                                employer,
                                contributor,
                                token,
                                amount_per_period,
                                period_seconds,
                                num_periods,
                            ),
                        ),
                        ..old(self)@
                    })
                },
                Err(e) => {
                    &&& escrow_terms_error(amount_per_period, period_seconds, num_periods)
                        == Some(e)
                    &&& final(self)@ == old(self)@
                },
            },
    {
        let id: u128 = self.agreements.len() as u128 + 1;
        let rec = match AgreementRecord::new_escrow(
            id,
            employer,
            contributor,
            token,
            amount_per_period,
            period_seconds,
            num_periods,
        ) {
            Ok(rec) => rec,
            Err(e) => {
                return Err(e);
            },
        };
        self.agreements.push(rec);
        proof {
            assert(self@.agreements =~= old(self)@.agreements.push(rec@));
            assert(self@.milestone_agreements =~= old(self)@.milestone_agreements);
        }
        Ok(id)
    }

    /// Creates a milestone agreement between `employer`, who is the caller,
    /// and `contributor`, and returns its id: the next of the ids of
    /// milestone agreements. The agreement is `Active` from the start.
    pub fn create_milestone_agreement(
        &mut self,
        employer: Address,
        contributor: Address,
        token: Address,
    ) -> (id: u128)
        requires
            old(self)@.wf(),
        ensures
            final(self)@.wf(),
            id == old(self)@.milestone_agreements.len() + 1,
            final(self)@ == (ContractView {
                milestone_agreements: old(self)@.milestone_agreements.push(
                    new_milestone_record(id, employer, contributor, token),
                ),
                ..old(self)@
            }),
    {
        let id: u128 = self.milestone_agreements.len() as u128 + 1;
        let rec = AgreementRecord::new_milestone(id, employer, contributor, token);
        self.milestone_agreements.push(rec);
        proof {
            assert(self@.milestone_agreements =~= old(self)@.milestone_agreements.push(rec@));
            assert(self@.agreements =~= old(self)@.agreements);
        }
        id
    }

    /// Enrols `employee` with `salary` in a payroll agreement that is still
    /// `Created`, on behalf of its employer, and returns the employee's index.
    pub fn add_employee_to_agreement(
        &mut self,
        caller: Address,
        agreement_id: u128,
        employee: Address,
        salary: i128,
    ) -> (res: Result<u32, PayrollError>)
        requires
            old(self)@.wf(),
        ensures
            final(self)@.wf(),
            match res {
                Ok(index) => {
                    &&& refusal(
                        old(self)@.term(agreement_id),
                        add_employee_error(old(self)@.term(agreement_id).unwrap(), caller, salary),
                    ) is None
                    &&& index == old(self)@.term(agreement_id).unwrap().employees.len()
                    &&& final(self)@ == old(self)@.put_term(
                        agreement_id,
                        RecordView {
                            employees: old(self)@.term(agreement_id).unwrap().employees.push(
                                EmployeeEntry {
                                    index,
                                    address: employee,
                                    salary,
                                    claimed_periods: 0,
                                },
                            ),
                            ..old(self)@.term(agreement_id).unwrap()
                        },
                    )
                },
                Err(e) => {
                    &&& refusal(
                        old(self)@.term(agreement_id),
                        add_employee_error(old(self)@.term(agreement_id).unwrap(), caller, salary),
                    ) == Some(e)
                    &&& final(self)@ == old(self)@
                },
            },
    {
        match self.term_slot(agreement_id) {
            Some(i) => {
                let res = self.agreements[i].add_employee(caller, employee, salary);
                proof {
                    lemma_term_replaced(*old(self), *self, i as int);
                }
                res
            },
            None => Err(PayrollError::AgreementNotFound),
        }
    }

    /// Activates a `Created` agreement on behalf of its employer and
    /// records `now` as its activation time.
    pub fn activate_agreement(&mut self, caller: Address, agreement_id: u128, now: u64) -> (res:
        Result<(), PayrollError>)
        requires
            old(self)@.wf(),
        ensures
            final(self)@.wf(),
            match res {
                Ok(_) => {
                    &&& refusal(
                        old(self)@.lookup(agreement_id),
                        activate_error(old(self)@.lookup(agreement_id).unwrap(), caller),
                    ) is None
                    &&& final(self)@ == old(self)@.put(
                        agreement_id,
                        activated(old(self)@.lookup(agreement_id).unwrap(), now),
                    )
                },
                Err(e) => {
                    &&& refusal(
                        old(self)@.lookup(agreement_id),
                        activate_error(old(self)@.lookup(agreement_id).unwrap(), caller),
                    ) == Some(e)
                    &&& final(self)@ == old(self)@
                },
            },
    {
        match self.locate(agreement_id) {
            Slot::Term(i) => {
                let res = self.agreements[i].activate(caller, now);
                proof {
                    lemma_term_replaced(*old(self), *self, i as int);
                }
                res
            },
            Slot::Milestone(i) => {
                let res = self.milestone_agreements[i].activate(caller, now);
                proof {
                    lemma_milestone_replaced(*old(self), *self, i as int);
                }
                res
            },
            Slot::Missing => Err(PayrollError::AgreementNotFound),
        }
    }

    /// Pauses an `Active` agreement on behalf of its employer.
    pub fn pause_agreement(&mut self, caller: Address, agreement_id: u128) -> (res: Result<
        (),
        PayrollError,
    >)
        requires
            old(self)@.wf(),
        ensures
            final(self)@.wf(),
            match res {
                Ok(_) => {
                    &&& refusal(
                        old(self)@.lookup(agreement_id),
                        pause_error(old(self)@.lookup(agreement_id).unwrap(), caller),
                    ) is None
                    &&& final(self)@ == old(self)@.put(
                        agreement_id,
                        with_status(
                            old(self)@.lookup(agreement_id).unwrap(),
                            AgreementStatus::Paused,
                        ),
                    )
                },
                Err(e) => {
                    &&& refusal(
                        old(self)@.lookup(agreement_id),
                        pause_error(old(self)@.lookup(agreement_id).unwrap(), caller),
                    ) == Some(e)
                    &&& final(self)@ == old(self)@
                },
            },
    {
        match self.locate(agreement_id) {
            Slot::Term(i) => {
                let res = self.agreements[i].pause(caller);
                proof {
                    lemma_term_replaced(*old(self), *self, i as int);
                }
                res
            },
            Slot::Milestone(i) => {
                let res = self.milestone_agreements[i].pause(caller);
                proof {
                    lemma_milestone_replaced(*old(self), *self, i as int);
                }
                res
            },
            Slot::Missing => Err(PayrollError::AgreementNotFound),
        }
    }

    /// Resumes a `Paused` agreement on behalf of its employer.
    pub fn resume_agreement(&mut self, caller: Address, agreement_id: u128) -> (res: Result<
        (),
        PayrollError,
    >)
        requires
            old(self)@.wf(),
        ensures
            final(self)@.wf(),
            match res {
                Ok(_) => {
                    &&& refusal(
                        old(self)@.lookup(agreement_id),
                        resume_error(old(self)@.lookup(agreement_id).unwrap(), caller),
                    ) is None
                    &&& final(self)@ == old(self)@.put(
                        agreement_id,
                        with_status(
                            old(self)@.lookup(agreement_id).unwrap(),
                            AgreementStatus::Active,
                        ),
                    )
                },
                Err(e) => {
                    &&& refusal(
                        old(self)@.lookup(agreement_id),
                        resume_error(old(self)@.lookup(agreement_id).unwrap(), caller),
                    ) == Some(e)
                    &&& final(self)@ == old(self)@
                },
            },
    {
        match self.locate(agreement_id) {
            Slot::Term(i) => {
                let res = self.agreements[i].resume(caller);
                proof {
                    lemma_term_replaced(*old(self), *self, i as int);
                }
                res
            },
            Slot::Milestone(i) => {
                let res = self.milestone_agreements[i].resume(caller);
                proof {
                    lemma_milestone_replaced(*old(self), *self, i as int);
                }
                res
            },
            Slot::Missing => Err(PayrollError::AgreementNotFound),
        }
    }

    /// Cancels an `Active` or `Paused` agreement on behalf of its employer
    /// and records `now` as its cancellation time. What was earned up to
    /// `now` stays claimable until the grace window closes.
    pub fn cancel_agreement(&mut self, caller: Address, agreement_id: u128, now: u64) -> (res:
        Result<(), PayrollError>)
        requires
            old(self)@.wf(),
        ensures
            final(self)@.wf(),
            match res {
                Ok(_) => {
                    &&& refusal(
                        old(self)@.lookup(agreement_id),
                        cancel_error(old(self)@.lookup(agreement_id).unwrap(), caller),
                    ) is None
                    &&& final(self)@ == old(self)@.put(
                        agreement_id,
                        cancelled(old(self)@.lookup(agreement_id).unwrap(), now),
                    )
                },
                Err(e) => {
                    &&& refusal(
                        old(self)@.lookup(agreement_id),
                        cancel_error(old(self)@.lookup(agreement_id).unwrap(), caller),
                    ) == Some(e)
                    &&& final(self)@ == old(self)@
                },
            },
    {
        match self.locate(agreement_id) {
            Slot::Term(i) => {
                let res = self.agreements[i].cancel(caller, now);
                proof {
                    lemma_term_replaced(*old(self), *self, i as int);
                }
                res
            },
            Slot::Milestone(i) => {
                let res = self.milestone_agreements[i].cancel(caller, now);
                proof {
                    lemma_milestone_replaced(*old(self), *self, i as int);
                }
                res
            },
            Slot::Missing => Err(PayrollError::AgreementNotFound),
        }
    }

    /// Sets the length of the pay period of a payroll agreement, on behalf
    /// of its employer.
    pub fn set_agreement_period_duration(
        &mut self,
        caller: Address,
        agreement_id: u128,
        seconds: u64,
    ) -> (res: Result<(), PayrollError>)
        requires
            old(self)@.wf(),
        ensures
            final(self)@.wf(),
            match res {
                Ok(_) => {
                    &&& refusal(
                        old(self)@.term(agreement_id),
                        set_period_error(old(self)@.term(agreement_id).unwrap(), caller, seconds),
                    ) is None
                    &&& final(self)@ == old(self)@.put_term(
                        agreement_id,
                        RecordView {
                            info: Agreement {
                                period_duration: seconds,
                                ..old(self)@.term(agreement_id).unwrap().info
                            },
                            ..old(self)@.term(agreement_id).unwrap()
                        },
                    )
                },
                Err(e) => {
                    &&& refusal(
                        old(self)@.term(agreement_id),
                        set_period_error(old(self)@.term(agreement_id).unwrap(), caller, seconds),
                    ) == Some(e)
                    &&& final(self)@ == old(self)@
                },
            },
    {
        match self.term_slot(agreement_id) {
            Some(i) => {
                let res = self.agreements[i].set_period_duration(caller, seconds);
                proof {
                    lemma_term_replaced(*old(self), *self, i as int);
                }
                res
            },
            None => Err(PayrollError::AgreementNotFound),
        }
    }

    /// Sets the funds earmarked for an agreement, in its own token, on
    /// behalf of its employer.
    pub fn set_agreement_escrow_balance(
        &mut self,
        caller: Address,
        agreement_id: u128,
        token: Address,
        amount: i128,
    ) -> (res: Result<(), PayrollError>)
        requires
            old(self)@.wf(),
        ensures
            final(self)@.wf(),
            match res {
                Ok(_) => {
                    &&& refusal(
                        old(self)@.lookup(agreement_id),
                        set_balance_error(
                            old(self)@.lookup(agreement_id).unwrap(),
                            caller,
                            token,
                            amount,
                        ),
                    ) is None
                    &&& final(self)@ == old(self)@.put(
                        agreement_id,
                        RecordView {
                            info: Agreement {
                                escrow_balance: amount,
                                ..old(self)@.lookup(agreement_id).unwrap().info
                            },
                            ..old(self)@.lookup(agreement_id).unwrap()
                        },
                    )
                },
                Err(e) => {
                    &&& refusal(
                        old(self)@.lookup(agreement_id),
                        set_balance_error(
                            old(self)@.lookup(agreement_id).unwrap(),
                            caller,
                            token,
                            amount,
                        ),
                    ) == Some(e)
                    &&& final(self)@ == old(self)@
                },
            },
    {
        match self.locate(agreement_id) {
            Slot::Term(i) => {
                let res = self.agreements[i].set_escrow_balance(caller, token, amount);
                proof {
                    lemma_term_replaced(*old(self), *self, i as int);
                }
                res
            },
            Slot::Milestone(i) => {
                let res = self.milestone_agreements[i].set_escrow_balance(caller, token, amount);
                proof {
                    lemma_milestone_replaced(*old(self), *self, i as int);
                }
                res
            },
            Slot::Missing => Err(PayrollError::AgreementNotFound),
        }
    }

    /// The top-level record of the agreement found under `agreement_id`.
    pub fn get_agreement(&self, agreement_id: u128) -> (found: Option<Agreement>)
        ensures
            found == match self@.lookup(agreement_id) {
                Some(r) => Some(r.info),
                None => None,
            },
    {
        match self.locate(agreement_id) {
            Slot::Term(i) => Some(self.agreements[i].info),
            Slot::Milestone(i) => Some(self.milestone_agreements[i].info),
            Slot::Missing => None,
        }
    }

    /// The addresses of the employees of a payroll agreement, in order of
    /// enrolment; empty if there is no such agreement.
    pub fn get_agreement_employees(&self, agreement_id: u128) -> (list: Vec<Address>)
        ensures
            list@ == match self@.term(agreement_id) {
                Some(r) => employee_addresses(r.employees),
                None => Seq::empty(),
            },
    {
        let mut list: Vec<Address> = Vec::new();
        match self.term_slot(agreement_id) {
            Some(i) => {
                let rec = &self.agreements[i];
                let mut j: usize = 0;
                while j < rec.employees.len()
                    invariant
                        j <= rec.employees@.len(),
                        list@ == employee_addresses(rec.employees@.take(j as int)),
                    decreases rec.employees@.len() - j,
                {
                    list.push(rec.employees[j].address);
                    proof {
                        assert(rec.employees@.take(j + 1) =~= rec.employees@.take(j as int).push(
                            rec.employees@[j as int],
                        ));
                        assert(list@ =~= employee_addresses(rec.employees@.take(j + 1)));
                    }
                    j += 1;
                }
                proof {
                    assert(rec.employees@.take(j as int) =~= rec.employees@);
                }
            },
            None => {},
        }
        list
    }

    /// The periods already paid to employee `index` of a payroll agreement;
    /// zero if there is no such agreement or employee.
    pub fn get_employee_claimed_periods(&self, agreement_id: u128, index: u32) -> (periods: u32)
        ensures
            periods == match self@.term(agreement_id) {
                Some(r) => if index < r.employees.len() {
                    r.employees[index as int].claimed_periods
                } else {
                    0
                },
                None => 0,
            },
    {
        match self.term_slot(agreement_id) {
            Some(i) => {
                if (index as usize) < self.agreements[i].employees.len() {
                    self.agreements[i].employees[index as usize].claimed_periods
                } else {
                    0
                }
            },
            None => 0,
        }
    }

    /// Whether the agreement is cancelled and `now` still lies within its
    /// grace window; `false` if there is no such agreement.
    pub fn is_grace_period_active(&self, agreement_id: u128, now: u64) -> (active: bool)
        ensures
            active == match self@.lookup(agreement_id) {
                Some(r) => grace_period_active(r.info, now),
                None => false,
            },
    {
        match self.locate(agreement_id) {
            Slot::Term(i) => self.agreements[i].grace_active(now),
            Slot::Milestone(i) => self.milestone_agreements[i].grace_active(now),
            Slot::Missing => false,
        }
    }

    /// The end of the grace window of a cancelled agreement: its
    /// cancellation time plus its grace period, capped at the largest time
    /// stamp. `None` if the agreement is missing or not cancelled.
    pub fn get_grace_period_end(&self, agreement_id: u128) -> (end: Option<u64>)
        requires
            self@.wf(),
        ensures
            end is Some <==> self@.lookup(agreement_id) is Some && self@.lookup(
                agreement_id,
            ).unwrap().info.status is Cancelled,
            end is Some ==> end.unwrap() == if grace_period_end(
                self@.lookup(agreement_id).unwrap().info,
            ) <= u64::MAX {
                grace_period_end(self@.lookup(agreement_id).unwrap().info)
            } else {
                u64::MAX as int
            },
    {
        match self.locate(agreement_id) {
            Slot::Term(i) => {
                assert(self@.agreements[i as int].wf());
                self.agreements[i].grace_end()
            },
            Slot::Milestone(i) => {
                assert(self@.milestone_agreements[i as int].wf());
                self.milestone_agreements[i].grace_end()
            },
            Slot::Missing => None,
        }
    }
}

} // verus!
