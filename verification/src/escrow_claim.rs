//! The escrow claim engine: one contributor, a fixed number of periods, and
//! a grace window after cancellation.

use vstd::prelude::*;
use crate::address::Address;
use crate::claims::{ClaimCall, after_claim_call};
use crate::contract::{PayrollContract, lemma_term_replaced, refusal};
use crate::storage::{
    Agreement, AgreementMode, AgreementRecord, AgreementStatus, EscrowTerms, PayrollError,
    RecordView, periods_elapsed,
};

verus! {

/// The last instant at which a cancelled agreement still pays: the
/// cancellation time plus the grace period.
pub open spec fn grace_period_end(info: Agreement) -> int
    recommends
        info.cancelled_at is Some,
{
    info.cancelled_at.unwrap() + info.grace_period_seconds
}

/// The agreement is cancelled and `now` has not passed the end of its grace
/// window.
pub open spec fn grace_period_active(info: Agreement, now: u64) -> bool {
    &&& info.status is Cancelled
    &&& info.cancelled_at is Some
    &&& now <= grace_period_end(info)
}

/// The instant up to which periods accrue: `now`, but never later than the
/// cancellation of a cancelled agreement.
pub open spec fn effective_now(info: Agreement, now: u64) -> u64 {
    if info.status is Cancelled && info.cancelled_at is Some && info.cancelled_at.unwrap() < now {
        info.cancelled_at.unwrap()
    } else {
        now
    }
}

/// Periods of an escrow agreement earned up to `now`, paid or not.
pub open spec fn escrow_periods_due(r: RecordView, now: u64) -> int
    recommends
        r.escrow is Some,
        r.info.activated_at is Some,
{
    let elapsed = periods_elapsed(
        r.info.activated_at.unwrap(),
        effective_now(r.info, now),
        r.escrow.unwrap().period_seconds,
    );
    if elapsed < r.escrow.unwrap().num_periods {
        elapsed
    } else {
        r.escrow.unwrap().num_periods as int
    }
}

/// What a claim at `now` pays: the amount per period times the periods
/// earned and not yet paid.
pub open spec fn escrow_claim_amount(r: RecordView, now: u64) -> int
    recommends
        r.escrow is Some,
        r.info.activated_at is Some,
{
    r.escrow.unwrap().amount_per_period * (escrow_periods_due(r, now)
        - r.escrow.unwrap().claimed_periods)
}

/// Why `caller` may not claim from the escrow agreement `r` at `now`, if anything.
pub open spec fn escrow_claim_error(r: RecordView, caller: Address, now: u64) -> Option<
    PayrollError,
> {
    if r.info.mode != AgreementMode::Escrow {
        Some(PayrollError::InvalidData)
    } else if r.info.contributor != Some(caller) {
        Some(PayrollError::NotAuthorized)
    } else if !(r.info.status is Active || r.info.status is Cancelled) {
        Some(PayrollError::InvalidData)
    } else if r.info.status is Cancelled && !grace_period_active(r.info, now) {
        Some(PayrollError::NotInGracePeriod)
    } else if escrow_periods_due(r, now) <= r.escrow.unwrap().claimed_periods {
        Some(PayrollError::NoPeriodsToClaim)
    } else if r.info.escrow_balance < escrow_claim_amount(r, now) {
        Some(PayrollError::InsufficientFunds)
    } else {
        None
    }
}

/// The record after a successful claim at `now`: every earned period is
/// paid, the escrow balance has shrunk by the payment, and an active
/// agreement whose last period is paid is `Completed`.
pub open spec fn after_escrow_claim(r: RecordView, now: u64) -> RecordView
    recommends
        r.escrow is Some,
        r.info.activated_at is Some,
{
    let due = escrow_periods_due(r, now);
    RecordView {
        info: Agreement {
            escrow_balance: (r.info.escrow_balance - escrow_claim_amount(r, now)) as i128,
            status: if r.info.status is Active && due == r.escrow.unwrap().num_periods {
                AgreementStatus::Completed
            } else {
                r.info.status
            },
            ..r.info
        },
        escrow: Some(EscrowTerms { claimed_periods: due as u32, ..r.escrow.unwrap() }),
        ..r
    }
}

/// A product of a positive amount with a count below the committed number
/// of periods stays below the committed total.
proof fn lemma_partial_payment_bound(per_period: int, earned: int, committed: int)
    requires
        per_period > 0,
        0 <= earned <= committed,
    ensures
        0 <= per_period * earned <= per_period * committed,
        earned > 0 ==> per_period * earned > 0,
{
    assert(0 <= per_period * earned <= per_period * committed) by (nonlinear_arith)
        requires
            per_period > 0,
            0 <= earned <= committed,
    ;
    assert(earned > 0 ==> per_period * earned > 0) by (nonlinear_arith)
        requires
            per_period > 0,
    ;
}

impl AgreementRecord {
    /// Periods of this escrow agreement earned up to `now`, paid or not.
    fn escrow_due(&self, now: u64) -> (due: u32)
        requires
            self@.wf(),
            self@.info.mode == AgreementMode::Escrow,
            self@.info.activated_at is Some,
        ensures
            due == escrow_periods_due(self@, now),
            due <= self@.escrow.unwrap().num_periods,
    {
        let terms = self.escrow.unwrap();
        let start = self.info.activated_at.unwrap();
        let until = match self.info.cancelled_at {
            Some(at) => if self.info.status == AgreementStatus::Cancelled && at < now {
                at
            } else {
                now
            },
            None => now,
        };
        if until <= start {
            0
        } else {
            let elapsed: u64 = (until - start) / terms.period_seconds;
            if elapsed < terms.num_periods as u64 {
                elapsed as u32
            } else {
                terms.num_periods
            }
        }
    }

    /// The agreement is cancelled and `now` has not passed the end of its
    /// grace window.
    pub(crate) fn grace_active(&self, now: u64) -> (active: bool)
        ensures
            active == grace_period_active(self@.info, now),
    {
        match self.info.cancelled_at {
            Some(at) => self.info.status == AgreementStatus::Cancelled && (now <= at || now - at
                <= self.info.grace_period_seconds),
            None => false,
        }
    }

    /// Pays the contributor every period earned and not yet paid, and
    /// returns the payment.
    pub(crate) fn claim_time_based(&mut self, caller: Address, now: u64) -> (res: Result<
        i128,
        PayrollError,
    >)
        requires
            old(self)@.wf(),
        ensures
            final(self)@.wf(),
            match res {
                Ok(amount) => {
                    &&& escrow_claim_error(old(self)@, caller, now) is None
                    &&& amount == escrow_claim_amount(old(self)@, now)
                    &&& amount > 0
                    &&& final(self)@ == after_escrow_claim(old(self)@, now)
                },
                Err(e) => {
                    &&& escrow_claim_error(old(self)@, caller, now) == Some(e)
                    &&& final(self)@ == old(self)@
                },
            },
    {
        if self.info.mode != AgreementMode::Escrow {
            return Err(PayrollError::InvalidData);
        }
        if self.info.contributor != Some(caller) {
            return Err(PayrollError::NotAuthorized);
        }
        let cancelled = self.info.status == AgreementStatus::Cancelled;
        if !(self.info.status == AgreementStatus::Active || cancelled) {
            return Err(PayrollError::InvalidData);
        }
        if cancelled && !self.grace_active(now) {
            return Err(PayrollError::NotInGracePeriod);
        }
        let terms = self.escrow.unwrap();
        let due = self.escrow_due(now);
        if due <= terms.claimed_periods {
            return Err(PayrollError::NoPeriodsToClaim);
        }
        let earned: u32 = due - terms.claimed_periods;
        proof {
            lemma_partial_payment_bound(
                terms.amount_per_period as int,
                earned as int,
                terms.num_periods as int,
            );
        }
        let amount: i128 = terms.amount_per_period * (earned as i128);
        if self.info.escrow_balance < amount {
            return Err(PayrollError::InsufficientFunds);
        }
        self.info.escrow_balance = self.info.escrow_balance - amount;
        self.escrow = Some(EscrowTerms { claimed_periods: due, ..terms });
        if !cancelled && due == terms.num_periods {
            self.info.status = AgreementStatus::Completed;
        }
        Ok(amount)
    }
}

impl PayrollContract {
    /// Pays the contributor of an escrow agreement every period earned and
    /// not yet paid, out of the agreement's escrow balance, and returns the
    /// payment. Periods stop accruing at cancellation, and a cancelled
    /// agreement pays only while its grace window is open. `caller` must be
    /// the contributor.
    pub fn claim_time_based(&mut self, caller: Address, agreement_id: u128, now: u64) -> (res:
        Result<i128, PayrollError>)
        requires
            old(self)@.wf(),
        ensures
            final(self)@.wf(),
            final(self)@ == after_claim_call(
                old(self)@,
                ClaimCall::TimeBased { caller, agreement_id, now },
            ),
            match res {
                Ok(amount) => {
                    &&& refusal(
                        old(self)@.term(agreement_id),
                        escrow_claim_error(old(self)@.term(agreement_id).unwrap(), caller, now),
                    ) is None
                    &&& amount == escrow_claim_amount(old(self)@.term(agreement_id).unwrap(), now)
                    &&& amount > 0
                    &&& final(self)@ == old(self)@.put_term(
                        agreement_id,
                        after_escrow_claim(old(self)@.term(agreement_id).unwrap(), now),
                    )
                },
                Err(e) => {
                    &&& refusal(
                        old(self)@.term(agreement_id),
                        escrow_claim_error(old(self)@.term(agreement_id).unwrap(), caller, now),
                    ) == Some(e)
                    &&& final(self)@ == old(self)@
                },
            },
    {
        match self.term_slot(agreement_id) {
            Some(i) => {
                let res = self.agreements[i].claim_time_based(caller, now);
                proof {
                    lemma_term_replaced(*old(self), *self, i as int);
                }
                res
            },
            None => Err(PayrollError::AgreementNotFound),
        }
    }

    /// The periods already paid on an escrow agreement; zero if there is
    /// no such agreement.
    pub fn get_claimed_periods(&self, agreement_id: u128) -> (periods: u32)
        ensures
            periods == match self@.term(agreement_id) {
                Some(r) => match r.escrow {
                    Some(terms) => terms.claimed_periods,
                    None => 0,
                },
                None => 0,
            },
    {
        match self.term_slot(agreement_id) {
            Some(i) => match self.agreements[i].escrow {
                Some(terms) => terms.claimed_periods,
                None => 0,
            },
            None => 0,
        }
    }
}

} // verus!
