//! The dispute arbitrator: one dispute per agreement, raised by a party and
//! settled once by the arbiter out of the agreement's escrow.

use vstd::prelude::*;
use crate::address::Address;
use crate::contract::{
    ContractView, PayrollContract, Slot, lemma_milestone_replaced, lemma_term_replaced, refusal,
};
use crate::storage::{
    Agreement, AgreementRecord, Dispute, DisputeStatus, PayrollError, RecordView,
};

verus! {

/// Why `caller` may not raise a dispute on `r`, if anything.
pub open spec fn raise_dispute_error(r: RecordView, caller: Address) -> Option<PayrollError> {
    if !r.is_party(caller) {
        Some(PayrollError::NotAuthorized)
    } else if !(r.dispute.status is NoDispute) {
        Some(PayrollError::DisputeAlreadyRaised)
    } else {
        None
    }
}

/// `r` with a dispute raised at `now`.
pub open spec fn with_dispute_raised(r: RecordView, now: u64) -> RecordView {
    RecordView { dispute: Dispute { status: DisputeStatus::Raised, raised_at: Some(now) }, ..r }
}

/// Why the dispute on `r` may not be settled with these two payments, if
/// anything. That the caller is the arbiter is checked before.
pub open spec fn settle_dispute_error(r: RecordView, to_employer: i128, to_contributor: i128)
    -> Option<PayrollError> {
    if !(r.dispute.status is Raised) {
        Some(PayrollError::NoDispute)
    } else if to_employer < 0 || to_contributor < 0 {
        Some(PayrollError::InvalidAmount)
    } else if to_contributor > 0 && r.info.contributor is None {
        Some(PayrollError::InvalidData)
    } else if to_employer + to_contributor > r.info.escrow_balance {
        Some(PayrollError::InsufficientFunds)
    } else {
        None
    }
}

/// `r` after its dispute was settled with these two payments.
pub open spec fn with_dispute_settled(r: RecordView, to_employer: i128, to_contributor: i128)
    -> RecordView {
    RecordView {
        info: Agreement {
            escrow_balance: (r.info.escrow_balance - to_employer - to_contributor) as i128,
            ..r.info
        },
        dispute: Dispute { status: DisputeStatus::Resolved, ..r.dispute },
        ..r
    }
}

impl AgreementRecord {
    /// `who` is the employer, the contributor or one of the employees.
    pub(crate) fn has_party(&self, who: Address) -> (found: bool)
        ensures
            found == self@.is_party(who),
    {
        if self.info.employer == who || self.info.contributor == Some(who) {
            return true;
        }
        let mut j: usize = 0;
        while j < self.employees.len()
            invariant
                j <= self.employees@.len(),
                self@.employees == self.employees@,
                forall|i: int| 0 <= i < j ==> (#[trigger] self.employees@[i]).address != who,
            decreases self.employees@.len() - j,
        {
            if self.employees[j].address == who {
                return true;
            }
            j += 1;
        }
        false
    }

    /// Opens the agreement's dispute and records `now` as the time it was raised.
    pub(crate) fn raise_dispute(&mut self, caller: Address, now: u64) -> (res: Result<
        (),
        PayrollError,
    >)
        requires
            old(self)@.wf(),
        ensures
            final(self)@.wf(),
            match res {
                Ok(_) => {
                    &&& raise_dispute_error(old(self)@, caller) is None
                    &&& final(self)@ == with_dispute_raised(old(self)@, now)
                },
                Err(e) => {
                    &&& raise_dispute_error(old(self)@, caller) == Some(e)
                    &&& final(self)@ == old(self)@
                },
            },
    {
        if !self.has_party(caller) {
            return Err(PayrollError::NotAuthorized);
        }
        if self.dispute.status != DisputeStatus::NoDispute {
            return Err(PayrollError::DisputeAlreadyRaised);
        }
        self.dispute = Dispute { status: DisputeStatus::Raised, raised_at: Some(now) };
        Ok(())
    }

    /// Settles the raised dispute: both payments leave the escrow balance
    /// and the dispute is `Resolved` for good.
    pub(crate) fn settle_dispute(&mut self, to_employer: i128, to_contributor: i128) -> (res:
        Result<(), PayrollError>)
        requires
            old(self)@.wf(),
        ensures
            final(self)@.wf(),
            match res {
                Ok(_) => {
                    &&& settle_dispute_error(old(self)@, to_employer, to_contributor) is None
                    &&& final(self)@ == with_dispute_settled(
                        old(self)@,
                        to_employer,
                        to_contributor,
                    )
                },
                Err(e) => {
                    &&& settle_dispute_error(old(self)@, to_employer, to_contributor) == Some(e)
                    &&& final(self)@ == old(self)@
                },
            },
    {
        if self.dispute.status != DisputeStatus::Raised {
            return Err(PayrollError::NoDispute);
        }
        if to_employer < 0 || to_contributor < 0 {
            return Err(PayrollError::InvalidAmount);
        }
        if to_contributor > 0 && self.info.contributor.is_none() {
            return Err(PayrollError::InvalidData);
        }
        if to_employer > self.info.escrow_balance || to_contributor > self.info.escrow_balance
            - to_employer {
            return Err(PayrollError::InsufficientFunds);
        }
        self.info.escrow_balance = self.info.escrow_balance - to_employer - to_contributor;
        self.dispute.status = DisputeStatus::Resolved;
        Ok(())
    }
}

/// Why `caller` may not make `arbiter` the arbiter of `c`, if anything.
pub open spec fn set_arbiter_error(c: ContractView, caller: Address) -> Option<PayrollError> {
    if c.owner is None {
        Some(PayrollError::NotInitialized)
    } else if c.owner != Some(caller) {
        Some(PayrollError::NotAuthorized)
    } else if c.arbiter is Some {
        Some(PayrollError::InvalidData)
    } else {
        None
    }
}

/// Why `caller` may not settle the dispute on agreement `id` of `c` with
/// these two payments, if anything: the caller must be the arbiter, the
/// agreement must exist, and the settlement itself must be in order.
pub open spec fn resolve_dispute_error(
    c: ContractView,
    caller: Address,
    id: u128,
    to_employer: i128,
    to_contributor: i128,
) -> Option<PayrollError> {
    if c.arbiter != Some(caller) {
        Some(PayrollError::NotArbiter)
    } else {
        refusal(
            c.lookup(id),
            settle_dispute_error(c.lookup(id).unwrap(), to_employer, to_contributor),
        )
    }
}

impl PayrollContract {
    /// Makes `arbiter` the arbiter of disputes, on behalf of the owner.
    /// This can be done once.
    pub fn set_arbiter(&mut self, caller: Address, arbiter: Address) -> (res: Result<
        (),
        PayrollError,
    >)
        requires
            old(self)@.wf(),
        ensures
            final(self)@.wf(),
            match res {
                Ok(_) => {
                    &&& set_arbiter_error(old(self)@, caller) is None
                    &&& final(self)@ == (ContractView { arbiter: Some(arbiter), ..old(self)@ })
                },
                Err(e) => {
                    &&& set_arbiter_error(old(self)@, caller) == Some(e)
                    &&& final(self)@ == old(self)@
                },
            },
    {
        if self.owner.is_none() {
            return Err(PayrollError::NotInitialized);
        }
        if self.owner != Some(caller) {
            return Err(PayrollError::NotAuthorized);
        }
        if self.arbiter.is_some() {
            return Err(PayrollError::InvalidData);
        }
        self.arbiter = Some(arbiter);
        Ok(())
    }

    /// Opens the dispute of an agreement on behalf of one of its parties
    /// and records `now` as the time it was raised. An agreement's dispute
    /// can be opened once.
    pub fn raise_dispute(&mut self, caller: Address, agreement_id: u128, now: u64) -> (res: Result<
        (),
        PayrollError,
    >)
        requires
            old(self)@.wf(),
        ensures
            final(self)@.wf(),
            match res {
                Ok(_) => {
                    &&& refusal(
                        old(self)@.lookup(agreement_id),
                        raise_dispute_error(old(self)@.lookup(agreement_id).unwrap(), caller),
                    ) is None
                    &&& final(self)@ == old(self)@.put(
                        agreement_id,
                        with_dispute_raised(old(self)@.lookup(agreement_id).unwrap(), now),
                    )
                },
                Err(e) => {
                    &&& refusal(
                        old(self)@.lookup(agreement_id),
                        raise_dispute_error(old(self)@.lookup(agreement_id).unwrap(), caller),
                    ) == Some(e)
                    &&& final(self)@ == old(self)@
                },
            },
    {
        match self.locate(agreement_id) {
            Slot::Term(i) => {
                let res = self.agreements[i].raise_dispute(caller, now);
                proof {
                    lemma_term_replaced(*old(self), *self, i as int);
                }
                res
            },
            Slot::Milestone(i) => {
                let res = self.milestone_agreements[i].raise_dispute(caller, now);
                proof {
                    lemma_milestone_replaced(*old(self), *self, i as int);
                }
                res
            },
            Slot::Missing => Err(PayrollError::AgreementNotFound),
        }
    }

    /// Settles the raised dispute of an agreement on behalf of the arbiter:
    /// `amount_to_employer` and `amount_to_contributor` leave the
    /// agreement's escrow balance, to be paid to the two parties, and the
    /// dispute is `Resolved` for good.
    pub fn resolve_dispute(
        &mut self,
        caller: Address,
        agreement_id: u128,
        amount_to_employer: i128,
        amount_to_contributor: i128,
    ) -> (res: Result<(), PayrollError>)
        requires
            old(self)@.wf(),
        ensures
            final(self)@.wf(),
            match res {
                Ok(_) => {
                    &&& resolve_dispute_error(
                        old(self)@,
                        caller,
                        agreement_id,
                        amount_to_employer,
                        amount_to_contributor,
                    ) is None
                    &&& final(self)@ == old(self)@.put(
                        agreement_id,
                        with_dispute_settled(
                            old(self)@.lookup(agreement_id).unwrap(),
                            amount_to_employer,
                            amount_to_contributor,
                        ),
                    )
                },
                Err(e) => {
                    &&& resolve_dispute_error(
                        old(self)@,
                        caller,
                        agreement_id,
                        amount_to_employer,
                        amount_to_contributor,
                    ) == Some(e)
                    &&& final(self)@ == old(self)@
                },
            },
    {
        if self.arbiter != Some(caller) {
            return Err(PayrollError::NotArbiter);
        }
        match self.locate(agreement_id) {
            Slot::Term(i) => {
                let res = self.agreements[i].settle_dispute(amount_to_employer, amount_to_contributor);
                proof {
                    lemma_term_replaced(*old(self), *self, i as int);
                }
                res
            },
            Slot::Milestone(i) => {
                let res = self.milestone_agreements[i].settle_dispute(
                    amount_to_employer,
                    amount_to_contributor,
                );
                proof {
                    lemma_milestone_replaced(*old(self), *self, i as int);
                }
                res
            },
            Slot::Missing => Err(PayrollError::AgreementNotFound),
        }
    }

    /// The state of the dispute of an agreement; `NoDispute` if there is
    /// no such agreement.
    pub fn get_dispute_status(&self, agreement_id: u128) -> (status: DisputeStatus)
        ensures
            status == match self@.lookup(agreement_id) {
                Some(r) => r.dispute.status,
                None => DisputeStatus::NoDispute,
            },
    {
        match self.locate(agreement_id) {
            Slot::Term(i) => self.agreements[i].dispute.status,
            Slot::Milestone(i) => self.milestone_agreements[i].dispute.status,
            Slot::Missing => DisputeStatus::NoDispute,
        }
    }
}

} // verus!
