//! Taking the engine apart into plain records and putting it together
//! again, so that its state can be kept in a store between calls. What is
//! put together is checked against the engine's invariant first.

use vstd::prelude::*;
use crate::address::Address;
use crate::contract::{ContractView, PayrollContract};
use crate::milestone::lemma_total_take_bound;
use crate::storage::{
    AgreementMode, AgreementRecord, AgreementStatus, DisputeStatus, RecordView, total_amount,
};

verus! {

/// The state that these parts make up.
pub open spec fn assembled(
    owner: Option<Address>,
    arbiter: Option<Address>,
    agreements: Seq<AgreementRecord>,
    milestone_agreements: Seq<AgreementRecord>,
) -> ContractView {
    ContractView {
        owner,
        arbiter,
        agreements: Seq::new(agreements.len(), |i: int| agreements[i]@),
        milestone_agreements: Seq::new(
            milestone_agreements.len(),
            |i: int| milestone_agreements[i]@,
        ),
    }
}

/// The record at position `i` of the table of its mode is well formed, has
/// the id `i + 1` and is of a mode of that table.
pub open spec fn record_fits(r: RecordView, i: int, milestone_table: bool) -> bool {
    &&& r.wf()
    &&& r.info.id == i + 1
    &&& (r.info.mode == AgreementMode::Milestone) == milestone_table
}

impl AgreementRecord {
    /// Whether the employees are numbered from zero with positive salaries.
    fn employees_in_order(&self) -> (ok: bool)
        ensures
            ok == self@.employees_wf(),
    {
        if self.employees.len() > u32::MAX as usize {
            return false;
        }
        let mut j: usize = 0;
        while j < self.employees.len()
            invariant
                j <= self.employees@.len(),
                self.employees@.len() <= u32::MAX,
                self@.employees == self.employees@,
                forall|i: int|
                    0 <= i < j ==> {
                        &&& (#[trigger] self.employees@[i]).index == i
                        &&& self.employees@[i].salary > 0
                    },
            decreases self.employees@.len() - j,
        {
            if self.employees[j].index as usize != j || self.employees[j].salary <= 0 {
                return false;
            }
            j += 1;
        }
        true
    }

    /// Whether the milestones are numbered from one with positive amounts
    /// that add up within the range of amounts, none paid without approval.
    fn milestones_in_order(&self) -> (ok: bool)
        ensures
            ok == self@.milestones_wf(),
    {
        if self.milestones.len() > u32::MAX as usize {
            return false;
        }
        let mut sum: i128 = 0;
        let mut j: usize = 0;
        while j < self.milestones.len()
            invariant
                j <= self.milestones@.len(),
                self.milestones@.len() <= u32::MAX,
                self@.milestones == self.milestones@,
                forall|i: int|
                    0 <= i < j ==> {
                        &&& (#[trigger] self.milestones@[i]).id == i + 1
                        &&& self.milestones@[i].amount > 0
                        &&& self.milestones@[i].claimed ==> self.milestones@[i].approved
                    },
                sum == total_amount(self.milestones@.take(j as int)),
                0 <= sum,
            decreases self.milestones@.len() - j,
        {
            let m = self.milestones[j];
            if m.id as usize != j + 1 || m.amount <= 0 || (m.claimed && !m.approved) {
                return false;
            }
            proof {
                assert(self.milestones@.take(j + 1).drop_last() =~= self.milestones@.take(j as int));
            }
            sum = match sum.checked_add(m.amount) {
                Some(next) => next,
                None => {
                    proof {
                        if self@.milestones_wf() {
                            lemma_total_take_bound(self.milestones@, j + 1);
                        }
                    }
                    return false;
                },
            };
            j += 1;
        }
        proof {
            assert(self.milestones@.take(j as int) =~= self.milestones@);
        }
        true
    }

    /// Whether the sub-records are those that the mode calls for.
    fn mode_in_order(&self) -> (ok: bool)
        ensures
            ok == self@.mode_wf(),
    {
        match self.info.mode {
            AgreementMode::Payroll => {
                self.escrow.is_none() && self.info.contributor.is_none() && self.milestones.len()
                    == 0
            },
            AgreementMode::Escrow => {
                match self.escrow {
                    Some(terms) => {
                        if !(self.info.contributor.is_some() && self.employees.len() == 0
                            && self.milestones.len() == 0 && terms.amount_per_period > 0
                            && terms.period_seconds > 0 && terms.num_periods > 0
                            && terms.claimed_periods <= terms.num_periods
                            && self.info.period_duration == terms.period_seconds) {
                            return false;
                        }
                        terms.amount_per_period.checked_mul(terms.num_periods as i128).is_some()
                    },
                    None => false,
                }
            },
            AgreementMode::Milestone => {
                self.escrow.is_none() && self.info.contributor.is_some() && self.employees.len()
                    == 0 && self.info.activated_at.is_none()
            },
        }
    }

    /// Whether the time stamps agree with the status.
    fn status_in_order(&self) -> (ok: bool)
        requires
            self@.mode_wf(),
        ensures
            ok == self@.status_wf(),
    {
        let created = self.info.status == AgreementStatus::Created;
        let milestone = self.info.mode == AgreementMode::Milestone;
        if created && self.info.activated_at.is_some() {
            return false;
        }
        if !milestone && !created && self.info.activated_at.is_none() {
            return false;
        }
        if milestone && created {
            return false;
        }
        if (self.info.status == AgreementStatus::Cancelled) != self.info.cancelled_at.is_some() {
            return false;
        }
        if self.info.status == AgreementStatus::Completed && self.info.mode
            == AgreementMode::Escrow {
            let terms = self.escrow.unwrap();
            if terms.claimed_periods != terms.num_periods {
                return false;
            }
        }
        true
    }

    /// Whether the record meets the invariant of an agreement's record.
    pub fn is_well_formed(&self) -> (ok: bool)
        ensures
            ok == self@.wf(),
    {
        self.employees_in_order() && self.milestones_in_order() && self.mode_in_order()
            && self.status_in_order() && self.info.escrow_balance >= 0 && ((self.dispute.status
            == DisputeStatus::NoDispute) == self.dispute.raised_at.is_none())
    }
}

/// Whether every record of `table` is well formed and sits at the place
/// its id names, in the table of its mode.
fn table_in_order(table: &Vec<AgreementRecord>, milestone_table: bool) -> (ok: bool)
    ensures
        ok == forall|i: int| 0 <= i < table@.len() ==> record_fits((#[trigger] table@[i])@, i, milestone_table),
{
    let mut i: usize = 0;
    while i < table.len()
        invariant
            i <= table@.len(),
            forall|k: int| 0 <= k < i ==> record_fits((#[trigger] table@[k])@, k, milestone_table),
        decreases table@.len() - i,
    {
        let rec = &table[i];
        if !(rec.is_well_formed() && rec.info.id == i as u128 + 1 && ((rec.info.mode
            == AgreementMode::Milestone) == milestone_table)) {
            assert(!record_fits(table@[i as int]@, i as int, milestone_table));
            return false;
        }
        i += 1;
    }
    true
}

impl PayrollContract {
    /// Puts an engine together from its parts, if they meet the engine's
    /// invariant.
    pub fn from_parts(
        owner: Option<Address>,
        arbiter: Option<Address>,
        agreements: Vec<AgreementRecord>,
        milestone_agreements: Vec<AgreementRecord>,
    ) -> (res: Option<PayrollContract>)
        ensures
            res is Some <==> assembled(owner, arbiter, agreements@, milestone_agreements@).wf(),
            res is Some ==> res.unwrap()@ == assembled(
                owner,
                arbiter,
                agreements@,
                milestone_agreements@,
            ),
    {
        let ghost whole = assembled(owner, arbiter, agreements@, milestone_agreements@);
        if arbiter.is_some() && owner.is_none() {
            return None;
        }
        if !table_in_order(&agreements, false) {
            proof {
                let i = choose|i: int| 0 <= i < agreements@.len() && !record_fits((#[trigger] agreements@[i])@, i, false);
                assert(whole.agreements[i] == agreements@[i]@);
            }
            return None;
        }
        if !table_in_order(&milestone_agreements, true) {
            proof {
                let i = choose|i: int| 0 <= i < milestone_agreements@.len() && !record_fits((#[trigger] milestone_agreements@[i])@, i, true);
                assert(whole.milestone_agreements[i] == milestone_agreements@[i]@);
            }
            return None;
        }
        proof {
            assert forall|i: int| 0 <= i < whole.agreements.len() implies {
                &&& (#[trigger] whole.agreements[i]).wf()
                &&& whole.agreements[i].info.id == i + 1
                &&& whole.agreements[i].info.mode != AgreementMode::Milestone
            } by {
                assert(record_fits(agreements@[i]@, i, false));
            }
            assert forall|i: int| 0 <= i < whole.milestone_agreements.len() implies {
                &&& (#[trigger] whole.milestone_agreements[i]).wf()
                &&& whole.milestone_agreements[i].info.id == i + 1
                &&& whole.milestone_agreements[i].info.mode == AgreementMode::Milestone
            } by {
                assert(record_fits(milestone_agreements@[i]@, i, true));
            }
        }
        Some(PayrollContract { owner, arbiter, agreements, milestone_agreements })
    }

    /// Takes the engine apart: the owner, the arbiter, the payroll and
    /// escrow agreements, and the milestone agreements.
    pub fn into_parts(self) -> (parts: (
        Option<Address>,
        Option<Address>,
        Vec<AgreementRecord>,
        Vec<AgreementRecord>,
    ))
        ensures
            self@ == assembled(parts.0, parts.1, parts.2@, parts.3@),
    {
        (self.owner, self.arbiter, self.agreements, self.milestone_agreements)
    }
}

} // verus!
