//! The state of the whole engine: its configuration and the two tables of
//! agreements, with the rule by which an id finds its record.

use vstd::prelude::*;
use crate::address::Address;
use crate::storage::{AgreementMode, AgreementRecord, PayrollError, RecordView};

verus! {

/// The agreement engine: the owner and the arbiter, the payroll and escrow
/// agreements, and the milestone agreements.
///
/// Payroll and escrow agreements share one sequence of ids, milestone
/// agreements have a sequence of their own; both start at one. A call that
/// is not tied to one mode looks its id up among the payroll and escrow
/// agreements first and among the milestone agreements after that.
pub struct PayrollContract {
    pub(crate) owner: Option<Address>,
    pub(crate) arbiter: Option<Address>,
    pub(crate) agreements: Vec<AgreementRecord>,
    pub(crate) milestone_agreements: Vec<AgreementRecord>,
}

/// The mathematical value of a [`PayrollContract`].
pub struct ContractView {
    pub owner: Option<Address>,
    pub arbiter: Option<Address>,
    /// The payroll and escrow agreements; the one with id `n` is at `n - 1`.
    pub agreements: Seq<RecordView>,
    /// The milestone agreements; the one with id `n` is at `n - 1`.
    pub milestone_agreements: Seq<RecordView>,
}

impl View for PayrollContract {
    type V = ContractView;

    open(crate) spec fn view(&self) -> ContractView {
        ContractView {
            owner: self.owner,
            arbiter: self.arbiter,
            agreements: Seq::new(self.agreements@.len(), |i: int| self.agreements@[i]@),
            milestone_agreements: Seq::new(
                self.milestone_agreements@.len(),
                |i: int| self.milestone_agreements@[i]@,
            ),
        }
    }
}

/// The error of a call on the record `found`, whose own checks gave `check`:
/// a missing record comes before everything else.
pub open spec fn refusal(found: Option<RecordView>, check: Option<PayrollError>) -> Option<
    PayrollError,
> {
    if found is None {
        Some(PayrollError::AgreementNotFound)
    } else {
        check
    }
}

impl ContractView {
    /// The payroll or escrow agreement with this id.
    pub open spec fn term(self, id: u128) -> Option<RecordView> {
        if 1 <= id <= self.agreements.len() {
            Some(self.agreements[id - 1])
        } else {
            None
        }
    }

    /// The milestone agreement with this id.
    pub open spec fn milestone(self, id: u128) -> Option<RecordView> {
        if 1 <= id <= self.milestone_agreements.len() {
            Some(self.milestone_agreements[id - 1])
        } else {
            None
        }
    }

    /// The agreement that a call not tied to one mode finds under this id.
    pub open spec fn lookup(self, id: u128) -> Option<RecordView> {
        if self.term(id) is Some {
            self.term(id)
        } else {
            self.milestone(id)
        }
    }

    /// This state with the payroll or escrow agreement `id` replaced by `r`.
    pub open spec fn put_term(self, id: u128, r: RecordView) -> ContractView {
        ContractView { agreements: self.agreements.update(id - 1, r), ..self }
    }

    /// This state with the milestone agreement `id` replaced by `r`.
    pub open spec fn put_milestone(self, id: u128, r: RecordView) -> ContractView {
        ContractView { milestone_agreements: self.milestone_agreements.update(id - 1, r), ..self }
    }

    /// This state with the agreement that `lookup` finds under `id` replaced by `r`.
    pub open spec fn put(self, id: u128, r: RecordView) -> ContractView {
        if self.term(id) is Some {
            self.put_term(id, r)
        } else {
            self.put_milestone(id, r)
        }
    }

    /// The invariant of the engine: every record is well formed, sits at the
    /// place its id names, and is in the table of its mode; and there is no
    /// arbiter without an owner.
    pub open spec fn wf(self) -> bool {
        &&& forall|i: int|
            0 <= i < self.agreements.len() ==> {
                &&& (#[trigger] self.agreements[i]).wf()
                &&& self.agreements[i].info.id == i + 1
                &&& self.agreements[i].info.mode != AgreementMode::Milestone
            }
        &&& forall|i: int|
            0 <= i < self.milestone_agreements.len() ==> {
                &&& (#[trigger] self.milestone_agreements[i]).wf()
                &&& self.milestone_agreements[i].info.id == i + 1
                &&& self.milestone_agreements[i].info.mode == AgreementMode::Milestone
            }
        &&& self.arbiter is Some ==> self.owner is Some
    }
}

/// Replacing one payroll or escrow record by a well-formed record of the
/// same id and mode gives the state that `put_term` describes, and keeps
/// the invariant.
pub(crate) proof fn lemma_term_replaced(pre: PayrollContract, post: PayrollContract, i: int)
    requires
        pre@.wf(),
        0 <= i < pre.agreements@.len(),
        post.owner == pre.owner,
        post.arbiter == pre.arbiter,
        post.milestone_agreements@ == pre.milestone_agreements@,
        post.agreements@.len() == pre.agreements@.len(),
        forall|k: int| 0 <= k < pre.agreements@.len() && k != i ==> post.agreements@[k] == pre.agreements@[k],
        post.agreements@[i]@.wf(),
        post.agreements@[i]@.info.id == pre.agreements@[i]@.info.id,
        post.agreements@[i]@.info.mode == pre.agreements@[i]@.info.mode,
    ensures
        post@ == pre@.put_term((i + 1) as u128, post.agreements@[i]@),
        post@.wf(),
        post.agreements@[i]@ == pre.agreements@[i]@ ==> post@ == pre@,
{
    assert(post@.agreements =~= pre@.agreements.update(i, post.agreements@[i]@));
    if post.agreements@[i]@ == pre.agreements@[i]@ {
        assert(post@.agreements =~= pre@.agreements);
    }
    assert(post@.milestone_agreements =~= pre@.milestone_agreements);
    assert(pre@.agreements[i].wf());
}

/// Replacing one milestone record by a well-formed record of the same id
/// and mode gives the state that `put_milestone` describes, and keeps the
/// invariant.
pub(crate) proof fn lemma_milestone_replaced(pre: PayrollContract, post: PayrollContract, i: int)
    requires
        pre@.wf(),
        0 <= i < pre.milestone_agreements@.len(),
        post.owner == pre.owner,
        post.arbiter == pre.arbiter,
        post.agreements@ == pre.agreements@,
        post.milestone_agreements@.len() == pre.milestone_agreements@.len(),
        forall|k: int|
            0 <= k < pre.milestone_agreements@.len() && k != i ==> post.milestone_agreements@[k]
                == pre.milestone_agreements@[k],
        post.milestone_agreements@[i]@.wf(),
        post.milestone_agreements@[i]@.info.id == pre.milestone_agreements@[i]@.info.id,
        post.milestone_agreements@[i]@.info.mode == pre.milestone_agreements@[i]@.info.mode,
    ensures
        post@ == pre@.put_milestone((i + 1) as u128, post.milestone_agreements@[i]@),
        post@.wf(),
        post.milestone_agreements@[i]@ == pre.milestone_agreements@[i]@ ==> post@ == pre@,
{
    if post.milestone_agreements@[i]@ == pre.milestone_agreements@[i]@ {
        assert(post@.milestone_agreements =~= pre@.milestone_agreements);
    }
    assert(post@.milestone_agreements =~= pre@.milestone_agreements.update(
        i,
        post.milestone_agreements@[i]@,
    ));
    assert(post@.agreements =~= pre@.agreements);
    assert(pre@.milestone_agreements[i].wf());
}

/// Where an id was found.
pub(crate) enum Slot {
    Term(usize),
    Milestone(usize),
    Missing,
}

impl PayrollContract {
    /// An engine without owner, arbiter or agreements.
    pub fn new() -> (c: PayrollContract)
        ensures
            c@.wf(),
            c@.owner is None,
            c@.arbiter is None,
            c@.agreements.len() == 0,
            c@.milestone_agreements.len() == 0,
    {
        PayrollContract {
            owner: None,
            arbiter: None,
            agreements: Vec::new(),
            milestone_agreements: Vec::new(),
        }
    }

    /// The place of the payroll or escrow agreement `id` in its table.
    pub(crate) fn term_slot(&self, id: u128) -> (slot: Option<usize>)
        ensures
            slot is Some <==> self@.term(id) is Some,
            slot is Some ==> slot.unwrap() == id - 1 && slot.unwrap() < self.agreements@.len()
                && self@.term(id) == Some(self.agreements@[slot.unwrap() as int]@),
    {
        if id >= 1 && id <= self.agreements.len() as u128 {
            Some((id - 1) as usize)
        } else {
            None
        }
    }

    /// The place of the milestone agreement `id` in its table.
    pub(crate) fn milestone_slot(&self, id: u128) -> (slot: Option<usize>)
        ensures
            slot is Some <==> self@.milestone(id) is Some,
            slot is Some ==> slot.unwrap() == id - 1 && slot.unwrap()
                < self.milestone_agreements@.len() && self@.milestone(id) == Some(
                self.milestone_agreements@[slot.unwrap() as int]@,
            ),
    {
        if id >= 1 && id <= self.milestone_agreements.len() as u128 {
            Some((id - 1) as usize)
        } else {
            None
        }
    }

    /// The place of the agreement that `lookup` finds under `id`.
    pub(crate) fn locate(&self, id: u128) -> (slot: Slot)
        ensures
            match slot {
                Slot::Term(i) => {
                    &&& self@.term(id) is Some
                    &&& i == id - 1
                    &&& i < self.agreements@.len()
                    &&& self@.lookup(id) == Some(self.agreements@[i as int]@)
                },
                Slot::Milestone(i) => {
                    &&& self@.term(id) is None
                    &&& self@.milestone(id) is Some
                    &&& i == id - 1
                    &&& i < self.milestone_agreements@.len()
                    &&& self@.lookup(id) == Some(self.milestone_agreements@[i as int]@)
                },
                Slot::Missing => self@.lookup(id) is None,
            },
    {
        match self.term_slot(id) {
            Some(i) => Slot::Term(i),
            None => match self.milestone_slot(id) {
                Some(i) => Slot::Milestone(i),
                None => Slot::Missing,
            },
        }
    }

    /// Records `owner` as the owner of the engine. This can be done once.
    pub fn initialize(&mut self, owner: Address) -> (res: Result<(), PayrollError>)
        requires
            old(self)@.wf(),
        ensures
            final(self)@.wf(),
            match res {
                Ok(_) => old(self)@.owner is None && final(self)@ == (ContractView {
                    owner: Some(owner),
                    ..old(self)@
                }),
                Err(e) => old(self)@.owner is Some && e == PayrollError::AlreadyInitialized
                    && final(self)@ == old(self)@,
            },
    {
        if self.owner.is_some() {
            return Err(PayrollError::AlreadyInitialized);
        }
        self.owner = Some(owner);
        Ok(())
    }

    /// The owner of the engine, once it has one.
    pub fn get_owner(&self) -> (owner: Option<Address>)
        ensures
            owner == self@.owner,
    {
        self.owner
    }

    /// The arbiter of disputes, once one is configured.
    pub fn get_arbiter(&self) -> (arbiter: Option<Address>)
        ensures
            arbiter == self@.arbiter,
    {
        self.arbiter
    }
}

} // verus!
