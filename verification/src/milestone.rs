//! The milestone claim engine: approval, single claims and batch claims
//! that pay what can be paid and count what cannot.

use vstd::prelude::*;
use crate::address::Address;
use crate::claims::{ClaimCall, after_claim_call};
use crate::contract::{PayrollContract, lemma_milestone_replaced, refusal};
use crate::storage::{
    Agreement, AgreementMode, AgreementRecord, AgreementStatus, BatchClaimResult, Milestone,
    PayrollError, RecordView, all_claimed, claimed_amount, claimed_count, total_amount,
};

verus! {

/// The milestone `id` exists in `ms`, has been approved and has not been paid.
pub open spec fn claimable(ms: Seq<Milestone>, id: u32) -> bool {
    &&& 1 <= id <= ms.len()
    &&& ms[id - 1].approved
    &&& !ms[id - 1].claimed
}

/// `ms` with the milestone at position `k` replaced by a paid copy of itself.
pub open spec fn mark_claimed(ms: Seq<Milestone>, k: int) -> Seq<Milestone> {
    ms.update(k, Milestone { claimed: true, ..ms[k] })
}

/// `ms` with the milestone at position `k` replaced by an approved copy of itself.
pub open spec fn mark_approved(ms: Seq<Milestone>, k: int) -> Seq<Milestone> {
    ms.update(k, Milestone { approved: true, ..ms[k] })
}

/// The milestones after one attempt to claim `id`: paid if it was claimable,
/// untouched otherwise.
pub open spec fn claim_one(ms: Seq<Milestone>, id: u32) -> Seq<Milestone> {
    if claimable(ms, id) {
        mark_claimed(ms, id - 1)
    } else {
        ms
    }
}

/// The milestones after the ids of `ids` have been attempted from left to right.
pub open spec fn after_batch(ms: Seq<Milestone>, ids: Seq<u32>) -> Seq<Milestone>
    decreases ids.len(),
{
    if ids.len() == 0 {
        ms
    } else {
        claim_one(after_batch(ms, ids.drop_last()), ids.last())
    }
}

/// The attempt at position `p` of the batch `ids` pays its milestone.
pub open spec fn batch_pays_at(ms: Seq<Milestone>, ids: Seq<u32>, p: int) -> bool {
    claimable(after_batch(ms, ids.take(p)), ids[p])
}

/// How many attempts of the batch `ids` pay their milestone.
pub open spec fn batch_successes(ms: Seq<Milestone>, ids: Seq<u32>) -> int
    decreases ids.len(),
{
    if ids.len() == 0 {
        0
    } else {
        batch_successes(ms, ids.drop_last()) + if claimable(
            after_batch(ms, ids.drop_last()),
            ids.last(),
        ) {
            1int
        } else {
            0
        }
    }
}

/// The sum that the batch `ids` pays.
pub open spec fn batch_total(ms: Seq<Milestone>, ids: Seq<u32>) -> int
    decreases ids.len(),
{
    if ids.len() == 0 {
        0
    } else {
        batch_total(ms, ids.drop_last()) + if claimable(
            after_batch(ms, ids.drop_last()),
            ids.last(),
        ) {
            after_batch(ms, ids.drop_last())[ids.last() - 1].amount as int
        } else {
            0
        }
    }
}

/// The status of a milestone agreement after a claim call that left it with
/// the milestones `ms`: `Completed` once every milestone is paid.
pub open spec fn status_after_claims(status: AgreementStatus, ms: Seq<Milestone>) -> AgreementStatus {
    if all_claimed(ms) {
        AgreementStatus::Completed
    } else {
        status
    }
}

/// Why `caller` may not add a milestone of `amount` to `r`, if anything.
pub open spec fn add_milestone_error(r: RecordView, caller: Address, amount: i128) -> Option<
    PayrollError,
> {
    if r.info.mode != AgreementMode::Milestone {
        Some(PayrollError::InvalidData)
    } else if r.info.employer != caller {
        Some(PayrollError::NotAuthorized)
    } else if amount <= 0 {
        Some(PayrollError::InvalidAmount)
    } else if r.milestones.len() >= u32::MAX || total_amount(r.milestones) + amount > i128::MAX {
        Some(PayrollError::Overflow)
    } else {
        None
    }
}

/// Why `caller` may not approve milestone `id` of `r`, if anything.
pub open spec fn approve_milestone_error(r: RecordView, caller: Address, id: u32) -> Option<
    PayrollError,
> {
    if r.info.mode != AgreementMode::Milestone {
        Some(PayrollError::InvalidData)
    } else if r.info.employer != caller {
        Some(PayrollError::NotAuthorized)
    } else if !(1 <= id <= r.milestones.len()) {
        Some(PayrollError::InvalidMilestoneId)
    } else {
        None
    }
}

/// Why `caller` may not claim milestones of `r` at all, if anything: the
/// conditions that refuse a whole call, single or batch.
pub open spec fn milestone_claim_gate(r: RecordView, caller: Address) -> Option<PayrollError> {
    if r.info.mode != AgreementMode::Milestone {
        Some(PayrollError::InvalidData)
    } else if r.info.contributor != Some(caller) {
        Some(PayrollError::NotAuthorized)
    } else if r.info.status is Paused || r.info.status is Cancelled {
        Some(PayrollError::InvalidData)
    } else {
        None
    }
}

/// Why `caller` may not claim milestone `id` of `r`, if anything.
pub open spec fn claim_milestone_error(r: RecordView, caller: Address, id: u32) -> Option<
    PayrollError,
> {
    if milestone_claim_gate(r, caller) is Some {
        milestone_claim_gate(r, caller)
    } else if !(1 <= id <= r.milestones.len()) {
        Some(PayrollError::InvalidMilestoneId)
    } else if r.milestones[id - 1].claimed {
        Some(PayrollError::AlreadyClaimed)
    } else if !r.milestones[id - 1].approved {
        Some(PayrollError::NotApproved)
    } else {
        None
    }
}

/// The record after a claim call has left it with the milestones `ms`.
pub open spec fn with_claimed_milestones(r: RecordView, ms: Seq<Milestone>) -> RecordView {
    RecordView {
        info: Agreement {
            status: status_after_claims(r.info.status, ms),
            ..r.info
        },
        milestones: ms,
        ..r
    }
}

/// Replacing a milestone by one of the same amount keeps the total, and
/// moves the paid sum and the paid count by what the paid flag says.
pub proof fn lemma_update_sums(ms: Seq<Milestone>, k: int, m: Milestone)
    requires
        0 <= k < ms.len(),
        m.amount == ms[k].amount,
    ensures
        total_amount(ms.update(k, m)) == total_amount(ms),
        claimed_amount(ms.update(k, m)) == claimed_amount(ms) - (if ms[k].claimed {
            ms[k].amount as int
        } else {
            0
        }) + (if m.claimed {
            m.amount as int
        } else {
            0
        }),
        claimed_count(ms.update(k, m)) == claimed_count(ms) - (if ms[k].claimed {
            1int
        } else {
            0
        }) + (if m.claimed {
            1int
        } else {
            0
        }),
    decreases ms.len(),
{
    let up = ms.update(k, m);
    if k == ms.len() - 1 {
        assert(up.drop_last() =~= ms.drop_last());
    } else {
        assert(up.drop_last() =~= ms.drop_last().update(k, m));
        lemma_update_sums(ms.drop_last(), k, m);
    }
}

/// With positive amounts the paid sum lies between zero and the total, and
/// the paid count between zero and the number of milestones.
pub proof fn lemma_claimed_bounds(ms: Seq<Milestone>)
    requires
        forall|j: int| 0 <= j < ms.len() ==> (#[trigger] ms[j]).amount > 0,
    ensures
        0 <= claimed_amount(ms) <= total_amount(ms),
        0 <= claimed_count(ms) <= ms.len(),
    decreases ms.len(),
{
    if ms.len() > 0 {
        lemma_claimed_bounds(ms.drop_last());
    }
}

/// A batch changes nothing but paid flags, only from unpaid to paid, and
/// only of approved milestones.
pub proof fn lemma_after_batch_shape(ms: Seq<Milestone>, ids: Seq<u32>)
    ensures
        after_batch(ms, ids).len() == ms.len(),
        forall|j: int|
            0 <= j < ms.len() ==> {
                &&& (#[trigger] after_batch(ms, ids)[j]).id == ms[j].id
                &&& after_batch(ms, ids)[j].amount == ms[j].amount
                &&& after_batch(ms, ids)[j].approved == ms[j].approved
                &&& ms[j].claimed ==> after_batch(ms, ids)[j].claimed
                &&& after_batch(ms, ids)[j].claimed ==> ms[j].claimed || ms[j].approved
            },
    decreases ids.len(),
{
    if ids.len() > 0 {
        lemma_after_batch_shape(ms, ids.drop_last());
    }
}

/// What a batch pays, counted and summed, is the growth of the paid count
/// and of the paid sum.
pub proof fn lemma_batch_accounts(ms: Seq<Milestone>, ids: Seq<u32>)
    ensures
        batch_successes(ms, ids) == claimed_count(after_batch(ms, ids)) - claimed_count(ms),
        batch_total(ms, ids) == claimed_amount(after_batch(ms, ids)) - claimed_amount(ms),
        total_amount(after_batch(ms, ids)) == total_amount(ms),
        0 <= batch_successes(ms, ids) <= ids.len(),
    decreases ids.len(),
{
    if ids.len() > 0 {
        let front = ids.drop_last();
        let mid = after_batch(ms, front);
        lemma_batch_accounts(ms, front);
        if claimable(mid, ids.last()) {
            let k = ids.last() - 1;
            lemma_update_sums(mid, k, Milestone { claimed: true, ..mid[k] });
        }
    }
}

impl AgreementRecord {
    /// Sum of the amounts of all milestones.
    fn milestone_total(&self) -> (sum: i128)
        requires
            self@.milestones_wf(),
        ensures
            sum == total_amount(self@.milestones),
    {
        let mut sum: i128 = 0;
        let mut j: usize = 0;
        while j < self.milestones.len()
            invariant
                j <= self.milestones@.len(),
                self@.milestones_wf(),
                self@.milestones == self.milestones@,
                sum == total_amount(self.milestones@.take(j as int)),
                0 <= sum,
            decreases self.milestones@.len() - j,
        {
            proof {
                let ms = self.milestones@;
                assert(ms.take(j + 1).drop_last() =~= ms.take(j as int));
                lemma_total_take_bound(ms, j + 1);
                assert(ms[j as int].amount > 0);
            }
            sum = sum + self.milestones[j].amount;
            j += 1;
        }
        proof {
            assert(self.milestones@.take(j as int) =~= self.milestones@);
        }
        sum
    }

    /// Every milestone has been paid.
    fn milestones_all_claimed(&self) -> (all: bool)
        ensures
            all == all_claimed(self@.milestones),
    {
        let mut j: usize = 0;
        while j < self.milestones.len()
            invariant
                j <= self.milestones@.len(),
                self@.milestones == self.milestones@,
                forall|i: int| 0 <= i < j ==> (#[trigger] self.milestones@[i]).claimed,
            decreases self.milestones@.len() - j,
        {
            if !self.milestones[j].claimed {
                return false;
            }
            j += 1;
        }
        true
    }

    /// Appends a milestone of `amount`, not yet approved and not yet paid,
    /// and returns its id: one more than the number of milestones before.
    pub(crate) fn add_milestone(&mut self, caller: Address, amount: i128) -> (res: Result<
        u32,
        PayrollError,
    >)
        requires
            old(self)@.wf(),
        ensures
            final(self)@.wf(),
            match res {
                Ok(id) => {
                    &&& add_milestone_error(old(self)@, caller, amount) is None
                    &&& id == old(self)@.milestones.len() + 1
                    &&& final(self)@ == (RecordView {
                        milestones: old(self)@.milestones.push(
                            Milestone { id, amount, approved: false, claimed: false },
                        ),
                        ..old(self)@
                    })
                },
                Err(e) => {
                    &&& add_milestone_error(old(self)@, caller, amount) == Some(e)
                    &&& final(self)@ == old(self)@
                },
            },
    {
        if self.info.mode != AgreementMode::Milestone {
            return Err(PayrollError::InvalidData);
        }
        if self.info.employer != caller {
            return Err(PayrollError::NotAuthorized);
        }
        if amount <= 0 {
            return Err(PayrollError::InvalidAmount);
        }
        let total = self.milestone_total();
        if self.milestones.len() >= u32::MAX as usize || total > i128::MAX - amount {
            return Err(PayrollError::Overflow);
        }
        let id: u32 = (self.milestones.len() + 1) as u32;
        let m = Milestone { id, amount, approved: false, claimed: false };
        proof {
            assert(self.milestones@.push(m).drop_last() =~= self.milestones@);
        }
        self.milestones.push(m);
        Ok(id)
    }

    /// Marks milestone `id` as approved; approving it again changes nothing.
    pub(crate) fn approve_milestone(&mut self, caller: Address, id: u32) -> (res: Result<
        (),
        PayrollError,
    >)
        requires
            old(self)@.wf(),
        ensures
            final(self)@.wf(),
            match res {
                Ok(_) => {
                    &&& approve_milestone_error(old(self)@, caller, id) is None
                    &&& final(self)@ == (RecordView {
                        milestones: mark_approved(old(self)@.milestones, id - 1),
                        ..old(self)@
                    })
                },
                Err(e) => {
                    &&& approve_milestone_error(old(self)@, caller, id) == Some(e)
                    &&& final(self)@ == old(self)@
                },
            },
    {
        if self.info.mode != AgreementMode::Milestone {
            return Err(PayrollError::InvalidData);
        }
        if self.info.employer != caller {
            return Err(PayrollError::NotAuthorized);
        }
        if id < 1 || id as usize > self.milestones.len() {
            return Err(PayrollError::InvalidMilestoneId);
        }
        let k: usize = (id - 1) as usize;
        proof {
            let ms = self.milestones@;
            lemma_update_sums(ms, k as int, Milestone { approved: true, ..ms[k as int] });
        }
        self.milestones[k].approved = true;
        Ok(())
    }

    /// Pays milestone `id` to the contributor and returns its amount; once
    /// every milestone is paid the agreement is `Completed`.
    pub(crate) fn claim_milestone(&mut self, caller: Address, id: u32) -> (res: Result<
        i128,
        PayrollError,
    >)
        requires
            old(self)@.wf(),
        ensures
            final(self)@.wf(),
            match res {
                Ok(amount) => {
                    &&& claim_milestone_error(old(self)@, caller, id) is None
                    &&& amount == old(self)@.milestones[id - 1].amount
                    &&& final(self)@ == with_claimed_milestones(
                        old(self)@,
                        mark_claimed(old(self)@.milestones, id - 1),
                    )
                },
                Err(e) => {
                    &&& claim_milestone_error(old(self)@, caller, id) == Some(e)
                    &&& final(self)@ == old(self)@
                },
            },
    {
        if self.info.mode != AgreementMode::Milestone {
            return Err(PayrollError::InvalidData);
        }
        if self.info.contributor != Some(caller) {
            return Err(PayrollError::NotAuthorized);
        }
        if self.info.status == AgreementStatus::Paused || self.info.status
            == AgreementStatus::Cancelled {
            return Err(PayrollError::InvalidData);
        }
        if id < 1 || id as usize > self.milestones.len() {
            return Err(PayrollError::InvalidMilestoneId);
        }
        let k: usize = (id - 1) as usize;
        if self.milestones[k].claimed {
            return Err(PayrollError::AlreadyClaimed);
        }
        if !self.milestones[k].approved {
            return Err(PayrollError::NotApproved);
        }
        let amount = self.milestones[k].amount;
        proof {
            let ms = self.milestones@;
            lemma_update_sums(ms, k as int, Milestone { claimed: true, ..ms[k as int] });
        }
        self.milestones[k].claimed = true;
        if self.milestones_all_claimed() {
            self.info.status = AgreementStatus::Completed;
        }
        Ok(amount)
    }

    /// Attempts the ids of `ids` from left to right. An id that names no
    /// milestone, a paid milestone or an unapproved one counts as a failure
    /// and changes nothing; every other id pays its milestone. Once every
    /// milestone is paid the agreement is `Completed`.
    pub(crate) fn batch_claim_milestones(&mut self, caller: Address, ids: &Vec<u32>) -> (res:
        Result<BatchClaimResult, PayrollError>)
        requires
            old(self)@.wf(),
            ids@.len() <= u32::MAX,
        ensures
            final(self)@.wf(),
            match res {
                Ok(report) => {
                    &&& milestone_claim_gate(old(self)@, caller) is None
                    &&& report.successful_claims == batch_successes(old(self)@.milestones, ids@)
                    &&& report.failed_claims == ids@.len() - batch_successes(
                        old(self)@.milestones,
                        ids@,
                    )
                    &&& report.total_claimed == batch_total(old(self)@.milestones, ids@)
                    &&& final(self)@ == with_claimed_milestones(
                        old(self)@,
                        after_batch(old(self)@.milestones, ids@),
                    )
                },
                Err(e) => {
                    &&& milestone_claim_gate(old(self)@, caller) == Some(e)
                    &&& final(self)@ == old(self)@
                },
            },
    {
        if self.info.mode != AgreementMode::Milestone {
            return Err(PayrollError::InvalidData);
        }
        if self.info.contributor != Some(caller) {
            return Err(PayrollError::NotAuthorized);
        }
        if self.info.status == AgreementStatus::Paused || self.info.status
            == AgreementStatus::Cancelled {
            return Err(PayrollError::InvalidData);
        }
        let ghost start = self@;
        let mut successful: u32 = 0;
        let mut failed: u32 = 0;
        let mut total: i128 = 0;
        let mut p: usize = 0;
        while p < ids.len()
            invariant
                p <= ids@.len(),
                ids@.len() <= u32::MAX,
                start.wf(),
                self@ == (RecordView { milestones: after_batch(start.milestones, ids@.take(p as int)), ..start }),
                successful == batch_successes(start.milestones, ids@.take(p as int)),
                failed == p - successful,
                total == batch_total(start.milestones, ids@.take(p as int)),
            decreases ids@.len() - p,
        {
            let id = ids[p];
            proof {
                let front = ids@.take(p as int);
                let next = ids@.take(p + 1);
                assert(next.drop_last() =~= front);
                assert(next.last() == id);
                lemma_after_batch_shape(start.milestones, front);
                lemma_after_batch_shape(start.milestones, next);
                lemma_batch_accounts(start.milestones, front);
                lemma_batch_accounts(start.milestones, next);
                lemma_claimed_bounds(start.milestones);
                lemma_claimed_bounds(after_batch(start.milestones, next));
            }
            if id >= 1 && id as usize <= self.milestones.len() && self.milestones[(id - 1) as usize].approved
                && !self.milestones[(id - 1) as usize].claimed {
                let k: usize = (id - 1) as usize;
                total = total + self.milestones[k].amount;
                self.milestones[k].claimed = true;
                successful = successful + 1;
            } else {
                failed = failed + 1;
            }
            p += 1;
        }
        proof {
            assert(ids@.take(p as int) =~= ids@);
            lemma_after_batch_shape(start.milestones, ids@);
            lemma_batch_accounts(start.milestones, ids@);
        }
        if self.milestones_all_claimed() {
            self.info.status = AgreementStatus::Completed;
        }
        Ok(BatchClaimResult { successful_claims: successful, failed_claims: failed, total_claimed: total })
    }
}

/// The total of a prefix is at most the total of the whole, when amounts
/// are positive.
pub proof fn lemma_total_take_bound(ms: Seq<Milestone>, n: int)
    requires
        0 <= n <= ms.len(),
        forall|j: int| 0 <= j < ms.len() ==> (#[trigger] ms[j]).amount > 0,
    ensures
        0 <= total_amount(ms.take(n)) <= total_amount(ms),
    decreases ms.len() - n,
{
    if n == ms.len() {
        assert(ms.take(n) =~= ms);
        lemma_total_nonnegative(ms);
    } else {
        lemma_total_take_bound(ms, n + 1);
        assert(ms.take(n + 1).drop_last() =~= ms.take(n));
        lemma_total_nonnegative(ms.take(n));
    }
}

/// The total of positive amounts is not negative.
pub proof fn lemma_total_nonnegative(ms: Seq<Milestone>)
    requires
        forall|j: int| 0 <= j < ms.len() ==> (#[trigger] ms[j]).amount > 0,
    ensures
        0 <= total_amount(ms),
    decreases ms.len(),
{
    if ms.len() > 0 {
        lemma_total_nonnegative(ms.drop_last());
    }
}

impl PayrollContract {
    /// Adds a milestone of `amount` to a milestone agreement, on behalf of
    /// its employer, and returns the milestone's id. The new milestone is
    /// neither approved nor paid.
    pub fn add_milestone(&mut self, caller: Address, agreement_id: u128, amount: i128) -> (res:
        Result<u32, PayrollError>)
        requires
            old(self)@.wf(),
        ensures
            final(self)@.wf(),
            match res {
                Ok(id) => {
                    &&& refusal(
                        old(self)@.milestone(agreement_id),
                        add_milestone_error(
                            old(self)@.milestone(agreement_id).unwrap(),
                            caller,
                            amount,
                        ),
                    ) is None
                    &&& id == old(self)@.milestone(agreement_id).unwrap().milestones.len() + 1
                    &&& final(self)@ == old(self)@.put_milestone(
                        agreement_id,
                        RecordView {
                            milestones: old(self)@.milestone(
                                agreement_id,
                            ).unwrap().milestones.push(
                                Milestone { id, amount, approved: false, claimed: false },
                            ),
                            ..old(self)@.milestone(agreement_id).unwrap()
                        },
                    )
                },
                Err(e) => {
                    &&& refusal(
                        old(self)@.milestone(agreement_id),
                        add_milestone_error(
                            old(self)@.milestone(agreement_id).unwrap(),
                            caller,
                            amount,
                        ),
                    ) == Some(e)
                    &&& final(self)@ == old(self)@
                },
            },
    {
        match self.milestone_slot(agreement_id) {
            Some(i) => {
                let res = self.milestone_agreements[i].add_milestone(caller, amount);
                proof {
                    lemma_milestone_replaced(*old(self), *self, i as int);
                }
                res
            },
            None => Err(PayrollError::AgreementNotFound),
        }
    }

    /// Approves milestone `milestone_id` on behalf of the employer.
    /// Approving an approved milestone changes nothing and succeeds.
    pub fn approve_milestone(&mut self, caller: Address, agreement_id: u128, milestone_id: u32)
        -> (res: Result<(), PayrollError>)
        requires
            old(self)@.wf(),
        ensures
            final(self)@.wf(),
            match res {
                Ok(_) => {
                    &&& refusal(
                        old(self)@.milestone(agreement_id),
                        approve_milestone_error(
                            old(self)@.milestone(agreement_id).unwrap(),
                            caller,
                            milestone_id,
                        ),
                    ) is None
                    &&& final(self)@ == old(self)@.put_milestone(
                        agreement_id,
                        RecordView {
                            milestones: mark_approved(
                                old(self)@.milestone(agreement_id).unwrap().milestones,
                                milestone_id - 1,
                            ),
                            ..old(self)@.milestone(agreement_id).unwrap()
                        },
                    )
                },
                Err(e) => {
                    &&& refusal(
                        old(self)@.milestone(agreement_id),
                        approve_milestone_error(
                            old(self)@.milestone(agreement_id).unwrap(),
                            caller,
                            milestone_id,
                        ),
                    ) == Some(e)
                    &&& final(self)@ == old(self)@
                },
            },
    {
        match self.milestone_slot(agreement_id) {
            Some(i) => {
                let res = self.milestone_agreements[i].approve_milestone(caller, milestone_id);
                proof {
                    lemma_milestone_replaced(*old(self), *self, i as int);
                }
                res
            },
            None => Err(PayrollError::AgreementNotFound),
        }
    }

    /// Pays milestone `milestone_id` to the contributor, who must be the
    /// caller, and returns its amount. The milestone must be approved and
    /// unpaid and the agreement neither paused nor cancelled. When the
    /// call leaves every milestone paid the agreement becomes `Completed`.
    pub fn claim_milestone(&mut self, caller: Address, agreement_id: u128, milestone_id: u32)
        -> (res: Result<i128, PayrollError>)
        requires
            old(self)@.wf(),
        ensures
            final(self)@.wf(),
            final(self)@ == after_claim_call(
                old(self)@,
                ClaimCall::Milestone { caller, agreement_id, milestone_id },
            ),
            match res {
                Ok(amount) => {
                    &&& refusal(
                        old(self)@.milestone(agreement_id),
                        claim_milestone_error(
                            old(self)@.milestone(agreement_id).unwrap(),
                            caller,
                            milestone_id,
                        ),
                    ) is None
                    &&& amount == old(self)@.milestone(
                        agreement_id,
                    ).unwrap().milestones[milestone_id - 1].amount
                    &&& final(self)@ == old(self)@.put_milestone(
                        agreement_id,
                        with_claimed_milestones(
                            old(self)@.milestone(agreement_id).unwrap(),
                            mark_claimed(
                                old(self)@.milestone(agreement_id).unwrap().milestones,
                                milestone_id - 1,
                            ),
                        ),
                    )
                },
                Err(e) => {
                    &&& refusal(
                        old(self)@.milestone(agreement_id),
                        claim_milestone_error(
                            old(self)@.milestone(agreement_id).unwrap(),
                            caller,
                            milestone_id,
                        ),
                    ) == Some(e)
                    &&& final(self)@ == old(self)@
                },
            },
    {
        match self.milestone_slot(agreement_id) {
            Some(i) => {
                let res = self.milestone_agreements[i].claim_milestone(caller, milestone_id);
                proof {
                    lemma_milestone_replaced(*old(self), *self, i as int);
                }
                res
            },
            None => Err(PayrollError::AgreementNotFound),
        }
    }

    /// Attempts to claim each id of `ids`, from left to right, for the
    /// contributor, who must be the caller. The whole call is refused if
    /// the agreement is paused or cancelled. Otherwise an id that names no
    /// milestone, a paid milestone (paid before the call or earlier in it)
    /// or an unapproved one counts as a failure and changes nothing, and
    /// every other id pays its milestone. When the call leaves every
    /// milestone paid the agreement becomes `Completed`. The list may hold
    /// as many ids as a claim count can hold.
    pub fn batch_claim_milestones(&mut self, caller: Address, agreement_id: u128, ids: &Vec<u32>)
        -> (res: Result<BatchClaimResult, PayrollError>)
        requires
            old(self)@.wf(),
            ids@.len() <= u32::MAX,
        ensures
            final(self)@.wf(),
            final(self)@ == after_claim_call(
                old(self)@,
                ClaimCall::MilestoneBatch { caller, agreement_id, ids: ids@ },
            ),
            match res {
                Ok(report) => {
                    &&& refusal(
                        old(self)@.milestone(agreement_id),
                        milestone_claim_gate(old(self)@.milestone(agreement_id).unwrap(), caller),
                    ) is None
                    &&& report.successful_claims == batch_successes(
                        old(self)@.milestone(agreement_id).unwrap().milestones,
                        ids@,
                    )
                    &&& report.failed_claims == ids@.len() - report.successful_claims
                    &&& report.total_claimed == batch_total(
                        old(self)@.milestone(agreement_id).unwrap().milestones,
                        ids@,
                    )
                    &&& final(self)@ == old(self)@.put_milestone(
                        agreement_id,
                        with_claimed_milestones(
                            old(self)@.milestone(agreement_id).unwrap(),
                            after_batch(
                                old(self)@.milestone(agreement_id).unwrap().milestones,
                                ids@,
                            ),
                        ),
                    )
                },
                Err(e) => {
                    &&& refusal(
                        old(self)@.milestone(agreement_id),
                        milestone_claim_gate(old(self)@.milestone(agreement_id).unwrap(), caller),
                    ) == Some(e)
                    &&& final(self)@ == old(self)@
                },
            },
    {
        match self.milestone_slot(agreement_id) {
            Some(i) => {
                let res = self.milestone_agreements[i].batch_claim_milestones(caller, ids);
                proof {
                    lemma_milestone_replaced(*old(self), *self, i as int);
                }
                res
            },
            None => Err(PayrollError::AgreementNotFound),
        }
    }

    /// The top-level record of the milestone agreement with this id,
    /// whether or not a payroll or escrow agreement shares the id.
    pub fn get_milestone_agreement(&self, agreement_id: u128) -> (found: Option<Agreement>)
        ensures
            found == match self@.milestone(agreement_id) {
                Some(r) => Some(r.info),
                None => None,
            },
    {
        match self.milestone_slot(agreement_id) {
            Some(i) => Some(self.milestone_agreements[i].info),
            None => None,
        }
    }

    /// Milestone `milestone_id` of a milestone agreement, if both exist.
    pub fn get_milestone(&self, agreement_id: u128, milestone_id: u32) -> (found: Option<
        Milestone,
    >)
        ensures
            found == match self@.milestone(agreement_id) {
                Some(r) => if 1 <= milestone_id <= r.milestones.len() {
                    Some(r.milestones[milestone_id - 1])
                } else {
                    None
                },
                None => None,
            },
    {
        match self.milestone_slot(agreement_id) {
            Some(i) => {
                if milestone_id >= 1 && milestone_id as usize
                    <= self.milestone_agreements[i].milestones.len() {
                    Some(self.milestone_agreements[i].milestones[(milestone_id - 1) as usize])
                } else {
                    None
                }
            },
            None => None,
        }
    }
}

} // verus!
