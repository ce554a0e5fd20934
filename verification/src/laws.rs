//! What holds of the engine as a whole: laws that relate several calls, or
//! every state, proved over the same functions that the contracts speak of.

use vstd::prelude::*;
use crate::address::Address;
use crate::claims::{ClaimCall, after_claim_call, after_claim_calls};
use crate::contract::{ContractView, refusal};
use crate::dispute::{
    raise_dispute_error, resolve_dispute_error, settle_dispute_error, with_dispute_raised,
    with_dispute_settled,
};
use crate::escrow_claim::{
    after_escrow_claim, escrow_claim_amount, escrow_claim_error, escrow_periods_due,
    grace_period_end,
};
use crate::lifecycle::{
    activate_error, activated, cancel_error, cancelled, pause_error, resume_error, with_status,
};
use crate::milestone::{
    after_batch, batch_pays_at, batch_successes, batch_total, claim_milestone_error, claim_one,
    claimable, lemma_after_batch_shape, mark_claimed, milestone_claim_gate,
    status_after_claims, with_claimed_milestones,
};
use crate::payroll_claim::{
    after_payroll_batch, after_payroll_claim, lemma_payroll_claim_step, payroll_claim_amount,
    payroll_claim_error, payroll_claim_gate,
};
use crate::storage::{
    AgreementMode, AgreementStatus, Milestone, PayrollError, RecordView, all_claimed,
};

verus! {

/// Nothing that was paid in `a` is unpaid in `b`: no employee's and no
/// escrow's count of paid periods is lower, and every paid milestone is
/// still paid.
pub open spec fn record_progress(a: RecordView, b: RecordView) -> bool {
    &&& b.employees.len() == a.employees.len()
    &&& forall|j: int|
        0 <= j < a.employees.len() ==> (#[trigger] b.employees[j]).claimed_periods
            >= a.employees[j].claimed_periods
    &&& a.escrow is Some ==> b.escrow is Some && b.escrow.unwrap().claimed_periods
        >= a.escrow.unwrap().claimed_periods
    &&& b.milestones.len() == a.milestones.len()
    &&& forall|j: int|
        0 <= j < a.milestones.len() && a.milestones[j].claimed ==> (#[trigger] b.milestones[j]).claimed
}

/// `d` holds the agreements of `c`, and nothing that was paid in `c` is
/// unpaid in `d`.
pub open spec fn progress(c: ContractView, d: ContractView) -> bool {
    &&& d.agreements.len() == c.agreements.len()
    &&& d.milestone_agreements.len() == c.milestone_agreements.len()
    &&& forall|i: int|
        0 <= i < c.agreements.len() ==> record_progress(c.agreements[i], #[trigger] d.agreements[i])
    &&& forall|i: int|
        0 <= i < c.milestone_agreements.len() ==> record_progress(
            c.milestone_agreements[i],
            #[trigger] d.milestone_agreements[i],
        )
}

proof fn lemma_payroll_batch_progress(r: RecordView, caller: Address, indices: Seq<u32>, now: u64)
    ensures
        record_progress(r, after_payroll_batch(r, caller, indices, now)),
        after_payroll_batch(r, caller, indices, now).escrow == r.escrow,
        after_payroll_batch(r, caller, indices, now).milestones == r.milestones,
    decreases indices.len(),
{
    if indices.len() > 0 {
        lemma_payroll_batch_progress(r, caller, indices.drop_last(), now);
    }
}

proof fn lemma_claim_call_progress(c: ContractView, call: ClaimCall)
    ensures
        progress(c, after_claim_call(c, call)),
{
    let d = after_claim_call(c, call);
    match call {
        ClaimCall::PayrollBatch { caller, agreement_id, indices, now } => {
            if c.term(agreement_id) is Some {
                lemma_payroll_batch_progress(c.term(agreement_id).unwrap(), caller, indices, now);
            }
        },
        ClaimCall::MilestoneBatch { caller, agreement_id, ids } => {
            if c.milestone(agreement_id) is Some {
                lemma_after_batch_shape(c.milestone(agreement_id).unwrap().milestones, ids);
            }
        },
        _ => {},
    }
}

/// Paid periods never go down, and a paid milestone never becomes unpaid:
/// whatever claim calls are made, in whatever order and with whatever
/// arguments, each employee's and each escrow agreement's count of paid
/// periods is at least what it was, and every milestone that was paid is
/// still paid.
pub proof fn law_claims_never_undo(c: ContractView, calls: Seq<ClaimCall>)
    ensures
        progress(c, after_claim_calls(c, calls)),
    decreases calls.len(),
{
    if calls.len() > 0 {
        let mid = after_claim_calls(c, calls.drop_last());
        law_claims_never_undo(c, calls.drop_last());
        lemma_claim_call_progress(mid, calls.last());
        let d = after_claim_call(mid, calls.last());
        assert forall|i: int| 0 <= i < c.agreements.len() implies record_progress(
            c.agreements[i],
            #[trigger] d.agreements[i],
        ) by {
            assert(record_progress(c.agreements[i], mid.agreements[i]));
            assert(record_progress(mid.agreements[i], d.agreements[i]));
        }
        assert forall|i: int| 0 <= i < c.milestone_agreements.len() implies record_progress(
            c.milestone_agreements[i],
            #[trigger] d.milestone_agreements[i],
        ) by {
            assert(record_progress(c.milestone_agreements[i], mid.milestone_agreements[i]));
            assert(record_progress(mid.milestone_agreements[i], d.milestone_agreements[i]));
        }
    }
}

/// Once an id has been attempted in a batch, it cannot be paid again: it
/// names no milestone, or an unapproved one, or one that is paid by now.
pub proof fn lemma_attempted_is_spent(ms: Seq<Milestone>, ids: Seq<u32>, p: int)
    requires
        0 <= p < ids.len(),
    ensures
        !claimable(after_batch(ms, ids), ids[p]),
    decreases ids.len(),
{
    let front = ids.drop_last();
    lemma_after_batch_shape(ms, front);
    if p < ids.len() - 1 {
        lemma_attempted_is_spent(ms, front, p);
    }
}

/// A paid milestone is never paid again. A single claim of it is refused;
/// a batch leaves it as it is and pays none of the attempts that name it,
/// however often they do.
pub proof fn law_paid_milestone_is_never_paid_again(
    r: RecordView,
    caller: Address,
    ids: Seq<u32>,
    id: u32,
)
    requires
        1 <= id <= r.milestones.len(),
        r.milestones[id - 1].claimed,
    ensures
        claim_milestone_error(r, caller, id) is Some,
        !claimable(r.milestones, id),
        after_batch(r.milestones, ids)[id - 1] == r.milestones[id - 1],
        forall|p: int| 0 <= p < ids.len() && ids[p] == id ==> !batch_pays_at(r.milestones, ids, p),
{
    lemma_paid_stays_as_is(r.milestones, ids, id);
    assert forall|p: int| 0 <= p < ids.len() && ids[p] == id implies !batch_pays_at(
        r.milestones,
        ids,
        p,
    ) by {
        lemma_paid_stays_as_is(r.milestones, ids.take(p), id);
    }
}

proof fn lemma_paid_stays_as_is(ms: Seq<Milestone>, ids: Seq<u32>, id: u32)
    requires
        1 <= id <= ms.len(),
        ms[id - 1].claimed,
    ensures
        after_batch(ms, ids).len() == ms.len(),
        after_batch(ms, ids)[id - 1] == ms[id - 1],
    decreases ids.len(),
{
    if ids.len() > 0 {
        lemma_paid_stays_as_is(ms, ids.drop_last(), id);
        lemma_after_batch_shape(ms, ids.drop_last());
    }
}

/// Of two attempts in one batch that name the same id, only the first can
/// be paid.
pub proof fn law_batch_pays_an_id_at_most_once(ms: Seq<Milestone>, ids: Seq<u32>, p: int, q: int)
    requires
        0 <= p < q < ids.len(),
        ids[p] == ids[q],
    ensures
        !batch_pays_at(ms, ids, q),
{
    lemma_attempted_is_spent(ms, ids.take(q), p);
}

proof fn lemma_spent_batch_is_idle(ms: Seq<Milestone>, ids: Seq<u32>)
    requires
        forall|p: int| 0 <= p < ids.len() ==> !claimable(ms, #[trigger] ids[p]),
    ensures
        after_batch(ms, ids) == ms,
        batch_successes(ms, ids) == 0,
        batch_total(ms, ids) == 0,
    decreases ids.len(),
{
    if ids.len() > 0 {
        let front = ids.drop_last();
        assert forall|p: int| 0 <= p < front.len() implies !claimable(ms, #[trigger] front[p]) by {
            assert(front[p] == ids[p]);
        }
        lemma_spent_batch_is_idle(ms, front);
        assert(ids.last() == ids[ids.len() - 1]);
    }
}

/// Replaying a batch pays nothing. If a batch claim was accepted, the same
/// call made again right after it is accepted too, pays no milestone and no
/// amount, and leaves the agreement as the first call left it.
pub proof fn law_batch_replay_pays_nothing(r: RecordView, caller: Address, ids: Seq<u32>)
    requires
        milestone_claim_gate(r, caller) is None,
    ensures
        ({
            let first = with_claimed_milestones(r, after_batch(r.milestones, ids));
            &&& milestone_claim_gate(first, caller) is None
            &&& batch_successes(first.milestones, ids) == 0
            &&& batch_total(first.milestones, ids) == 0
            &&& with_claimed_milestones(first, after_batch(first.milestones, ids)) == first
        }),
{
    let first = with_claimed_milestones(r, after_batch(r.milestones, ids));
    assert forall|p: int| 0 <= p < ids.len() implies !claimable(
        first.milestones,
        #[trigger] ids[p],
    ) by {
        lemma_attempted_is_spent(r.milestones, ids, p);
    }
    lemma_spent_batch_is_idle(first.milestones, ids);
}

/// No payroll claim, single or batch, is accepted before activation: on a
/// payroll agreement that is still `Created`, both fail with `InvalidData`.
pub proof fn law_payroll_claims_need_activation(
    c: ContractView,
    caller: Address,
    agreement_id: u128,
    employee_index: u32,
    now: u64,
)
    requires
        c.term(agreement_id) is Some,
        c.term(agreement_id).unwrap().info.mode == AgreementMode::Payroll,
        c.term(agreement_id).unwrap().info.status is Created,
    ensures
        refusal(
            c.term(agreement_id),
            payroll_claim_error(c.term(agreement_id).unwrap(), caller, employee_index, now),
        ) == Some(PayrollError::InvalidData),
        refusal(c.term(agreement_id), payroll_claim_gate(c.term(agreement_id).unwrap())) == Some(
            PayrollError::InvalidData,
        ),
{
}

/// Cancellation freezes what an escrow agreement has earned and opens the
/// grace window. After an active agreement was cancelled at `cancelled_at`,
/// the periods due at any later time are those due at the cancellation.
/// Up to the end of the grace window the contributor's claim is refused
/// only if nothing is left to pay or the escrow balance is short, and it
/// pays the periods earned before the cancellation. After the window every
/// claim fails with `NotInGracePeriod`.
pub proof fn law_cancelled_escrow_pays_within_grace(
    r: RecordView,
    employer: Address,
    contributor: Address,
    cancelled_at: u64,
    now: u64,
)
    requires
        r.wf(),
        r.info.mode == AgreementMode::Escrow,
        r.info.status is Active,
        r.info.contributor == Some(contributor),
        cancel_error(r, employer) is None,
        cancelled_at <= now,
    ensures
        ({
            let c = cancelled(r, cancelled_at);
            let earned = escrow_periods_due(r, cancelled_at) - r.escrow.unwrap().claimed_periods;
            &&& escrow_periods_due(c, now) == escrow_periods_due(r, cancelled_at)
            &&& now > grace_period_end(c.info) ==> escrow_claim_error(c, contributor, now) == Some(
                PayrollError::NotInGracePeriod,
            )
            &&& now <= grace_period_end(c.info) && earned <= 0 ==> escrow_claim_error(
                c,
                contributor,
                now,
            ) == Some(PayrollError::NoPeriodsToClaim)
            &&& now <= grace_period_end(c.info) && earned > 0 && r.info.escrow_balance
                < r.escrow.unwrap().amount_per_period * earned ==> escrow_claim_error(
                c,
                contributor,
                now,
            ) == Some(PayrollError::InsufficientFunds)
            &&& now <= grace_period_end(c.info) && earned > 0 && r.info.escrow_balance
                >= r.escrow.unwrap().amount_per_period * earned ==> {
                &&& escrow_claim_error(c, contributor, now) is None
                &&& escrow_claim_amount(c, now) == r.escrow.unwrap().amount_per_period * earned
                &&& after_escrow_claim(c, now).escrow.unwrap().claimed_periods
                    == escrow_periods_due(r, cancelled_at)
                &&& after_escrow_claim(c, now).info.status is Cancelled
            }
        }),
{
}

/// An agreement becomes `Completed` exactly when a claim leaves nothing to
/// pay. A claim call leaves a milestone agreement `Completed` if and only
/// if it was so before or every milestone is paid after the call; a claim
/// leaves an active escrow agreement `Completed` if and only if it paid the
/// last period; and activation, pause, resumption and cancellation never
/// make an agreement `Completed`.
pub proof fn law_completed_exactly_when_settled(
    r: RecordView,
    milestones: Seq<Milestone>,
    caller: Address,
    now: u64,
    status: AgreementStatus,
)
    ensures
        with_claimed_milestones(r, milestones).info.status is Completed <==> r.info.status
            is Completed || all_claimed(milestones),
        r.wf() && escrow_claim_error(r, caller, now) is None ==> (after_escrow_claim(
            r,
            now,
        ).info.status is Completed <==> r.info.status is Active && after_escrow_claim(
            r,
            now,
        ).escrow.unwrap().claimed_periods == r.escrow.unwrap().num_periods),
        activated(r, now).info.status is Active,
        cancelled(r, now).info.status is Cancelled,
        with_status(r, status).info.status == status,
{
}

/// A call on one agreement leaves every other agreement as it was. Where
/// a call replaces the record found under `id`, the record under any other
/// id, in either table, is the same before and after, and so are the owner
/// and the arbiter; two records of different tables that share an id are
/// apart as well.
pub proof fn law_calls_leave_other_agreements_alone(
    c: ContractView,
    id: u128,
    r: RecordView,
    other: u128,
)
    requires
        other != id,
    ensures
        c.term(id) is Some ==> c.put_term(id, r).term(other) == c.term(other),
        c.term(id) is Some ==> c.put_term(id, r).milestone_agreements == c.milestone_agreements,
        c.milestone(id) is Some ==> c.put_milestone(id, r).milestone(other) == c.milestone(other),
        c.milestone(id) is Some ==> c.put_milestone(id, r).agreements == c.agreements,
        c.lookup(id) is Some ==> c.put(id, r).term(other) == c.term(other),
        c.lookup(id) is Some ==> c.put(id, r).milestone(other) == c.milestone(other),
        c.lookup(id) is Some ==> c.put(id, r).lookup(other) == c.lookup(other),
        c.put(id, r).owner == c.owner,
        c.put(id, r).arbiter == c.arbiter,
{
}

/// A claim call on one agreement leaves every other agreement as it was.
pub proof fn law_claims_leave_other_agreements_alone(c: ContractView, call: ClaimCall, other: u128)
    requires
        other != match call {
            ClaimCall::Payroll { agreement_id, .. } => agreement_id,
            ClaimCall::PayrollBatch { agreement_id, .. } => agreement_id,
            ClaimCall::TimeBased { agreement_id, .. } => agreement_id,
            ClaimCall::Milestone { agreement_id, .. } => agreement_id,
            ClaimCall::MilestoneBatch { agreement_id, .. } => agreement_id,
        },
    ensures
        after_claim_call(c, call).term(other) == c.term(other),
        after_claim_call(c, call).milestone(other) == c.milestone(other),
        after_claim_call(c, call).owner == c.owner,
        after_claim_call(c, call).arbiter == c.arbiter,
{
}

/// Creating an agreement leaves every existing agreement as it was and
/// gives the new one an id above all ids of its table.
pub proof fn law_creation_keeps_existing_agreements(c: ContractView, r: RecordView, other: u128)
    requires
        c.term(other) is Some,
    ensures
        (ContractView { agreements: c.agreements.push(r), ..c }).term(other) == c.term(other),
        other < c.agreements.len() + 1,
{
}

/// Only the arbiter settles a dispute: for every other caller, and for
/// every caller while no arbiter is configured, `resolve_dispute` fails
/// with `NotArbiter`, whatever the agreement and the amounts.
pub proof fn law_only_the_arbiter_resolves(
    c: ContractView,
    caller: Address,
    id: u128,
    to_employer: i128,
    to_contributor: i128,
)
    requires
        c.arbiter != Some(caller),
    ensures
        resolve_dispute_error(c, caller, id, to_employer, to_contributor) == Some(
            PayrollError::NotArbiter,
        ),
{
}

/// A dispute is raised once and settled once. After a dispute was raised,
/// a party that raises it again is refused with `DisputeAlreadyRaised`. After
/// it was settled, settling it again is refused with `NoDispute`, and a
/// party that raises it again is refused with `DisputeAlreadyRaised`.
pub proof fn law_dispute_is_raised_and_settled_once(
    r: RecordView,
    party: Address,
    now: u64,
    to_employer: i128,
    to_contributor: i128,
    again_to_employer: i128,
    again_to_contributor: i128,
)
    requires
        r.is_party(party),
    ensures
        raise_dispute_error(with_dispute_raised(r, now), party) == Some(
            PayrollError::DisputeAlreadyRaised,
        ),
        settle_dispute_error(
            with_dispute_settled(r, to_employer, to_contributor),
            again_to_employer,
            again_to_contributor,
        ) == Some(PayrollError::NoDispute),
        raise_dispute_error(with_dispute_settled(r, to_employer, to_contributor), party) == Some(
            PayrollError::DisputeAlreadyRaised,
        ),
{
    let raised = with_dispute_raised(r, now);
    assert(raised.is_party(party)) by {
        if !(r.info.employer == party || r.info.contributor == Some(party)) {
            let j = choose|j: int| 0 <= j < r.employees.len() && (#[trigger] r.employees[j]).address == party;
            assert(raised.employees[j].address == party);
        }
    }
    let settled = with_dispute_settled(r, to_employer, to_contributor);
    assert(settled.is_party(party)) by {
        if !(r.info.employer == party || r.info.contributor == Some(party)) {
            let j = choose|j: int| 0 <= j < r.employees.len() && (#[trigger] r.employees[j]).address == party;
            assert(settled.employees[j].address == party);
        }
    }
}

/// One step along the paths of an agreement's life: an agreement is
/// activated out of `Created`, paused out of `Active`, resumed out of
/// `Paused`, cancelled out of `Active` or `Paused`, and completed out of
/// `Active`; `Cancelled` and `Completed` are left by no step.
pub open spec fn status_step(from: AgreementStatus, to: AgreementStatus) -> bool {
    match (from, to) {
        (AgreementStatus::Created, AgreementStatus::Active) => true,
        (AgreementStatus::Active, AgreementStatus::Paused) => true,
        (AgreementStatus::Paused, AgreementStatus::Active) => true,
        (AgreementStatus::Active, AgreementStatus::Cancelled) => true,
        (AgreementStatus::Paused, AgreementStatus::Cancelled) => true,
        (AgreementStatus::Active, AgreementStatus::Completed) => true,
        _ => false,
    }
}

/// The status of an agreement moves only along the paths of its life.
/// Every accepted activation, pause, resumption and cancellation takes one
/// step, and every accepted claim either leaves the status as it is or
/// takes the step from `Active` to `Completed`.
pub proof fn law_status_follows_the_paths(
    r: RecordView,
    caller: Address,
    now: u64,
    index: u32,
    id: u32,
    ids: Seq<u32>,
)
    requires
        r.wf(),
    ensures
        activate_error(r, caller) is None ==> status_step(
            r.info.status,
            activated(r, now).info.status,
        ),
        pause_error(r, caller) is None ==> status_step(
            r.info.status,
            with_status(r, AgreementStatus::Paused).info.status,
        ),
        resume_error(r, caller) is None ==> status_step(
            r.info.status,
            with_status(r, AgreementStatus::Active).info.status,
        ),
        cancel_error(r, caller) is None ==> status_step(
            r.info.status,
            cancelled(r, now).info.status,
        ),
        payroll_claim_error(r, caller, index, now) is None ==> after_payroll_claim(
            r,
            index,
            now,
        ).info.status == r.info.status,
        escrow_claim_error(r, caller, now) is None ==> after_escrow_claim(r, now).info.status
            == r.info.status || status_step(r.info.status, after_escrow_claim(r, now).info.status),
        milestone_claim_gate(r, caller) is None ==> with_claimed_milestones(
            r,
            after_batch(r.milestones, ids),
        ).info.status == r.info.status || status_step(
            r.info.status,
            with_claimed_milestones(r, after_batch(r.milestones, ids)).info.status,
        ),
        claim_milestone_error(r, caller, id) is None ==> with_claimed_milestones(
            r,
            mark_claimed(r.milestones, id - 1),
        ).info.status == r.info.status || status_step(
            r.info.status,
            with_claimed_milestones(r, mark_claimed(r.milestones, id - 1)).info.status,
        ),
{
    assert(set![AgreementStatus::Created].contains(r.info.status) ==> r.info.status is Created);
    assert(set![AgreementStatus::Active].contains(r.info.status) ==> r.info.status is Active);
    assert(set![AgreementStatus::Paused].contains(r.info.status) ==> r.info.status is Paused);
    assert(set![AgreementStatus::Active, AgreementStatus::Paused].contains(r.info.status)
        ==> r.info.status is Active || r.info.status is Paused);
}

/// What a claim pays is what its periods are worth. An accepted escrow
/// claim pays the amount per period for each period by which the count of
/// paid periods grows, an accepted payroll claim pays the salary for each,
/// and either payment leaves the escrow balance, which never goes below
/// nothing. The paid periods of an escrow agreement never exceed its number
/// of periods, so that what it has paid never exceeds its committed total.
pub proof fn law_payments_match_paid_periods(r: RecordView, caller: Address, index: u32, now: u64)
    requires
        r.wf(),
    ensures
        escrow_claim_error(r, caller, now) is None ==> {
            let after = after_escrow_claim(r, now);
            &&& escrow_claim_amount(r, now) == r.escrow.unwrap().amount_per_period * (
            after.escrow.unwrap().claimed_periods - r.escrow.unwrap().claimed_periods)
            &&& after.info.escrow_balance == r.info.escrow_balance - escrow_claim_amount(r, now)
            &&& after.info.escrow_balance >= 0
            &&& after.escrow.unwrap().claimed_periods <= r.escrow.unwrap().num_periods
            &&& r.escrow.unwrap().amount_per_period * after.escrow.unwrap().claimed_periods
                <= r.escrow.unwrap().amount_per_period * r.escrow.unwrap().num_periods
        },
        payroll_claim_error(r, caller, index, now) is None ==> {
            let after = after_payroll_claim(r, index, now);
            &&& payroll_claim_amount(r, index, now) == r.employees[index as int].salary * (
            after.employees[index as int].claimed_periods
                - r.employees[index as int].claimed_periods)
            &&& after.info.escrow_balance == r.info.escrow_balance - payroll_claim_amount(
                r,
                index,
                now,
            )
            &&& after.info.escrow_balance >= 0
        },
{
    if escrow_claim_error(r, caller, now) is None {
        let t = r.escrow.unwrap();
        let due = escrow_periods_due(r, now);
        assert(t.amount_per_period * due <= t.amount_per_period * t.num_periods)
            by (nonlinear_arith)
            requires
                t.amount_per_period > 0,
                0 <= due <= t.num_periods,
        ;
    }
    if payroll_claim_error(r, caller, index, now) is None {
        lemma_payroll_claim_step(r, caller, index, now);
    }
}

} // verus!
