//! The five claim calls as values, and the state that a sequence of them
//! leaves behind.

use vstd::prelude::*;
use crate::address::Address;
use crate::contract::{ContractView, refusal};
use crate::escrow_claim::{after_escrow_claim, escrow_claim_error};
use crate::milestone::{
    after_batch, claim_milestone_error, mark_claimed, milestone_claim_gate,
    with_claimed_milestones,
};
use crate::payroll_claim::{
    after_payroll_batch, after_payroll_claim, payroll_claim_error, payroll_claim_gate,
};

verus! {

/// One call of a claim function, with its arguments.
pub enum ClaimCall {
    Payroll { caller: Address, agreement_id: u128, employee_index: u32, now: u64 },
    PayrollBatch { caller: Address, agreement_id: u128, indices: Seq<u32>, now: u64 },
    TimeBased { caller: Address, agreement_id: u128, now: u64 },
    Milestone { caller: Address, agreement_id: u128, milestone_id: u32 },
    MilestoneBatch { caller: Address, agreement_id: u128, ids: Seq<u32> },
}

/// The state after `call` was made on `c`: the state that the claim
/// function leaves, whether it paid or refused.
pub open spec fn after_claim_call(c: ContractView, call: ClaimCall) -> ContractView {
    match call {
        ClaimCall::Payroll { caller, agreement_id, employee_index, now } => {
            let found = c.term(agreement_id);
            if refusal(found, payroll_claim_error(found.unwrap(), caller, employee_index, now))
                is None {
                c.put_term(agreement_id, after_payroll_claim(found.unwrap(), employee_index, now))
            } else {
                c
            }
        },
        ClaimCall::PayrollBatch { caller, agreement_id, indices, now } => {
            let found = c.term(agreement_id);
            if refusal(found, payroll_claim_gate(found.unwrap())) is None {
                c.put_term(agreement_id, after_payroll_batch(found.unwrap(), caller, indices, now))
            } else {
                c
            }
        },
        ClaimCall::TimeBased { caller, agreement_id, now } => {
            let found = c.term(agreement_id);
            if refusal(found, escrow_claim_error(found.unwrap(), caller, now)) is None {
                c.put_term(agreement_id, after_escrow_claim(found.unwrap(), now))
            } else {
                c
            }
        },
        ClaimCall::Milestone { caller, agreement_id, milestone_id } => {
            let found = c.milestone(agreement_id);
            if refusal(found, claim_milestone_error(found.unwrap(), caller, milestone_id))
                is None {
                c.put_milestone(
                    agreement_id,
                    with_claimed_milestones(
                        found.unwrap(),
                        mark_claimed(found.unwrap().milestones, milestone_id - 1),
                    ),
                )
            } else {
                c
            }
        },
        ClaimCall::MilestoneBatch { caller, agreement_id, ids } => {
            let found = c.milestone(agreement_id);
            if refusal(found, milestone_claim_gate(found.unwrap(), caller)) is None {
                c.put_milestone(
                    agreement_id,
                    with_claimed_milestones(
                        found.unwrap(),
                        after_batch(found.unwrap().milestones, ids),
                    ),
                )
            } else {
                c
            }
        },
    }
}

/// The state after the calls of `calls` were made on `c`, from left to right.
pub open spec fn after_claim_calls(c: ContractView, calls: Seq<ClaimCall>) -> ContractView
    decreases calls.len(),
{
    if calls.len() == 0 {
        c
    } else {
        after_claim_call(after_claim_calls(c, calls.drop_last()), calls.last())
    }
}

} // verus!
