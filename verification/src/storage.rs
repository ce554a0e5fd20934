//! The records of the agreement engine and their mathematical views.

use vstd::prelude::*;
use crate::address::Address;

verus! {

/// Which sub-record and which claim rule an agreement uses.
#[derive(Clone, Copy, Debug, PartialEq, Eq, Structural)]
pub enum AgreementMode {
    /// Several employees, each paid a salary per period.
    Payroll,
    /// One contributor, paid a fixed amount per period for a fixed number of periods.
    Escrow,
    /// One contributor, paid per approved milestone.
    Milestone,
}

/// Where an agreement stands in its life.
#[derive(Clone, Copy, Debug, PartialEq, Eq, Structural)]
pub enum AgreementStatus {
    Created,
    Active,
    Paused,
    Cancelled,
    Completed,
}

/// The state of the single dispute an agreement can carry.
#[derive(Clone, Copy, Debug, PartialEq, Eq, Structural)]
pub enum DisputeStatus {
    NoDispute,
    Raised,
    Resolved,
}

/// Why a call was refused. A refused call leaves the state as it was.
#[derive(Clone, Copy, Debug, PartialEq, Eq, Structural)]
pub enum PayrollError {
    /// The agreement is not in a state or of a mode that permits the call.
    InvalidData,
    /// The caller is not the party that may make the call.
    NotAuthorized,
    /// The caller is not the configured arbiter.
    NotArbiter,
    /// The agreement's dispute has already left `NoDispute`.
    DisputeAlreadyRaised,
    /// The agreement's dispute is not `Raised`.
    NoDispute,
    /// The agreement is cancelled and its grace window has closed.
    NotInGracePeriod,
    /// The agreement's escrow balance does not cover the payment.
    InsufficientFunds,
    /// Nothing has been earned beyond what was already claimed.
    NoPeriodsToClaim,
    /// A counter or an amount would leave its machine range.
    Overflow,
    /// An amount, a period length or a period count is not strictly positive,
    /// or a balance is negative.
    InvalidAmount,
    /// No agreement has the given id.
    AgreementNotFound,
    /// The agreement has no milestone with the given id.
    InvalidMilestoneId,
    /// The agreement has no employee at the given index.
    InvalidEmployeeIndex,
    /// The milestone has not been approved.
    NotApproved,
    /// The milestone has already been paid.
    AlreadyClaimed,
    /// The contract already has an owner.
    AlreadyInitialized,
    /// The contract has no owner yet.
    NotInitialized,
}

/// The top-level record of one agreement.
#[derive(Clone, Copy, Debug, PartialEq, Eq, Structural)]
pub struct Agreement {
    pub id: u128,
    pub employer: Address,
    /// The single counterparty of an escrow or milestone agreement.
    pub contributor: Option<Address>,
    pub token: Address,
    pub mode: AgreementMode,
    pub status: AgreementStatus,
    pub grace_period_seconds: u64,
    pub activated_at: Option<u64>,
    pub cancelled_at: Option<u64>,
    /// Length of one pay period in seconds; zero while it is not set.
    pub period_duration: u64,
    /// The funds earmarked for this agreement.
    pub escrow_balance: i128,
}

/// One employee of a payroll agreement.
#[derive(Clone, Copy, Debug, PartialEq, Eq, Structural)]
pub struct EmployeeEntry {
    pub index: u32,
    pub address: Address,
    pub salary: i128,
    pub claimed_periods: u32,
}

/// The terms of an escrow agreement.
#[derive(Clone, Copy, Debug, PartialEq, Eq, Structural)]
pub struct EscrowTerms {
    pub amount_per_period: i128,
    pub period_seconds: u64,
    pub num_periods: u32,
    pub claimed_periods: u32,
}

/// One milestone of a milestone agreement.
#[derive(Clone, Copy, Debug, PartialEq, Eq, Structural)]
pub struct Milestone {
    pub id: u32,
    pub amount: i128,
    pub approved: bool,
    pub claimed: bool,
}

/// The dispute record of one agreement.
#[derive(Clone, Copy, Debug, PartialEq, Eq, Structural)]
pub struct Dispute {
    pub status: DisputeStatus,
    pub raised_at: Option<u64>,
}

/// What a batch claim did: how many items were paid, how many were refused,
/// and the sum that was paid.
#[derive(Clone, Copy, Debug, PartialEq, Eq, Structural)]
pub struct BatchClaimResult {
    pub successful_claims: u32,
    pub failed_claims: u32,
    pub total_claimed: i128,
}

/// Grace window given to agreements whose creation names none.
pub const DEFAULT_GRACE_PERIOD_SECONDS: u64 = 604800;

/// Everything the engine stores for one agreement.
pub struct AgreementRecord {
    pub info: Agreement,
    /// The terms of an escrow agreement; `None` for the other modes.
    pub escrow: Option<EscrowTerms>,
    pub dispute: Dispute,
    /// The employees of a payroll agreement, in order of enrolment.
    pub employees: Vec<EmployeeEntry>,
    /// The milestones of a milestone agreement, in order of their ids.
    pub milestones: Vec<Milestone>,
}

/// The mathematical value of an [`AgreementRecord`].
pub struct RecordView {
    pub info: Agreement,
    pub escrow: Option<EscrowTerms>,
    pub dispute: Dispute,
    pub employees: Seq<EmployeeEntry>,
    pub milestones: Seq<Milestone>,
}

impl View for AgreementRecord {
    type V = RecordView;

    open spec fn view(&self) -> RecordView {
        RecordView {
            info: self.info,
            escrow: self.escrow,
            dispute: self.dispute,
            employees: self.employees@,
            milestones: self.milestones@,
        }
    }
}

/// Sum of the amounts of all milestones in `ms`.
pub open spec fn total_amount(ms: Seq<Milestone>) -> int
    decreases ms.len(),
{
    if ms.len() == 0 {
        0
    } else {
        total_amount(ms.drop_last()) + ms.last().amount
    }
}

/// Sum of the amounts of the milestones in `ms` that have been paid.
pub open spec fn claimed_amount(ms: Seq<Milestone>) -> int
    decreases ms.len(),
{
    if ms.len() == 0 {
        0
    } else {
        claimed_amount(ms.drop_last()) + if ms.last().claimed {
            ms.last().amount as int
        } else {
            0
        }
    }
}

/// Number of milestones in `ms` that have been paid.
pub open spec fn claimed_count(ms: Seq<Milestone>) -> int
    decreases ms.len(),
{
    if ms.len() == 0 {
        0
    } else {
        claimed_count(ms.drop_last()) + if ms.last().claimed {
            1int
        } else {
            0
        }
    }
}

/// Every milestone in `ms` has been paid.
pub open spec fn all_claimed(ms: Seq<Milestone>) -> bool {
    forall|j: int| 0 <= j < ms.len() ==> (#[trigger] ms[j]).claimed
}

/// Whole periods of length `period` that lie between `start` and `now`.
pub open spec fn periods_elapsed(start: u64, now: u64, period: u64) -> int {
    if now <= start || period == 0 {
        0
    } else {
        (now - start) / (period as int)
    }
}

impl RecordView {
    /// The employees are numbered from zero and each has a positive salary.
    pub open spec fn employees_wf(self) -> bool {
        &&& self.employees.len() <= u32::MAX
        &&& forall|j: int|
            0 <= j < self.employees.len() ==> {
                &&& (#[trigger] self.employees[j]).index == j
                &&& self.employees[j].salary > 0
            }
    }

    /// The milestones are numbered from one, each has a positive amount, a
    /// paid one was approved before, and their sum fits the amount type.
    pub open spec fn milestones_wf(self) -> bool {
        &&& self.milestones.len() <= u32::MAX
        &&& forall|j: int|
            0 <= j < self.milestones.len() ==> {
                &&& (#[trigger] self.milestones[j]).id == j + 1
                &&& self.milestones[j].amount > 0
                &&& self.milestones[j].claimed ==> self.milestones[j].approved
            }
        &&& total_amount(self.milestones) <= i128::MAX
    }

    /// The sub-records that the agreement's mode calls for are present and
    /// the others are empty.
    pub open spec fn mode_wf(self) -> bool {
        match self.info.mode {
            AgreementMode::Payroll => {
                &&& self.escrow is None
                &&& self.info.contributor is None
                &&& self.milestones.len() == 0
            },
            AgreementMode::Escrow => {
                &&& self.escrow is Some
                &&& self.info.contributor is Some
                &&& self.employees.len() == 0
                &&& self.milestones.len() == 0
                &&& self.escrow.unwrap().amount_per_period > 0
                &&& self.escrow.unwrap().period_seconds > 0
                &&& self.escrow.unwrap().num_periods > 0
                &&& self.escrow.unwrap().claimed_periods <= self.escrow.unwrap().num_periods
                &&& self.escrow.unwrap().amount_per_period * self.escrow.unwrap().num_periods
                    <= i128::MAX
                &&& self.info.period_duration == self.escrow.unwrap().period_seconds
            },
            AgreementMode::Milestone => {
                &&& self.escrow is None
                &&& self.info.contributor is Some
                &&& self.employees.len() == 0
                &&& self.info.activated_at is None
            },
        }
    }

    /// The time stamps agree with the status: an agreement that was never
    /// activated has no activation time, one that left `Created` through
    /// activation has one, and exactly the cancelled ones have a
    /// cancellation time.
    pub open spec fn status_wf(self) -> bool {
        &&& self.info.status is Created ==> self.info.activated_at is None
        &&& self.info.mode != AgreementMode::Milestone && !(self.info.status is Created)
            ==> self.info.activated_at is Some
        &&& self.info.mode == AgreementMode::Milestone ==> !(self.info.status is Created)
        &&& self.info.status is Cancelled <==> self.info.cancelled_at is Some
        &&& self.info.status is Completed && self.info.mode == AgreementMode::Escrow
            ==> self.escrow.unwrap().claimed_periods == self.escrow.unwrap().num_periods
    }

    /// The invariant of one agreement's record.
    pub open spec fn wf(self) -> bool {
        &&& self.employees_wf()
        &&& self.milestones_wf()
        &&& self.mode_wf()
        &&& self.status_wf()
        &&& self.info.escrow_balance >= 0
        &&& self.dispute.status is NoDispute <==> self.dispute.raised_at is None
    }

    /// `who` is the employer, the contributor or one of the employees.
    pub open spec fn is_party(self, who: Address) -> bool {
        ||| self.info.employer == who
        ||| self.info.contributor == Some(who)
        ||| exists|j: int| 0 <= j < self.employees.len() && (#[trigger] self.employees[j]).address == who
    }
}

} // verus!
