//! An N-of-M approver: signers propose operations and approve them, and an
//! operation is executed once as many signers as the threshold asks for
//! have approved it.

use vstd::prelude::*;
use vstd::seq_lib::seq_to_set_is_finite;
use vstd::set_lib::lemma_len_subset;
use crate::address::Address;

verus! {

/// What an operation does once it is executed.
#[derive(Clone, Copy, Debug, PartialEq, Eq)]
pub enum OperationKind {
    /// Upgrade of a contract: the target and the hash of the new code.
    ContractUpgrade(Address, [u8; 32]),
    /// A payment out of the approver's own funds: the token, the recipient
    /// and the amount.
    LargePayment(Address, Address, i128),
    /// The settlement of a dispute elsewhere: the contract, the agreement,
    /// what the employee is paid and what the employer gets back.
    DisputeResolution(Address, u128, i128, i128),
}

/// Where an operation stands.
#[derive(Clone, Copy, Debug, PartialEq, Eq, Structural)]
pub enum OperationStatus {
    Pending,
    Executed,
    Cancelled,
}

/// A proposed operation.
#[derive(Clone, Copy, Debug, PartialEq, Eq)]
pub struct Operation {
    pub id: u128,
    pub kind: OperationKind,
    pub creator: Address,
    pub status: OperationStatus,
    pub created_at: u64,
    pub executed_at: Option<u64>,
}

/// An operation was proposed.
#[derive(Clone, Copy, Debug, PartialEq, Eq, Structural)]
pub struct OperationProposedEvent {
    pub operation_id: u128,
    pub creator: Address,
}

/// A signer approved an operation; `approvals` counts this approval.
#[derive(Clone, Copy, Debug, PartialEq, Eq, Structural)]
pub struct OperationApprovedEvent {
    pub operation_id: u128,
    pub signer: Address,
    pub approvals: u32,
    pub threshold: u32,
}

/// An operation was executed.
#[derive(Clone, Copy, Debug, PartialEq, Eq, Structural)]
pub struct OperationExecutedEvent {
    pub operation_id: u128,
}

/// An operation was cancelled.
#[derive(Clone, Copy, Debug, PartialEq, Eq, Structural)]
pub struct OperationCancelledEvent {
    pub operation_id: u128,
}

/// What a proposal did: the operation it created and, if the proposer's
/// own approval met the threshold, its execution.
#[derive(Clone, Copy, Debug, PartialEq, Eq, Structural)]
pub struct ProposalOutcome {
    pub proposed: OperationProposedEvent,
    pub executed: Option<OperationExecutedEvent>,
}

/// What an approval did: the approval it recorded, unless the signer had
/// approved before, and the execution it led to, if any.
#[derive(Clone, Copy, Debug, PartialEq, Eq, Structural)]
pub struct ApprovalOutcome {
    pub approved: Option<OperationApprovedEvent>,
    pub executed: Option<OperationExecutedEvent>,
}

/// Why a call was refused. A refused call leaves the state as it was.
#[derive(Clone, Copy, Debug, PartialEq, Eq, Structural)]
pub enum MultisigError {
    NotInitialized,
    AlreadyInitialized,
    NoSigners,
    /// There are more signers than an approval count can hold.
    TooManySigners,
    /// The threshold is zero or above the number of signers.
    InvalidThreshold,
    /// A signer is named twice.
    DuplicateSigner,
    /// The caller is not a signer.
    NotSigner,
    OperationNotFound,
    /// The operation is not `Pending`.
    NotPending,
    /// The caller is neither the creator of the operation nor the owner.
    NotAuthorized,
    /// The caller is not the emergency guardian.
    NotGuardian,
    /// The payment to execute is not strictly positive.
    InvalidAmount,
}

/// What is stored for one operation.
pub struct OperationEntry {
    pub operation: Operation,
    /// The signers that approved, in order of approval.
    pub approvals: Vec<Address>,
}

/// The mathematical value of an [`OperationEntry`].
pub struct OperationView {
    pub operation: Operation,
    /// The signers that approved, in order of approval.
    pub approvals: Seq<Address>,
}

impl View for OperationEntry {
    type V = OperationView;

    open spec fn view(&self) -> OperationView {
        OperationView { operation: self.operation, approvals: self.approvals@ }
    }
}

/// The approver's state.
pub struct MultisigContract {
    owner: Option<Address>,
    emergency_guardian: Option<Address>,
    signers: Vec<Address>,
    threshold: u32,
    operations: Vec<OperationEntry>,
}

/// The mathematical value of a [`MultisigContract`].
pub struct MultisigView {
    pub owner: Option<Address>,
    pub emergency_guardian: Option<Address>,
    pub signers: Seq<Address>,
    pub threshold: u32,
    /// The operations; the one with id `n` is at `n - 1`.
    pub operations: Seq<OperationView>,
}

impl View for MultisigContract {
    type V = MultisigView;

    closed spec fn view(&self) -> MultisigView {
        MultisigView {
            owner: self.owner,
            emergency_guardian: self.emergency_guardian,
            signers: self.signers@,
            threshold: self.threshold,
            operations: Seq::new(self.operations@.len(), |i: int| self.operations@[i]@),
        }
    }
}

/// Why an operation of this kind cannot be executed, if anything: a
/// payment must be strictly positive.
pub open spec fn execution_error(kind: OperationKind) -> Option<MultisigError> {
    match kind {
        OperationKind::LargePayment(_, _, amount) => if amount <= 0 {
            Some(MultisigError::InvalidAmount)
        } else {
            None
        },
        _ => None,
    }
}

/// The operation after it was executed at `now`.
pub open spec fn executed_at(op: Operation, now: u64) -> Operation {
    Operation { status: OperationStatus::Executed, executed_at: Some(now), ..op }
}

/// The entry of an operation with `approvals`, executed at `now` if the
/// approvals meet `threshold`.
pub open spec fn settled(op: Operation, approvals: Seq<Address>, threshold: u32, now: u64)
    -> OperationView {
    OperationView {
        operation: if approvals.len() >= threshold {
            executed_at(op, now)
        } else {
            op
        },
        approvals,
    }
}

impl MultisigView {
    /// The operation with this id.
    pub open spec fn operation(self, id: u128) -> Option<OperationView> {
        if 1 <= id <= self.operations.len() {
            Some(self.operations[id - 1])
        } else {
            None
        }
    }

    /// This state with the operation `id` replaced by `entry`.
    pub open spec fn put(self, id: u128, entry: OperationView) -> MultisigView {
        MultisigView { operations: self.operations.update(id - 1, entry), ..self }
    }

    /// The invariant of the approver. Without an owner there are no
    /// operations. With one, there is at least one signer and none twice,
    /// and the threshold lies between one and the number of signers. Every
    /// operation sits at the place its id names; only signers approved it,
    /// none twice; and while it is pending its approvals are below the
    /// threshold.
    pub open spec fn wf(self) -> bool {
        &&& self.owner is None ==> self.operations.len() == 0
        &&& self.owner is Some ==> {
            &&& 0 < self.signers.len() <= u32::MAX
            &&& 1 <= self.threshold <= self.signers.len()
            &&& self.signers.no_duplicates()
        }
        &&& forall|i: int|
            0 <= i < self.operations.len() ==> {
                &&& (#[trigger] self.operations[i]).operation.id == i + 1
                &&& self.operations[i].approvals.no_duplicates()
                &&& forall|j: int|
                    0 <= j < self.operations[i].approvals.len() ==> self.signers.contains(
                        #[trigger] self.operations[i].approvals[j],
                    )
                &&& self.operations[i].operation.status is Pending
                    ==> self.operations[i].approvals.len() < self.threshold
            }
    }
}

/// Why the approver cannot be set up with these signers and this
/// threshold, if anything.
pub open spec fn initialize_error(v: MultisigView, signers: Seq<Address>, threshold: u32) -> Option<
    MultisigError,
> {
    if v.owner is Some {
        Some(MultisigError::AlreadyInitialized)
    } else if signers.len() == 0 {
        Some(MultisigError::NoSigners)
    } else if signers.len() > u32::MAX {
        Some(MultisigError::TooManySigners)
    } else if threshold == 0 || threshold > signers.len() {
        Some(MultisigError::InvalidThreshold)
    } else if !signers.no_duplicates() {
        Some(MultisigError::DuplicateSigner)
    } else {
        None
    }
}

/// Why `proposer` may not propose an operation of this kind, if anything.
/// Where the proposer's own approval meets the threshold, the operation
/// must be one that can be executed.
pub open spec fn propose_error(v: MultisigView, proposer: Address, kind: OperationKind) -> Option<
    MultisigError,
> {
    if v.owner is None {
        Some(MultisigError::NotInitialized)
    } else if !v.signers.contains(proposer) {
        Some(MultisigError::NotSigner)
    } else if v.threshold <= 1 {
        execution_error(kind)
    } else {
        None
    }
}

/// Why `signer` may not approve operation `id`, if anything. Where the
/// approval meets the threshold, the operation must be one that can be
/// executed.
pub open spec fn approve_error(v: MultisigView, signer: Address, id: u128) -> Option<MultisigError> {
    if v.owner is None {
        Some(MultisigError::NotInitialized)
    } else if !v.signers.contains(signer) {
        Some(MultisigError::NotSigner)
    } else if v.operation(id) is None {
        Some(MultisigError::OperationNotFound)
    } else if !(v.operation(id).unwrap().operation.status is Pending) {
        Some(MultisigError::NotPending)
    } else if !v.operation(id).unwrap().approvals.contains(signer) && v.operation(
        id,
    ).unwrap().approvals.len() + 1 >= v.threshold {
        execution_error(v.operation(id).unwrap().operation.kind)
    } else {
        None
    }
}

/// Why `caller` may not cancel operation `id`, if anything.
pub open spec fn cancel_error(v: MultisigView, caller: Address, id: u128) -> Option<MultisigError> {
    if v.owner is None {
        Some(MultisigError::NotInitialized)
    } else if v.operation(id) is None {
        Some(MultisigError::OperationNotFound)
    } else if !(v.operation(id).unwrap().operation.status is Pending) {
        Some(MultisigError::NotPending)
    } else if caller != v.operation(id).unwrap().operation.creator && Some(caller) != v.owner {
        Some(MultisigError::NotAuthorized)
    } else {
        None
    }
}

/// Why `caller` may not execute operation `id` as the emergency guardian,
/// if anything.
pub open spec fn emergency_error(v: MultisigView, caller: Address, id: u128) -> Option<
    MultisigError,
> {
    if v.owner is None {
        Some(MultisigError::NotInitialized)
    } else if v.emergency_guardian != Some(caller) {
        Some(MultisigError::NotGuardian)
    } else if v.operation(id) is None {
        Some(MultisigError::OperationNotFound)
    } else if !(v.operation(id).unwrap().operation.status is Pending) {
        Some(MultisigError::NotPending)
    } else {
        execution_error(v.operation(id).unwrap().operation.kind)
    }
}

/// No operation has more approvals than there are signers: only signers
/// approve, and none twice.
pub proof fn law_approvals_never_exceed_signers(v: MultisigView, id: u128)
    requires
        v.wf(),
        v.operation(id) is Some,
    ensures
        v.operation(id).unwrap().approvals.len() <= v.signers.len(),
{
    let approvals = v.operation(id).unwrap().approvals;
    let signers = v.signers;
    assert(v.operations[id - 1].approvals.no_duplicates());
    approvals.unique_seq_to_set();
    signers.lemma_cardinality_of_set();
    seq_to_set_is_finite(signers);
    assert(approvals.to_set().subset_of(signers.to_set())) by {
        assert forall|a: Address| approvals.to_set().contains(a) implies signers.to_set().contains(
            a,
        ) by {
            let j = choose|j: int| 0 <= j < approvals.len() && approvals[j] == a;
            assert(signers.contains(approvals[j]));
        }
    }
    lemma_len_subset(approvals.to_set(), signers.to_set());
}

/// `who` occurs in `list`.
fn list_contains(list: &Vec<Address>, who: Address) -> (found: bool)
    ensures
        found == list@.contains(who),
{
    let mut k: usize = 0;
    while k < list.len()
        invariant
            k <= list@.len(),
            forall|i: int| 0 <= i < k ==> list@[i] != who,
        decreases list@.len() - k,
    {
        if list[k] == who {
            return true;
        }
        k += 1;
    }
    false
}

/// No address occurs twice in `list`.
fn all_distinct(list: &Vec<Address>) -> (distinct: bool)
    ensures
        distinct == list@.no_duplicates(),
{
    let mut i: usize = 0;
    while i < list.len()
        invariant
            i <= list@.len(),
            forall|a: int, b: int| 0 <= a < i && a < b < list@.len() ==> list@[a] != list@[b],
        decreases list@.len() - i,
    {
        let mut j: usize = i + 1;
        while j < list.len()
            invariant
                i < list@.len(),
                i < j <= list@.len(),
                forall|b: int| i < b < j ==> list@[i as int] != list@[b],
            decreases list@.len() - j,
        {
            if list[i] == list[j] {
                return false;
            }
            j += 1;
        }
        i += 1;
    }
    proof {
        assert forall|a: int, b: int|
            0 <= a < list@.len() && 0 <= b < list@.len() && a != b implies list@[a] != list@[b] by {
            if a < b {
                assert(list@[a] != list@[b]);
            } else {
                assert(list@[b] != list@[a]);
            }
        }
    }
    true
}

fn copy_list(list: &Vec<Address>) -> (copy: Vec<Address>)
    ensures
        copy@ == list@,
{
    let mut copy: Vec<Address> = Vec::new();
    let mut k: usize = 0;
    while k < list.len()
        invariant
            k <= list@.len(),
            copy@ == list@.take(k as int),
        decreases list@.len() - k,
    {
        copy.push(list[k]);
        proof {
            assert(list@.take(k + 1) =~= list@.take(k as int).push(list@[k as int]));
        }
        k += 1;
    }
    proof {
        assert(list@.take(k as int) =~= list@);
    }
    copy
}

/// Whether an operation of this kind can be executed.
fn can_execute(kind: &OperationKind) -> (res: Result<(), MultisigError>)
    ensures
        match res {
            Ok(_) => execution_error(*kind) is None,
            Err(e) => execution_error(*kind) == Some(e),
        },
{
    match kind {
        OperationKind::LargePayment(_, _, amount) => {
            if *amount <= 0 {
                Err(MultisigError::InvalidAmount)
            } else {
                Ok(())
            }
        },
        _ => Ok(()),
    }
}

impl MultisigContract {
    /// An approver that has not been set up: it has no owner, no emergency
    /// guardian, no signers and no operations, and its threshold is zero.
    pub fn new() -> (c: MultisigContract)
        ensures
            c@.wf(),
            c@.owner is None,
            c@.emergency_guardian is None,
            c@.signers.len() == 0,
            c@.threshold == 0,
            c@.operations.len() == 0,
    {
        MultisigContract {
            owner: None,
            emergency_guardian: None,
            signers: Vec::new(),
            threshold: 0,
            operations: Vec::new(),
        }
    }

    /// Sets the approver up with its owner, its signers, the number of
    /// approvals an operation needs and, if wanted, an emergency guardian.
    /// This can be done once.
    pub fn initialize(
        &mut self,
        owner: Address,
        signers: Vec<Address>,
        threshold: u32,
        emergency_guardian: Option<Address>,
    ) -> (res: Result<(), MultisigError>)
        requires
            old(self)@.wf(),
        ensures
            final(self)@.wf(),
            match res {
                Ok(_) => {
                    &&& initialize_error(old(self)@, signers@, threshold) is None
                    &&& final(self)@ == (MultisigView {
                        owner: Some(owner),
                        emergency_guardian,
                        signers: signers@,
                        threshold,
                        operations: Seq::empty(),
                    })
                },
                Err(e) => {
                    &&& initialize_error(old(self)@, signers@, threshold) == Some(e)
                    &&& final(self)@ == old(self)@
                },
            },
    {
        if self.owner.is_some() {
            return Err(MultisigError::AlreadyInitialized);
        }
        if signers.len() == 0 {
            return Err(MultisigError::NoSigners);
        }
        if signers.len() > u32::MAX as usize {
            return Err(MultisigError::TooManySigners);
        }
        if threshold == 0 || threshold as usize > signers.len() {
            return Err(MultisigError::InvalidThreshold);
        }
        if !all_distinct(&signers) {
            return Err(MultisigError::DuplicateSigner);
        }
        self.owner = Some(owner);
        self.emergency_guardian = emergency_guardian;
        self.signers = signers;
        self.threshold = threshold;
        proof {
            assert(self@.operations =~= Seq::empty());
        }
        Ok(())
    }

    /// Proposes an operation on behalf of a signer, at `now`. The proposer
    /// approves it by proposing; where that meets the threshold the
    /// operation is executed at once.
    pub fn propose_operation(&mut self, proposer: Address, kind: OperationKind, now: u64) -> (res:
        Result<ProposalOutcome, MultisigError>)
        requires
            old(self)@.wf(),
        ensures
            final(self)@.wf(),
            match res {
                Ok(outcome) => {
                    let id = (old(self)@.operations.len() + 1) as u128;
                    let op = Operation {
                        id,
                        kind,
                        creator: proposer,
                        status: OperationStatus::Pending,
                        created_at: now,
                        executed_at: None,
                    };
                    &&& propose_error(old(self)@, proposer, kind) is None
                    &&& outcome.proposed == (OperationProposedEvent {
                        operation_id: id,
                        creator: proposer,
                    })
                    &&& outcome.executed == if old(self)@.threshold <= 1 {
                        Some(OperationExecutedEvent { operation_id: id })
                    } else {
                        None
                    }
                    &&& final(self)@ == (MultisigView {
                        operations: old(self)@.operations.push(
                            settled(op, seq![proposer], old(self)@.threshold, now),
                        ),
                        ..old(self)@
                    })
                },
                Err(e) => {
                    &&& propose_error(old(self)@, proposer, kind) == Some(e)
                    &&& final(self)@ == old(self)@
                },
            },
    {
        if self.owner.is_none() {
            return Err(MultisigError::NotInitialized);
        }
        if !list_contains(&self.signers, proposer) {
            return Err(MultisigError::NotSigner);
        }
        let executes = self.threshold <= 1;
        if executes {
            match can_execute(&kind) {
                Ok(_) => {},
                Err(e) => {
                    return Err(e);
                },
            }
        }
        let id: u128 = self.operations.len() as u128 + 1;
        let mut approvals: Vec<Address> = Vec::new();
        approvals.push(proposer);
        let entry = OperationEntry {
            operation: Operation {
                id,
                kind,
                creator: proposer,
                status: if executes {
                    OperationStatus::Executed
                } else {
                    OperationStatus::Pending
                },
                created_at: now,
                executed_at: if executes {
                    Some(now)
                } else {
                    None
                },
            },
            approvals,
        };
        proof {
            assert(entry@.approvals =~= seq![proposer]);
        }
        self.operations.push(entry);
        proof {
            assert(self@.operations =~= old(self)@.operations.push(entry@));
        }
        Ok(
            ProposalOutcome {
                proposed: OperationProposedEvent { operation_id: id, creator: proposer },
                executed: if executes {
                    Some(OperationExecutedEvent { operation_id: id })
                } else {
                    None
                },
            },
        )
    }

    /// Records the approval of a pending operation by a signer, at `now`.
    /// A signer that approves again changes nothing. Where the approval
    /// meets the threshold the operation is executed at once.
    pub fn approve_operation(&mut self, signer: Address, operation_id: u128, now: u64) -> (res:
        Result<ApprovalOutcome, MultisigError>)
        requires
            old(self)@.wf(),
        ensures
            final(self)@.wf(),
            match res {
                Ok(outcome) => {
                    let entry = old(self)@.operation(operation_id).unwrap();
                    &&& approve_error(old(self)@, signer, operation_id) is None
                    &&& entry.approvals.contains(signer) ==> {
                        &&& outcome == (ApprovalOutcome { approved: None, executed: None })
                        &&& final(self)@ == old(self)@
                    }
                    &&& !entry.approvals.contains(signer) ==> {
                        &&& outcome.approved == Some(
                            OperationApprovedEvent {
                                operation_id,
                                signer,
                                approvals: (entry.approvals.len() + 1) as u32,
                                threshold: old(self)@.threshold,
                            },
                        )
                        &&& outcome.executed == if entry.approvals.len() + 1 >= old(
                            self,
                        )@.threshold {
                            Some(OperationExecutedEvent { operation_id })
                        } else {
                            None
                        }
                        &&& final(self)@ == old(self)@.put(
                            operation_id,
                            settled(
                                entry.operation,
                                entry.approvals.push(signer),
                                old(self)@.threshold,
                                now,
                            ),
                        )
                    }
                },
                Err(e) => {
                    &&& approve_error(old(self)@, signer, operation_id) == Some(e)
                    &&& final(self)@ == old(self)@
                },
            },
    {
        if self.owner.is_none() {
            return Err(MultisigError::NotInitialized);
        }
        if !list_contains(&self.signers, signer) {
            return Err(MultisigError::NotSigner);
        }
        if operation_id < 1 || operation_id > self.operations.len() as u128 {
            return Err(MultisigError::OperationNotFound);
        }
        let k: usize = (operation_id - 1) as usize;
        if self.operations[k].operation.status != OperationStatus::Pending {
            return Err(MultisigError::NotPending);
        }
        if list_contains(&self.operations[k].approvals, signer) {
            return Ok(ApprovalOutcome { approved: None, executed: None });
        }
        proof {
            let entry = self@.operations[k as int];
            assert(entry.approvals.len() < self@.threshold);
            assert(entry.approvals.push(signer).no_duplicates());
            assert forall|j: int| 0 <= j < entry.approvals.push(signer).len() implies self@.signers.contains(
                #[trigger] entry.approvals.push(signer)[j],
            ) by {
                if j < entry.approvals.len() {
                    assert(self@.signers.contains(entry.approvals[j]));
                }
            }
        }
        let count: u32 = (self.operations[k].approvals.len() + 1) as u32;
        let executes = count >= self.threshold;
        if executes {
            match can_execute(&self.operations[k].operation.kind) {
                Ok(_) => {},
                Err(e) => {
                    return Err(e);
                },
            }
        }
        self.operations[k].approvals.push(signer);
        if executes {
            self.operations[k].operation.status = OperationStatus::Executed;
            self.operations[k].operation.executed_at = Some(now);
        }
        proof {
            let entry = old(self)@.operation(operation_id).unwrap();
            let goal = old(self)@.put(
                operation_id,
                settled(entry.operation, entry.approvals.push(signer), old(self)@.threshold, now),
            );
            assert(self@.operations =~= goal.operations);
        }
        Ok(
            ApprovalOutcome {
                approved: Some(
                    OperationApprovedEvent {
                        operation_id,
                        signer,
                        approvals: count,
                        threshold: self.threshold,
                    },
                ),
                executed: if executes {
                    Some(OperationExecutedEvent { operation_id })
                } else {
                    None
                },
            },
        )
    }

    /// Cancels a pending operation on behalf of its creator or of the owner.
    pub fn cancel_operation(&mut self, caller: Address, operation_id: u128) -> (res: Result<
        OperationCancelledEvent,
        MultisigError,
    >)
        requires
            old(self)@.wf(),
        ensures
            final(self)@.wf(),
            match res {
                Ok(event) => {
                    let entry = old(self)@.operation(operation_id).unwrap();
                    &&& cancel_error(old(self)@, caller, operation_id) is None
                    &&& event == (OperationCancelledEvent { operation_id })
                    &&& final(self)@ == old(self)@.put(
                        operation_id,
                        OperationView {
                            operation: Operation {
                                status: OperationStatus::Cancelled,
                                ..entry.operation
                            },
                            ..entry
                        },
                    )
                },
                Err(e) => {
                    &&& cancel_error(old(self)@, caller, operation_id) == Some(e)
                    &&& final(self)@ == old(self)@
                },
            },
    {
        if self.owner.is_none() {
            return Err(MultisigError::NotInitialized);
        }
        if operation_id < 1 || operation_id > self.operations.len() as u128 {
            return Err(MultisigError::OperationNotFound);
        }
        let k: usize = (operation_id - 1) as usize;
        if self.operations[k].operation.status != OperationStatus::Pending {
            return Err(MultisigError::NotPending);
        }
        if caller != self.operations[k].operation.creator && Some(caller) != self.owner {
            return Err(MultisigError::NotAuthorized);
        }
        self.operations[k].operation.status = OperationStatus::Cancelled;
        proof {
            let entry = old(self)@.operation(operation_id).unwrap();
            let goal = old(self)@.put(
                operation_id,
                OperationView {
                    operation: Operation { status: OperationStatus::Cancelled, ..entry.operation },
                    ..entry
                },
            );
            assert(self@.operations =~= goal.operations);
        }
        Ok(OperationCancelledEvent { operation_id })
    }

    /// Executes a pending operation at `now` on behalf of the emergency
    /// guardian, whatever its approvals.
    pub fn emergency_execute(&mut self, caller: Address, operation_id: u128, now: u64) -> (res:
        Result<OperationExecutedEvent, MultisigError>)
        requires
            old(self)@.wf(),
        ensures
            final(self)@.wf(),
            match res {
                Ok(event) => {
                    let entry = old(self)@.operation(operation_id).unwrap();
                    &&& emergency_error(old(self)@, caller, operation_id) is None
                    &&& event == (OperationExecutedEvent { operation_id })
                    &&& final(self)@ == old(self)@.put(
                        operation_id,
                        OperationView { operation: executed_at(entry.operation, now), ..entry },
                    )
                },
                Err(e) => {
                    &&& emergency_error(old(self)@, caller, operation_id) == Some(e)
                    &&& final(self)@ == old(self)@
                },
            },
    {
        if self.owner.is_none() {
            return Err(MultisigError::NotInitialized);
        }
        if self.emergency_guardian != Some(caller) {
            return Err(MultisigError::NotGuardian);
        }
        if operation_id < 1 || operation_id > self.operations.len() as u128 {
            return Err(MultisigError::OperationNotFound);
        }
        let k: usize = (operation_id - 1) as usize;
        if self.operations[k].operation.status != OperationStatus::Pending {
            return Err(MultisigError::NotPending);
        }
        match can_execute(&self.operations[k].operation.kind) {
            Ok(_) => {},
            Err(e) => {
                return Err(e);
            },
        }
        self.operations[k].operation.status = OperationStatus::Executed;
        self.operations[k].operation.executed_at = Some(now);
        proof {
            let entry = old(self)@.operation(operation_id).unwrap();
            let goal = old(self)@.put(
                operation_id,
                OperationView { operation: executed_at(entry.operation, now), ..entry },
            );
            assert(self@.operations =~= goal.operations);
        }
        Ok(OperationExecutedEvent { operation_id })
    }

    /// The operation with this id, if there is one.
    pub fn get_operation(&self, operation_id: u128) -> (found: Option<Operation>)
        ensures
            found == match self@.operation(operation_id) {
                Some(entry) => Some(entry.operation),
                None => None,
            },
    {
        if operation_id < 1 || operation_id > self.operations.len() as u128 {
            return None;
        }
        Some(self.operations[(operation_id - 1) as usize].operation)
    }

    /// The signers, in the order in which they were given.
    pub fn get_signers(&self) -> (res: Result<Vec<Address>, MultisigError>)
        ensures
            match res {
                Ok(list) => self@.owner is Some && list@ == self@.signers,
                Err(e) => self@.owner is None && e == MultisigError::NotInitialized,
            },
    {
        if self.owner.is_none() {
            return Err(MultisigError::NotInitialized);
        }
        Ok(copy_list(&self.signers))
    }

    /// The number of approvals an operation needs.
    pub fn get_threshold(&self) -> (res: Result<u32, MultisigError>)
        ensures
            match res {
                Ok(threshold) => self@.owner is Some && threshold == self@.threshold,
                Err(e) => self@.owner is None && e == MultisigError::NotInitialized,
            },
    {
        if self.owner.is_none() {
            return Err(MultisigError::NotInitialized);
        }
        Ok(self.threshold)
    }

    /// The signers that approved operation `operation_id`, in order of
    /// approval; empty if there is no such operation.
    pub fn get_approvals(&self, operation_id: u128) -> (list: Vec<Address>)
        ensures
            list@ == match self@.operation(operation_id) {
                Some(entry) => entry.approvals,
                None => Seq::empty(),
            },
    {
        if operation_id < 1 || operation_id > self.operations.len() as u128 {
            return Vec::new();
        }
        copy_list(&self.operations[(operation_id - 1) as usize].approvals)
    }
}

/// The state that these parts make up.
pub open spec fn assembled(
    owner: Option<Address>,
    emergency_guardian: Option<Address>,
    signers: Seq<Address>,
    threshold: u32,
    operations: Seq<OperationEntry>,
) -> MultisigView {
    MultisigView {
        owner,
        emergency_guardian,
        signers,
        threshold,
        operations: Seq::new(operations.len(), |i: int| operations[i]@),
    }
}

/// The operation at position `i` has the id `i + 1`; only signers
/// approved it, none twice; and while it is pending its approvals are
/// below the threshold.
pub open spec fn operation_fits(entry: OperationView, i: int, signers: Seq<Address>, threshold: u32)
    -> bool {
    &&& entry.operation.id == i + 1
    &&& entry.approvals.no_duplicates()
    &&& forall|j: int| 0 <= j < entry.approvals.len() ==> signers.contains(#[trigger] entry.approvals[j])
    &&& entry.operation.status is Pending ==> entry.approvals.len() < threshold
}

fn operation_in_order(entry: &OperationEntry, i: usize, signers: &Vec<Address>, threshold: u32)
    -> (ok: bool)
    ensures
        ok == operation_fits(entry@, i as int, signers@, threshold),
{
    if entry.operation.id != i as u128 + 1 || !all_distinct(&entry.approvals) {
        return false;
    }
    if entry.operation.status == OperationStatus::Pending && entry.approvals.len()
        >= threshold as usize {
        return false;
    }
    let mut j: usize = 0;
    while j < entry.approvals.len()
        invariant
            j <= entry.approvals@.len(),
            entry@.approvals == entry.approvals@,
            forall|k: int| 0 <= k < j ==> signers@.contains(#[trigger] entry.approvals@[k]),
            entry@.operation.id == i + 1,
            entry@.approvals.no_duplicates(),
            entry@.operation.status is Pending ==> entry@.approvals.len() < threshold,
        decreases entry.approvals@.len() - j,
    {
        if !list_contains(signers, entry.approvals[j]) {
            assert(!signers@.contains(entry@.approvals[j as int]));
            return false;
        }
        j += 1;
    }
    true
}

impl MultisigContract {
    /// Puts an approver together from its parts, if they meet its invariant.
    pub fn from_parts(
        owner: Option<Address>,
        emergency_guardian: Option<Address>,
        signers: Vec<Address>,
        threshold: u32,
        operations: Vec<OperationEntry>,
    ) -> (res: Option<MultisigContract>)
        ensures
            res is Some <==> assembled(
                owner,
                emergency_guardian,
                signers@,
                threshold,
                operations@,
            ).wf(),
            res is Some ==> res.unwrap()@ == assembled(
                owner,
                emergency_guardian,
                signers@,
                threshold,
                operations@,
            ),
    {
        let ghost whole = assembled(owner, emergency_guardian, signers@, threshold, operations@);
        if owner.is_none() {
            if operations.len() != 0 {
                return None;
            }
        } else {
            if signers.len() == 0 || signers.len() > u32::MAX as usize || threshold < 1
                || threshold as usize > signers.len() || !all_distinct(&signers) {
                return None;
            }
        }
        let mut i: usize = 0;
        while i < operations.len()
            invariant
                i <= operations@.len(),
                whole == assembled(owner, emergency_guardian, signers@, threshold, operations@),
                forall|k: int|
                    0 <= k < i ==> operation_fits((#[trigger] operations@[k])@, k, signers@, threshold),
            decreases operations@.len() - i,
        {
            if !operation_in_order(&operations[i], i, &signers, threshold) {
                proof {
                    assert(whole.operations[i as int] == operations@[i as int]@);
                }
                return None;
            }
            i += 1;
        }
        proof {
            assert forall|k: int| 0 <= k < whole.operations.len() implies {
                &&& (#[trigger] whole.operations[k]).operation.id == k + 1
                &&& whole.operations[k].approvals.no_duplicates()
                &&& forall|j: int|
                    0 <= j < whole.operations[k].approvals.len() ==> whole.signers.contains(
                        #[trigger] whole.operations[k].approvals[j],
                    )
                &&& whole.operations[k].operation.status is Pending
                    ==> whole.operations[k].approvals.len() < whole.threshold
            } by {
                assert(operation_fits(operations@[k]@, k, signers@, threshold));
            }
        }
        Some(MultisigContract { owner, emergency_guardian, signers, threshold, operations })
    }

    /// Takes the approver apart: its owner, its emergency guardian, its
    /// signers, its threshold and its operations.
    pub fn into_parts(self) -> (parts: (
        Option<Address>,
        Option<Address>,
        Vec<Address>,
        u32,
        Vec<OperationEntry>,
    ))
        ensures
            self@ == assembled(parts.0, parts.1, parts.2@, parts.3, parts.4@),
    {
        (self.owner, self.emergency_guardian, self.signers, self.threshold, self.operations)
    }
}

} // verus!
