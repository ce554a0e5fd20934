//! Token vesting: schedules that release a total over time, linearly, at a
//! cliff, or along custom checkpoints, with claims, early release and
//! revocation.

use vstd::prelude::*;
use vstd::arithmetic::div_mod::{
    lemma_div_is_ordered, lemma_div_multiples_vanish, lemma_fundamental_div_mod,
    lemma_fundamental_div_mod_converse,
};
use crate::address::Address;

verus! {

/// How a schedule vests.
#[derive(Clone, Copy, Debug, PartialEq, Eq, Structural)]
pub enum VestingKind {
    /// In proportion to the time elapsed between start and end.
    Linear,
    /// All at once at the cliff time, nothing before.
    Cliff,
    /// In steps, at explicit checkpoints.
    Custom,
}

/// Where a schedule stands.
#[derive(Clone, Copy, Debug, PartialEq, Eq, Structural)]
pub enum VestingStatus {
    Active,
    Revoked,
    Completed,
}

/// One step of a custom schedule: from `time` on, `cumulative_amount` is vested.
#[derive(Clone, Copy, Debug, PartialEq, Eq, Structural)]
pub struct CustomCheckpoint {
    pub time: u64,
    pub cumulative_amount: i128,
}

/// A vesting schedule.
#[derive(Debug, PartialEq, Eq)]
pub struct VestingSchedule {
    pub id: u128,
    pub employer: Address,
    pub beneficiary: Address,
    pub token: Address,
    pub kind: VestingKind,
    pub total_amount: i128,
    pub released_amount: i128,
    pub start_time: u64,
    pub end_time: u64,
    pub cliff_time: Option<u64>,
    pub checkpoints: Vec<CustomCheckpoint>,
    pub status: VestingStatus,
    pub revocable: bool,
    pub revoked_at: Option<u64>,
}

/// The mathematical value of a [`VestingSchedule`].
pub struct ScheduleView {
    pub id: u128,
    pub employer: Address,
    pub beneficiary: Address,
    pub token: Address,
    pub kind: VestingKind,
    pub total_amount: i128,
    pub released_amount: i128,
    pub start_time: u64,
    pub end_time: u64,
    pub cliff_time: Option<u64>,
    pub checkpoints: Seq<CustomCheckpoint>,
    pub status: VestingStatus,
    pub revocable: bool,
    pub revoked_at: Option<u64>,
}

impl View for VestingSchedule {
    type V = ScheduleView;

    open spec fn view(&self) -> ScheduleView {
        ScheduleView {
            id: self.id,
            employer: self.employer,
            beneficiary: self.beneficiary,
            token: self.token,
            kind: self.kind,
            total_amount: self.total_amount,
            released_amount: self.released_amount,
            start_time: self.start_time,
            end_time: self.end_time,
            cliff_time: self.cliff_time,
            checkpoints: self.checkpoints@,
            status: self.status,
            revocable: self.revocable,
            revoked_at: self.revoked_at,
        }
    }
}

/// Why a vesting call was refused. A refused call leaves the state as it was.
#[derive(Clone, Copy, Debug, PartialEq, Eq, Structural)]
pub enum VestingError {
    NotInitialized,
    AlreadyInitialized,
    /// The amount is not strictly positive.
    InvalidAmount,
    /// The end time is not after the start time.
    InvalidTimeRange,
    /// The cliff lies outside the span from start to end.
    InvalidCliff,
    /// A custom schedule needs at least one checkpoint.
    NoCheckpoints,
    /// A checkpoint is earlier than the one before it.
    UnsortedCheckpoints,
    /// A checkpoint vests less than the one before it, or less than nothing.
    DecreasingCheckpoints,
    /// The last checkpoint does not vest the total.
    CheckpointTotalMismatch,
    ScheduleNotFound,
    /// The caller is not the beneficiary of the schedule.
    NotBeneficiary,
    /// The schedule is `Completed`.
    AlreadyCompleted,
    /// Nothing is vested beyond what was released.
    NothingToClaim,
    /// The caller is not the owner.
    NotOwner,
    /// The schedule is not `Active`.
    NotActive,
    /// Everything is vested already.
    NothingToRelease,
    /// The caller is not the employer of the schedule.
    NotEmployer,
    /// The schedule cannot be revoked.
    NotRevocable,
    /// The released amount would leave the range of amounts.
    Overflow,
}

/// The number of leading checkpoints of `checkpoints` that `now` has reached.
pub open spec fn reached_checkpoints(checkpoints: Seq<CustomCheckpoint>, now: u64) -> int
    decreases checkpoints.len(),
{
    if checkpoints.len() == 0 || now < checkpoints[0].time {
        0
    } else {
        1 + reached_checkpoints(checkpoints.skip(1), now)
    }
}

/// The instant at which a schedule is valued: `now`, but for a revoked
/// schedule the time of its revocation.
pub open spec fn valuation_time(s: ScheduleView, now: u64) -> u64 {
    if s.status is Revoked && s.revoked_at is Some {
        s.revoked_at.unwrap()
    } else {
        now
    }
}

/// What has vested of the schedule `s` at `now`.
///
/// A linear schedule vests nothing up to its start, everything from its end
/// on, and in between the total times the elapsed share of the span,
/// rounded down. A cliff schedule vests everything from its cliff on. A
/// custom schedule vests what the last of its leading reached checkpoints
/// says, but never more than the total.
pub open spec fn vested_amount(s: ScheduleView, now: u64) -> int {
    let at = valuation_time(s, now);
    if s.total_amount <= 0 {
        0
    } else {
        match s.kind {
            VestingKind::Linear => {
                if at <= s.start_time {
                    0
                } else if at >= s.end_time {
                    s.total_amount as int
                } else {
                    (s.total_amount * (at - s.start_time)) / (s.end_time - s.start_time)
                }
            },
            VestingKind::Cliff => {
                if s.cliff_time is Some && at >= s.cliff_time.unwrap() {
                    s.total_amount as int
                } else {
                    0
                }
            },
            VestingKind::Custom => {
                let n = reached_checkpoints(s.checkpoints, at);
                if n == 0 {
                    0
                } else if s.checkpoints[n - 1].cumulative_amount > s.total_amount {
                    s.total_amount as int
                } else {
                    s.checkpoints[n - 1].cumulative_amount as int
                }
            },
        }
    }
}

/// What can be claimed of the schedule `s` at `now`: what has vested
/// beyond what was released, and never less than nothing.
pub open spec fn releasable_amount(s: ScheduleView, now: u64) -> int {
    if vested_amount(s, now) - s.released_amount < 0 || vested_amount(s, now) - s.released_amount
        > i128::MAX {
        0
    } else {
        vested_amount(s, now) - s.released_amount
    }
}

/// The total times the elapsed share of the span, rounded down.
fn interpolate(total: i128, elapsed: u64, span: u64) -> (part: i128)
    requires
        total > 0,
        0 < elapsed < span,
    ensures
        part == (total * elapsed) / (span as int),
        0 <= part <= total,
{
    let d: i128 = span as i128;
    let e: i128 = elapsed as i128;
    let whole: i128 = total / d;
    let rest: i128 = total % d;
    proof {
        lemma_fundamental_div_mod(total as int, d as int);
        assert(0 <= whole * e <= total) by (nonlinear_arith)
            requires
                total == d * whole + rest,
                0 <= rest,
                0 <= e < d,
                0 <= whole,
        ;
        assert(0 <= rest * e < 0x1_0000_0000_0000_0000 * 0x1_0000_0000_0000_0000) by (nonlinear_arith)
            requires
                0 <= rest < d,
                0 <= e < d,
                d < 0x1_0000_0000_0000_0000,
        ;
    }
    let scaled: u128 = (rest as u128) * (elapsed as u128);
    let carried: u128 = scaled / (span as u128);
    proof {
        let p = (rest * e) / (d as int);
        let s = (rest * e) % (d as int);
        lemma_fundamental_div_mod(rest * e, d as int);
        assert(total * e == (whole * e + p) * d + s) by (nonlinear_arith)
            requires
                total == d * whole + rest,
                rest * e == d * p + s,
        ;
        lemma_fundamental_div_mod_converse(total * e, d as int, whole * e + p, s);
        assert(total * e <= total * d) by (nonlinear_arith)
            requires
                total > 0,
                e < d,
        ;
        lemma_div_is_ordered(total * e, total * d, d as int);
        assert(total * d == d * total) by (nonlinear_arith);
        lemma_div_multiples_vanish(total as int, d as int);
        assert(0 <= p) by (nonlinear_arith)
            requires
                rest * e == d * p + s,
                0 <= rest * e,
                0 <= s < d,
        ;
    }
    whole * e + (carried as i128)
}

/// What has vested of `schedule` at `now`.
pub fn compute_vested_amount(now: u64, schedule: &VestingSchedule) -> (vested: i128)
    ensures
        vested == vested_amount(schedule@, now),
        schedule@.total_amount > 0 && (schedule@.kind is Custom ==> forall|j: int|
            0 <= j < schedule@.checkpoints.len() ==> (#[trigger] schedule@.checkpoints[j]).cumulative_amount
                >= 0) ==> 0 <= vested <= schedule@.total_amount,
{
    if schedule.total_amount <= 0 {
        return 0;
    }
    let at = match schedule.revoked_at {
        Some(t) => if schedule.status == VestingStatus::Revoked {
            t
        } else {
            now
        },
        None => now,
    };
    match schedule.kind {
        VestingKind::Linear => {
            if at <= schedule.start_time {
                0
            } else if at >= schedule.end_time {
                schedule.total_amount
            } else {
                interpolate(
                    schedule.total_amount,
                    at - schedule.start_time,
                    schedule.end_time - schedule.start_time,
                )
            }
        },
        VestingKind::Cliff => {
            match schedule.cliff_time {
                Some(cliff) => if at >= cliff {
                    schedule.total_amount
                } else {
                    0
                },
                None => 0,
            }
        },
        VestingKind::Custom => {
            let mut last: i128 = 0;
            let mut k: usize = 0;
            proof {
                assert(schedule.checkpoints@.skip(0) =~= schedule.checkpoints@);
            }
            while k < schedule.checkpoints.len() && at >= schedule.checkpoints[k].time
                invariant
                    k <= schedule.checkpoints@.len(),
                    reached_checkpoints(schedule.checkpoints@, at) == k + reached_checkpoints(
                        schedule.checkpoints@.skip(k as int),
                        at,
                    ),
                    k == 0 ==> last == 0,
                    k > 0 ==> last == schedule.checkpoints@[k - 1].cumulative_amount,
                decreases schedule.checkpoints@.len() - k,
            {
                proof {
                    let rest = schedule.checkpoints@.skip(k as int);
                    assert(rest[0] == schedule.checkpoints@[k as int]);
                    assert(rest.skip(1) =~= schedule.checkpoints@.skip(k + 1));
                }
                last = schedule.checkpoints[k].cumulative_amount;
                k += 1;
            }
            proof {
                let rest = schedule.checkpoints@.skip(k as int);
                if k < schedule.checkpoints@.len() {
                    assert(rest[0] == schedule.checkpoints@[k as int]);
                }
            }
            if last > schedule.total_amount {
                schedule.total_amount
            } else {
                last
            }
        },
    }
}

/// What can be claimed of `schedule` at `now`.
pub fn compute_releasable(now: u64, schedule: &VestingSchedule) -> (amount: i128)
    ensures
        amount == releasable_amount(schedule@, now),
        amount >= 0,
{
    let vested = compute_vested_amount(now, schedule);
    match vested.checked_sub(schedule.released_amount) {
        Some(rest) => if rest < 0 {
            0
        } else {
            rest
        },
        None => 0,
    }
}

/// The token vesting state: its owner and its schedules. The schedule with
/// id `n` is the `n`-th that was created.
pub struct TokenVestingContract {
    owner: Option<Address>,
    schedules: Vec<VestingSchedule>,
}

/// The mathematical value of a [`TokenVestingContract`].
pub struct VestingView {
    pub owner: Option<Address>,
    pub schedules: Seq<ScheduleView>,
}

impl View for TokenVestingContract {
    type V = VestingView;

    closed spec fn view(&self) -> VestingView {
        VestingView {
            owner: self.owner,
            schedules: Seq::new(self.schedules@.len(), |i: int| self.schedules@[i]@),
        }
    }
}

impl VestingView {
    /// The schedule with this id.
    pub open spec fn schedule(self, id: u128) -> Option<ScheduleView> {
        if 1 <= id <= self.schedules.len() {
            Some(self.schedules[id - 1])
        } else {
            None
        }
    }

    /// This state with the schedule `id` replaced by `s`.
    pub open spec fn put(self, id: u128, s: ScheduleView) -> VestingView {
        VestingView { schedules: self.schedules.update(id - 1, s), ..self }
    }

    /// The invariant of the vesting state: without an owner there are no
    /// schedules, and every schedule sits at the place its id names, vests
    /// a positive total, has released no negative amount, and no checkpoint
    /// vests less than nothing.
    pub open spec fn wf(self) -> bool {
        &&& self.owner is None ==> self.schedules.len() == 0
        &&& forall|i: int|
            0 <= i < self.schedules.len() ==> {
                &&& (#[trigger] self.schedules[i]).id == i + 1
                &&& self.schedules[i].total_amount > 0
                &&& self.schedules[i].released_amount >= 0
                &&& forall|j: int|
                    0 <= j < self.schedules[i].checkpoints.len() ==> (
                    #[trigger] self.schedules[i].checkpoints[j]).cumulative_amount >= 0
            }
    }
}

/// Why a linear schedule with these terms cannot be created, if anything.
pub open spec fn linear_schedule_error(
    v: VestingView,
    total_amount: i128,
    start_time: u64,
    end_time: u64,
    cliff_time: Option<u64>,
) -> Option<VestingError> {
    if v.owner is None {
        Some(VestingError::NotInitialized)
    } else if total_amount <= 0 {
        Some(VestingError::InvalidAmount)
    } else if end_time <= start_time {
        Some(VestingError::InvalidTimeRange)
    } else if cliff_time is Some && !(start_time <= cliff_time.unwrap() <= end_time) {
        Some(VestingError::InvalidCliff)
    } else {
        None
    }
}

/// The first fault of `checkpoints` as a continuation of a checkpoint at
/// `last_time` that vests `last_amount`, if any: a time that goes back
/// comes before an amount that goes down.
pub open spec fn checkpoints_error(
    checkpoints: Seq<CustomCheckpoint>,
    last_time: u64,
    last_amount: i128,
) -> Option<VestingError>
    decreases checkpoints.len(),
{
    if checkpoints.len() == 0 {
        None
    } else if checkpoints[0].time < last_time {
        Some(VestingError::UnsortedCheckpoints)
    } else if checkpoints[0].cumulative_amount < last_amount {
        Some(VestingError::DecreasingCheckpoints)
    } else {
        checkpoints_error(
            checkpoints.skip(1),
            checkpoints[0].time,
            checkpoints[0].cumulative_amount,
        )
    }
}

/// Why a custom schedule with these terms cannot be created, if anything.
pub open spec fn custom_schedule_error(
    v: VestingView,
    total_amount: i128,
    checkpoints: Seq<CustomCheckpoint>,
) -> Option<VestingError> {
    if v.owner is None {
        Some(VestingError::NotInitialized)
    } else if total_amount <= 0 {
        Some(VestingError::InvalidAmount)
    } else if checkpoints.len() == 0 {
        Some(VestingError::NoCheckpoints)
    } else if checkpoints_error(checkpoints, 0, 0) is Some {
        checkpoints_error(checkpoints, 0, 0)
    } else if checkpoints.last().cumulative_amount != total_amount {
        Some(VestingError::CheckpointTotalMismatch)
    } else {
        None
    }
}

/// A schedule as it is created: active, with nothing released.
pub open spec fn new_schedule(
    id: u128,
    employer: Address,
    beneficiary: Address,
    token: Address,
    kind: VestingKind,
    total_amount: i128,
    start_time: u64,
    end_time: u64,
    cliff_time: Option<u64>,
    checkpoints: Seq<CustomCheckpoint>,
    revocable: bool,
) -> ScheduleView {
    ScheduleView {
        id,
        employer,
        beneficiary,
        token,
        kind,
        total_amount,
        released_amount: 0,
        start_time,
        end_time,
        cliff_time,
        checkpoints,
        status: VestingStatus::Active,
        revocable,
        revoked_at: None,
    }
}

/// Why `caller` may not claim from schedule `id` at `now`, if anything.
pub open spec fn claim_error(v: VestingView, caller: Address, id: u128, now: u64) -> Option<
    VestingError,
> {
    if v.owner is None {
        Some(VestingError::NotInitialized)
    } else if v.schedule(id) is None {
        Some(VestingError::ScheduleNotFound)
    } else if v.schedule(id).unwrap().beneficiary != caller {
        Some(VestingError::NotBeneficiary)
    } else if v.schedule(id).unwrap().status is Completed {
        Some(VestingError::AlreadyCompleted)
    } else if releasable_amount(v.schedule(id).unwrap(), now) <= 0 {
        Some(VestingError::NothingToClaim)
    } else if v.schedule(id).unwrap().released_amount + releasable_amount(
        v.schedule(id).unwrap(),
        now,
    ) > i128::MAX {
        Some(VestingError::Overflow)
    } else {
        None
    }
}

/// The schedule after `amount` more was released: it is completed once the
/// released amount has reached the total.
pub open spec fn after_release(s: ScheduleView, amount: int) -> ScheduleView {
    ScheduleView {
        released_amount: (s.released_amount + amount) as i128,
        status: if s.released_amount + amount >= s.total_amount {
            VestingStatus::Completed
        } else {
            s.status
        },
        ..s
    }
}

/// What an early release of up to `amount` hands out at `now`: `amount`,
/// but no more than what has not vested yet.
pub open spec fn early_release_amount(s: ScheduleView, amount: i128, now: u64) -> int {
    if amount > s.total_amount - vested_amount(s, now) {
        s.total_amount - vested_amount(s, now)
    } else {
        amount as int
    }
}

/// Why `caller` may not release up to `amount` of schedule `id` early at
/// `now`, if anything.
pub open spec fn early_release_error(
    v: VestingView,
    caller: Address,
    id: u128,
    amount: i128,
    now: u64,
) -> Option<VestingError> {
    if v.owner is None {
        Some(VestingError::NotInitialized)
    } else if v.owner != Some(caller) {
        Some(VestingError::NotOwner)
    } else if amount <= 0 {
        Some(VestingError::InvalidAmount)
    } else if v.schedule(id) is None {
        Some(VestingError::ScheduleNotFound)
    } else if !(v.schedule(id).unwrap().status is Active) {
        Some(VestingError::NotActive)
    } else if v.schedule(id).unwrap().total_amount - vested_amount(v.schedule(id).unwrap(), now)
        <= 0 {
        Some(VestingError::NothingToRelease)
    } else if v.schedule(id).unwrap().released_amount + early_release_amount(
        v.schedule(id).unwrap(),
        amount,
        now,
    ) > i128::MAX {
        Some(VestingError::Overflow)
    } else {
        None
    }
}

/// Why `caller` may not revoke schedule `id`, if anything.
pub open spec fn revoke_error(v: VestingView, caller: Address, id: u128) -> Option<VestingError> {
    if v.owner is None {
        Some(VestingError::NotInitialized)
    } else if v.schedule(id) is None {
        Some(VestingError::ScheduleNotFound)
    } else if v.schedule(id).unwrap().employer != caller {
        Some(VestingError::NotEmployer)
    } else if !v.schedule(id).unwrap().revocable {
        Some(VestingError::NotRevocable)
    } else if !(v.schedule(id).unwrap().status is Active) {
        Some(VestingError::NotActive)
    } else {
        None
    }
}

/// Checkpoints without fault that continue a checkpoint of a non-negative
/// amount vest no negative amount.
pub proof fn lemma_checkpoints_not_negative(
    checkpoints: Seq<CustomCheckpoint>,
    last_time: u64,
    last_amount: i128,
)
    requires
        checkpoints_error(checkpoints, last_time, last_amount) is None,
        last_amount >= 0,
    ensures
        forall|j: int|
            0 <= j < checkpoints.len() ==> (#[trigger] checkpoints[j]).cumulative_amount >= 0,
    decreases checkpoints.len(),
{
    if checkpoints.len() > 0 {
        let rest = checkpoints.skip(1);
        lemma_checkpoints_not_negative(rest, checkpoints[0].time, checkpoints[0].cumulative_amount);
        assert forall|j: int| 0 <= j < checkpoints.len() implies (
        #[trigger] checkpoints[j]).cumulative_amount >= 0 by {
            if j > 0 {
                assert(rest[j - 1] == checkpoints[j]);
            }
        }
    }
}

/// The first fault of `checkpoints`, if any.
fn check_checkpoints(checkpoints: &Vec<CustomCheckpoint>) -> (fault: Option<VestingError>)
    ensures
        fault == checkpoints_error(checkpoints@, 0, 0),
{
    let mut last_time: u64 = 0;
    let mut last_amount: i128 = 0;
    let mut k: usize = 0;
    proof {
        assert(checkpoints@.skip(0) =~= checkpoints@);
    }
    while k < checkpoints.len()
        invariant
            k <= checkpoints@.len(),
            checkpoints_error(checkpoints@, 0, 0) == checkpoints_error(
                checkpoints@.skip(k as int),
                last_time,
                last_amount,
            ),
        decreases checkpoints@.len() - k,
    {
        proof {
            let rest = checkpoints@.skip(k as int);
            assert(rest[0] == checkpoints@[k as int]);
            assert(rest.skip(1) =~= checkpoints@.skip(k + 1));
        }
        let cp = checkpoints[k];
        if cp.time < last_time {
            return Some(VestingError::UnsortedCheckpoints);
        }
        if cp.cumulative_amount < last_amount {
            return Some(VestingError::DecreasingCheckpoints);
        }
        last_time = cp.time;
        last_amount = cp.cumulative_amount;
        k += 1;
    }
    proof {
        assert(checkpoints@.skip(k as int).len() == 0);
    }
    None
}

fn copy_checkpoints(list: &Vec<CustomCheckpoint>) -> (copy: Vec<CustomCheckpoint>)
    ensures
        copy@ == list@,
{
    let mut copy: Vec<CustomCheckpoint> = Vec::new();
    let mut k: usize = 0;
    while k < list.len()
        invariant
            k <= list@.len(),
            copy@ == list@.take(k as int),
        decreases list@.len() - k,
    {
        copy.push(list[k]);
        proof {
            assert(list@.take(k + 1) =~= list@.take(k as int).push(list@[k as int]));
        }
        k += 1;
    }
    proof {
        assert(list@.take(k as int) =~= list@);
    }
    copy
}

impl TokenVestingContract {
    /// A vesting state without owner or schedules.
    pub fn new() -> (c: TokenVestingContract)
        ensures
            c@.wf(),
            c@.owner is None,
            c@.schedules.len() == 0,
    {
        TokenVestingContract { owner: None, schedules: Vec::new() }
    }

    /// Records `owner` as the owner. This can be done once.
    pub fn initialize(&mut self, owner: Address) -> (res: Result<(), VestingError>)
        requires
            old(self)@.wf(),
        ensures
            final(self)@.wf(),
            match res {
                Ok(_) => old(self)@.owner is None && final(self)@ == (VestingView {
                    owner: Some(owner),
                    ..old(self)@
                }),
                Err(e) => old(self)@.owner is Some && e == VestingError::AlreadyInitialized
                    && final(self)@ == old(self)@,
            },
    {
        if self.owner.is_some() {
            return Err(VestingError::AlreadyInitialized);
        }
        self.owner = Some(owner);
        proof {
            assert(self@.schedules =~= old(self)@.schedules);
        }
        Ok(())
    }

    /// Stores a new schedule and returns its id.
    fn store(&mut self, schedule: VestingSchedule) -> (id: u128)
        requires
            old(self)@.wf(),
            old(self)@.owner is Some,
            schedule@.id == old(self)@.schedules.len() + 1,
            schedule@.total_amount > 0,
            schedule@.released_amount == 0,
            forall|j: int|
                0 <= j < schedule@.checkpoints.len() ==> (
                #[trigger] schedule@.checkpoints[j]).cumulative_amount >= 0,
        ensures
            final(self)@.wf(),
            id == schedule@.id,
            final(self)@ == (VestingView {
                schedules: old(self)@.schedules.push(schedule@),
                ..old(self)@
            }),
    {
        let id = schedule.id;
        self.schedules.push(schedule);
        proof {
            assert(self@.schedules =~= old(self)@.schedules.push(schedule@));
        }
        id
    }

    /// Creates a linear schedule for `employer`, who is the caller, and
    /// returns its id. The employer owes the vesting state `total_amount`
    /// of `token`. A cliff must lie within the span from start to end.
    pub fn create_linear_schedule(
        &mut self,
        employer: Address,
        beneficiary: Address,
        token: Address,
        total_amount: i128,
        start_time: u64,
        end_time: u64,
        cliff_time: Option<u64>,
        revocable: bool,
    ) -> (res: Result<u128, VestingError>)
        requires
            old(self)@.wf(),
        ensures
            final(self)@.wf(),
            match res {
                Ok(id) => {
                    &&& linear_schedule_error(
                        old(self)@,
                        total_amount,
                        start_time,
                        end_time,
                        cliff_time,
                    ) is None
                    &&& id == old(self)@.schedules.len() + 1
                    &&& final(self)@ == (VestingView {
                        schedules: old(self)@.schedules.push(
                            new_schedule(
                                id,
                                employer,
                                beneficiary,
                                token,
                                VestingKind::Linear,
                                total_amount,
                                start_time,
                                end_time,
                                cliff_time,
                                Seq::empty(),
                                revocable,
                            ),
                        ),
                        ..old(self)@
                    })
                },
                Err(e) => {
                    &&& linear_schedule_error(
                        old(self)@,
                        total_amount,
                        start_time,
                        end_time,
                        cliff_time,
                    ) == Some(e)
                    &&& final(self)@ == old(self)@
                },
            },
    {
        if self.owner.is_none() {
            return Err(VestingError::NotInitialized);
        }
        if total_amount <= 0 {
            return Err(VestingError::InvalidAmount);
        }
        if end_time <= start_time {
            return Err(VestingError::InvalidTimeRange);
        }
        match cliff_time {
            Some(cliff) => {
                if !(cliff >= start_time && cliff <= end_time) {
                    return Err(VestingError::InvalidCliff);
                }
            },
            None => {},
        }
        let schedule = VestingSchedule {
            id: self.schedules.len() as u128 + 1,
            employer,
            beneficiary,
            token,
            kind: VestingKind::Linear,
            total_amount,
            released_amount: 0,
            start_time,
            end_time,
            cliff_time,
            checkpoints: Vec::new(),
            status: VestingStatus::Active,
            revocable,
            revoked_at: None,
        };
        proof {
            assert(schedule@.checkpoints =~= Seq::empty());
        }
        Ok(self.store(schedule))
    }

    /// Creates a cliff schedule for `employer`, who is the caller, and
    /// returns its id. The employer owes the vesting state `total_amount`
    /// of `token`. The schedule starts and ends at the cliff.
    pub fn create_cliff_schedule(
        &mut self,
        employer: Address,
        beneficiary: Address,
        token: Address,
        total_amount: i128,
        cliff_time: u64,
        revocable: bool,
    ) -> (res: Result<u128, VestingError>)
        requires
            old(self)@.wf(),
        ensures
            final(self)@.wf(),
            match res {
                Ok(id) => {
                    &&& old(self)@.owner is Some
                    &&& total_amount > 0
                    &&& id == old(self)@.schedules.len() + 1
                    &&& final(self)@ == (VestingView {
                        schedules: old(self)@.schedules.push(
                            new_schedule(
                                id,
                                employer,
                                beneficiary,
                                token,
                                VestingKind::Cliff,
                                total_amount,
                                cliff_time,
                                cliff_time,
                                Some(cliff_time),
                                Seq::empty(),
                                revocable,
                            ),
                        ),
                        ..old(self)@
                    })
                },
                Err(e) => {
                    &&& final(self)@ == old(self)@
                    &&& e == if old(self)@.owner is None {
                        VestingError::NotInitialized
                    } else {
                        VestingError::InvalidAmount
                    }
                    &&& old(self)@.owner is None || total_amount <= 0
                },
            },
    {
        if self.owner.is_none() {
            return Err(VestingError::NotInitialized);
        }
        if total_amount <= 0 {
            return Err(VestingError::InvalidAmount);
        }
        let schedule = VestingSchedule {
            id: self.schedules.len() as u128 + 1,
            employer,
            beneficiary,
            token,
            kind: VestingKind::Cliff,
            total_amount,
            released_amount: 0,
            start_time: cliff_time,
            end_time: cliff_time,
            cliff_time: Some(cliff_time),
            checkpoints: Vec::new(),
            status: VestingStatus::Active,
            revocable,
            revoked_at: None,
        };
        proof {
            assert(schedule@.checkpoints =~= Seq::empty());
        }
        Ok(self.store(schedule))
    }

    /// Creates a custom schedule for `employer`, who is the caller, and
    /// returns its id. The employer owes the vesting state `total_amount`
    /// of `token`. The checkpoints must not go back in time nor down in
    /// amount, and the last must vest the total. The schedule starts at the
    /// first checkpoint and ends at the last.
    pub fn create_custom_schedule(
        &mut self,
        employer: Address,
        beneficiary: Address,
        token: Address,
        total_amount: i128,
        checkpoints: Vec<CustomCheckpoint>,
        revocable: bool,
    ) -> (res: Result<u128, VestingError>)
        requires
            old(self)@.wf(),
        ensures
            final(self)@.wf(),
            match res {
                Ok(id) => {
                    &&& custom_schedule_error(old(self)@, total_amount, checkpoints@) is None
                    &&& id == old(self)@.schedules.len() + 1
                    &&& final(self)@ == (VestingView {
                        schedules: old(self)@.schedules.push(
                            new_schedule(
                                id,
                                employer,
                                beneficiary,
                                token,
                                VestingKind::Custom,
                                total_amount,
                                checkpoints@.first().time,
                                checkpoints@.last().time,
                                None,
                                checkpoints@,
                                revocable,
                            ),
                        ),
                        ..old(self)@
                    })
                },
                Err(e) => {
                    &&& custom_schedule_error(old(self)@, total_amount, checkpoints@) == Some(e)
                    &&& final(self)@ == old(self)@
                },
            },
    {
        if self.owner.is_none() {
            return Err(VestingError::NotInitialized);
        }
        if total_amount <= 0 {
            return Err(VestingError::InvalidAmount);
        }
        if checkpoints.len() == 0 {
            return Err(VestingError::NoCheckpoints);
        }
        match check_checkpoints(&checkpoints) {
            Some(fault) => {
                return Err(fault);
            },
            None => {},
        }
        let last = checkpoints[checkpoints.len() - 1];
        if last.cumulative_amount != total_amount {
            return Err(VestingError::CheckpointTotalMismatch);
        }
        proof {
            lemma_checkpoints_not_negative(checkpoints@, 0, 0);
        }
        let schedule = VestingSchedule {
            id: self.schedules.len() as u128 + 1,
            employer,
            beneficiary,
            token,
            kind: VestingKind::Custom,
            total_amount,
            released_amount: 0,
            start_time: checkpoints[0].time,
            end_time: last.time,
            cliff_time: None,
            checkpoints,
            status: VestingStatus::Active,
            revocable,
            revoked_at: None,
        };
        Ok(self.store(schedule))
    }

    /// Releases to the beneficiary, who must be the caller, what has vested
    /// of schedule `schedule_id` beyond what was released, and returns that
    /// amount. The schedule is completed once the released amount has
    /// reached the total.
    pub fn claim(&mut self, caller: Address, schedule_id: u128, now: u64) -> (res: Result<
        i128,
        VestingError,
    >)
        requires
            old(self)@.wf(),
        ensures
            final(self)@.wf(),
            match res {
                Ok(amount) => {
                    &&& claim_error(old(self)@, caller, schedule_id, now) is None
                    &&& amount == releasable_amount(old(self)@.schedule(schedule_id).unwrap(), now)
                    &&& amount > 0
                    &&& final(self)@ == old(self)@.put(
                        schedule_id,
                        after_release(old(self)@.schedule(schedule_id).unwrap(), amount as int),
                    )
                },
                Err(e) => {
                    &&& claim_error(old(self)@, caller, schedule_id, now) == Some(e)
                    &&& final(self)@ == old(self)@
                },
            },
    {
        if self.owner.is_none() {
            return Err(VestingError::NotInitialized);
        }
        if schedule_id < 1 || schedule_id > self.schedules.len() as u128 {
            return Err(VestingError::ScheduleNotFound);
        }
        let k: usize = (schedule_id - 1) as usize;
        if self.schedules[k].beneficiary != caller {
            return Err(VestingError::NotBeneficiary);
        }
        if self.schedules[k].status == VestingStatus::Completed {
            return Err(VestingError::AlreadyCompleted);
        }
        let amount = compute_releasable(now, &self.schedules[k]);
        if amount <= 0 {
            return Err(VestingError::NothingToClaim);
        }
        let released = match self.schedules[k].released_amount.checked_add(amount) {
            Some(sum) => sum,
            None => {
                return Err(VestingError::Overflow);
            },
        };
        self.release(k, released);
        Ok(amount)
    }

    /// Sets the released amount of the schedule at `k` to `released` and
    /// completes the schedule if that has reached the total.
    fn release(&mut self, k: usize, released: i128)
        requires
            old(self)@.wf(),
            k < old(self)@.schedules.len(),
            released >= old(self)@.schedules[k as int].released_amount,
        ensures
            final(self)@.wf(),
            final(self)@ == old(self)@.put(
                (k + 1) as u128,
                after_release(
                    old(self)@.schedules[k as int],
                    released - old(self)@.schedules[k as int].released_amount,
                ),
            ),
    {
        self.schedules[k].released_amount = released;
        if released >= self.schedules[k].total_amount {
            self.schedules[k].status = VestingStatus::Completed;
        }
        proof {
            let goal = old(self)@.put(
                (k + 1) as u128,
                after_release(
                    old(self)@.schedules[k as int],
                    released - old(self)@.schedules[k as int].released_amount,
                ),
            );
            assert(self@.schedules =~= goal.schedules);
            assert(old(self)@.schedules[k as int].id == k + 1);
        }
    }

    /// Releases to the beneficiary of an active schedule up to `amount` of
    /// what has not vested yet, on behalf of the owner, and returns what
    /// was released. The schedule is completed once the released amount has
    /// reached the total.
    pub fn approve_early_release(
        &mut self,
        caller: Address,
        schedule_id: u128,
        amount: i128,
        now: u64,
    ) -> (res: Result<i128, VestingError>)
        requires
            old(self)@.wf(),
        ensures
            final(self)@.wf(),
            match res {
                Ok(released) => {
                    &&& early_release_error(old(self)@, caller, schedule_id, amount, now) is None
                    &&& released == early_release_amount(
                        old(self)@.schedule(schedule_id).unwrap(),
                        amount,
                        now,
                    )
                    &&& 0 < released <= amount
                    &&& final(self)@ == old(self)@.put(
                        schedule_id,
                        after_release(old(self)@.schedule(schedule_id).unwrap(), released as int),
                    )
                },
                Err(e) => {
                    &&& early_release_error(old(self)@, caller, schedule_id, amount, now) == Some(e)
                    &&& final(self)@ == old(self)@
                },
            },
    {
        if self.owner.is_none() {
            return Err(VestingError::NotInitialized);
        }
        if self.owner != Some(caller) {
            return Err(VestingError::NotOwner);
        }
        if amount <= 0 {
            return Err(VestingError::InvalidAmount);
        }
        if schedule_id < 1 || schedule_id > self.schedules.len() as u128 {
            return Err(VestingError::ScheduleNotFound);
        }
        let k: usize = (schedule_id - 1) as usize;
        if self.schedules[k].status != VestingStatus::Active {
            return Err(VestingError::NotActive);
        }
        let vested = compute_vested_amount(now, &self.schedules[k]);
        let unvested: i128 = self.schedules[k].total_amount - vested;
        if unvested <= 0 {
            return Err(VestingError::NothingToRelease);
        }
        let release_amount: i128 = if amount > unvested {
            unvested
        } else {
            amount
        };
        let released = match self.schedules[k].released_amount.checked_add(release_amount) {
            Some(sum) => sum,
            None => {
                return Err(VestingError::Overflow);
            },
        };
        self.release(k, released);
        Ok(release_amount)
    }

    /// Revokes an active, revocable schedule on behalf of its employer and
    /// returns what goes back to the employer: what had not vested at
    /// `now`. From then on the schedule is valued as of `now`; what had
    /// vested stays claimable.
    pub fn revoke(&mut self, caller: Address, schedule_id: u128, now: u64) -> (res: Result<
        i128,
        VestingError,
    >)
        requires
            old(self)@.wf(),
        ensures
            final(self)@.wf(),
            match res {
                Ok(refund) => {
                    &&& revoke_error(old(self)@, caller, schedule_id) is None
                    &&& refund == old(self)@.schedule(schedule_id).unwrap().total_amount
                        - vested_amount(old(self)@.schedule(schedule_id).unwrap(), now)
                    &&& refund >= 0
                    &&& final(self)@ == old(self)@.put(
                        schedule_id,
                        ScheduleView {
                            status: VestingStatus::Revoked,
                            revoked_at: Some(now),
                            ..old(self)@.schedule(schedule_id).unwrap()
                        },
                    )
                },
                Err(e) => {
                    &&& revoke_error(old(self)@, caller, schedule_id) == Some(e)
                    &&& final(self)@ == old(self)@
                },
            },
    {
        if self.owner.is_none() {
            return Err(VestingError::NotInitialized);
        }
        if schedule_id < 1 || schedule_id > self.schedules.len() as u128 {
            return Err(VestingError::ScheduleNotFound);
        }
        let k: usize = (schedule_id - 1) as usize;
        if self.schedules[k].employer != caller {
            return Err(VestingError::NotEmployer);
        }
        if !self.schedules[k].revocable {
            return Err(VestingError::NotRevocable);
        }
        if self.schedules[k].status != VestingStatus::Active {
            return Err(VestingError::NotActive);
        }
        let vested = compute_vested_amount(now, &self.schedules[k]);
        let refund: i128 = self.schedules[k].total_amount - vested;
        self.schedules[k].status = VestingStatus::Revoked;
        self.schedules[k].revoked_at = Some(now);
        proof {
            let goal = old(self)@.put(
                schedule_id,
                ScheduleView {
                    status: VestingStatus::Revoked,
                    revoked_at: Some(now),
                    ..old(self)@.schedule(schedule_id).unwrap()
                },
            );
            assert(self@.schedules =~= goal.schedules);
        }
        Ok(refund)
    }

    /// The schedule with this id, if there is one.
    pub fn get_schedule(&self, schedule_id: u128) -> (found: Option<VestingSchedule>)
        ensures
            match found {
                Some(s) => self@.schedule(schedule_id) == Some(s@),
                None => self@.schedule(schedule_id) is None,
            },
    {
        if schedule_id < 1 || schedule_id > self.schedules.len() as u128 {
            return None;
        }
        let s = &self.schedules[(schedule_id - 1) as usize];
        Some(
            VestingSchedule {
                id: s.id,
                employer: s.employer,
                beneficiary: s.beneficiary,
                token: s.token,
                kind: s.kind,
                total_amount: s.total_amount,
                released_amount: s.released_amount,
                start_time: s.start_time,
                end_time: s.end_time,
                cliff_time: s.cliff_time,
                checkpoints: copy_checkpoints(&s.checkpoints),
                status: s.status,
                revocable: s.revocable,
                revoked_at: s.revoked_at,
            },
        )
    }

    /// What has vested of schedule `schedule_id` at `now`.
    pub fn get_vested_amount(&self, schedule_id: u128, now: u64) -> (res: Result<
        i128,
        VestingError,
    >)
        ensures
            match res {
                Ok(amount) => self@.schedule(schedule_id) is Some && amount == vested_amount(
                    self@.schedule(schedule_id).unwrap(),
                    now,
                ),
                Err(e) => self@.schedule(schedule_id) is None && e
                    == VestingError::ScheduleNotFound,
            },
    {
        if schedule_id < 1 || schedule_id > self.schedules.len() as u128 {
            return Err(VestingError::ScheduleNotFound);
        }
        Ok(compute_vested_amount(now, &self.schedules[(schedule_id - 1) as usize]))
    }

    /// What can be claimed of schedule `schedule_id` at `now`.
    pub fn get_releasable_amount(&self, schedule_id: u128, now: u64) -> (res: Result<
        i128,
        VestingError,
    >)
        ensures
            match res {
                Ok(amount) => self@.schedule(schedule_id) is Some && amount == releasable_amount(
                    self@.schedule(schedule_id).unwrap(),
                    now,
                ),
                Err(e) => self@.schedule(schedule_id) is None && e
                    == VestingError::ScheduleNotFound,
            },
    {
        if schedule_id < 1 || schedule_id > self.schedules.len() as u128 {
            return Err(VestingError::ScheduleNotFound);
        }
        Ok(compute_releasable(now, &self.schedules[(schedule_id - 1) as usize]))
    }

    /// The owner, once there is one.
    pub fn get_owner(&self) -> (owner: Option<Address>)
        ensures
            owner == self@.owner,
    {
        self.owner
    }
}

/// The state that an owner and these schedules make up.
pub open spec fn assembled(owner: Option<Address>, schedules: Seq<VestingSchedule>) -> VestingView {
    VestingView { owner, schedules: Seq::new(schedules.len(), |i: int| schedules[i]@) }
}

/// The schedule at position `i` has the id `i + 1`, vests a positive
/// total, has released no negative amount, and none of its checkpoints
/// vests less than nothing.
pub open spec fn schedule_fits(s: ScheduleView, i: int) -> bool {
    &&& s.id == i + 1
    &&& s.total_amount > 0
    &&& s.released_amount >= 0
    &&& forall|j: int| 0 <= j < s.checkpoints.len() ==> (#[trigger] s.checkpoints[j]).cumulative_amount >= 0
}

fn schedule_in_order(schedule: &VestingSchedule, i: usize) -> (ok: bool)
    ensures
        ok == schedule_fits(schedule@, i as int),
{
    if schedule.id != i as u128 + 1 || schedule.total_amount <= 0 || schedule.released_amount < 0 {
        return false;
    }
    let mut j: usize = 0;
    while j < schedule.checkpoints.len()
        invariant
            j <= schedule.checkpoints@.len(),
            forall|k: int| 0 <= k < j ==> (#[trigger] schedule.checkpoints@[k]).cumulative_amount >= 0,
            schedule@.id == i + 1,
            schedule@.total_amount > 0,
            schedule@.released_amount >= 0,
        decreases schedule.checkpoints@.len() - j,
    {
        if schedule.checkpoints[j].cumulative_amount < 0 {
            assert(schedule@.checkpoints[j as int].cumulative_amount < 0);
            return false;
        }
        j += 1;
    }
    true
}

impl TokenVestingContract {
    /// Puts a vesting state together from its owner and its schedules, if
    /// they meet its invariant.
    pub fn from_parts(owner: Option<Address>, schedules: Vec<VestingSchedule>) -> (res: Option<
        TokenVestingContract,
    >)
        ensures
            res is Some <==> assembled(owner, schedules@).wf(),
            res is Some ==> res.unwrap()@ == assembled(owner, schedules@),
    {
        let ghost whole = assembled(owner, schedules@);
        if owner.is_none() && schedules.len() != 0 {
            return None;
        }
        let mut i: usize = 0;
        while i < schedules.len()
            invariant
                i <= schedules@.len(),
                owner is None ==> schedules@.len() == 0,
                whole == assembled(owner, schedules@),
                forall|k: int| 0 <= k < i ==> schedule_fits((#[trigger] schedules@[k])@, k),
            decreases schedules@.len() - i,
        {
            if !schedule_in_order(&schedules[i], i) {
                proof {
                    assert(whole.schedules[i as int] == schedules@[i as int]@);
                }
                return None;
            }
            i += 1;
        }
        proof {
            assert forall|k: int| 0 <= k < whole.schedules.len() implies {
                &&& (#[trigger] whole.schedules[k]).id == k + 1
                &&& whole.schedules[k].total_amount > 0
                &&& whole.schedules[k].released_amount >= 0
                &&& forall|j: int|
                    0 <= j < whole.schedules[k].checkpoints.len() ==> (
                    #[trigger] whole.schedules[k].checkpoints[j]).cumulative_amount >= 0
            } by {
                assert(schedule_fits(schedules@[k]@, k));
            }
        }
        Some(TokenVestingContract { owner, schedules })
    }

    /// Takes the vesting state apart: its owner and its schedules.
    pub fn into_parts(self) -> (parts: (Option<Address>, Vec<VestingSchedule>))
        ensures
            self@ == assembled(parts.0, parts.1@),
    {
        (self.owner, self.schedules)
    }
}

} // verus!
