//! Payment splitting: a split names its recipients and gives each a share
//! of a payment, in basis points of the total or as a fixed amount.

use vstd::prelude::*;
use crate::address::Address;

verus! {

/// The share of one recipient.
#[derive(Clone, Copy, Debug, PartialEq, Eq, Structural)]
pub enum ShareKind {
    /// A share in basis points: 10000 is the whole payment.
    Percent(u32),
    /// A fixed amount in the smallest unit of the token.
    Fixed(i128),
}

/// One recipient of a split and its share.
#[derive(Clone, Copy, Debug, PartialEq, Eq, Structural)]
pub struct RecipientShare {
    pub recipient: Address,
    pub kind: ShareKind,
}

/// A split: its creator and its recipients.
#[derive(Debug, PartialEq, Eq)]
pub struct SplitDefinition {
    pub id: u128,
    pub creator: Address,
    pub recipients: Vec<RecipientShare>,
}

/// The mathematical value of a [`SplitDefinition`].
pub struct SplitView {
    pub id: u128,
    pub creator: Address,
    pub recipients: Seq<RecipientShare>,
}

impl View for SplitDefinition {
    type V = SplitView;

    open spec fn view(&self) -> SplitView {
        SplitView { id: self.id, creator: self.creator, recipients: self.recipients@ }
    }
}

/// Why a splitter call was refused. A refused call leaves the state as it was.
#[derive(Clone, Copy, Debug, PartialEq, Eq, Structural)]
pub enum SplitterError {
    NotInitialized,
    AlreadyInitialized,
    /// A split needs at least one recipient.
    NoRecipients,
    /// The basis points add up to more than the largest count.
    PercentOverflow,
    /// The basis points do not add up to 10000.
    InvalidPercentTotal,
    SplitNotFound,
    /// The fixed amounts, added up in order, leave the range of amounts.
    FixedSumOverflow,
    /// A share of the total leaves the range of amounts.
    AmountOverflow,
}

/// Basis points of a whole payment.
pub const FULL_BASIS_POINTS: u32 = 10000;

/// The payment splitter: its admin and its splits. The split with id `n`
/// is the `n`-th that was created.
pub struct PaymentSplitterContract {
    admin: Option<Address>,
    splits: Vec<SplitDefinition>,
}

/// The mathematical value of a [`PaymentSplitterContract`].
pub struct SplitterView {
    pub admin: Option<Address>,
    pub splits: Seq<SplitView>,
}

impl View for PaymentSplitterContract {
    type V = SplitterView;

    closed spec fn view(&self) -> SplitterView {
        SplitterView {
            admin: self.admin,
            splits: Seq::new(self.splits@.len(), |i: int| self.splits@[i]@),
        }
    }
}

/// The basis points of a share; nothing for a fixed share.
pub open spec fn basis_points(kind: ShareKind) -> int {
    match kind {
        ShareKind::Percent(bps) => bps as int,
        ShareKind::Fixed(_) => 0,
    }
}

/// The fixed amount of a share; nothing for a share in basis points.
pub open spec fn fixed_amount(kind: ShareKind) -> int {
    match kind {
        ShareKind::Percent(_) => 0,
        ShareKind::Fixed(amount) => amount as int,
    }
}

/// The sum of the basis points of all shares.
pub open spec fn percent_total(recipients: Seq<RecipientShare>) -> int
    decreases recipients.len(),
{
    if recipients.len() == 0 {
        0
    } else {
        percent_total(recipients.drop_last()) + basis_points(recipients.last().kind)
    }
}

/// The sum of the fixed amounts of all shares.
pub open spec fn fixed_total(recipients: Seq<RecipientShare>) -> int
    decreases recipients.len(),
{
    if recipients.len() == 0 {
        0
    } else {
        fixed_total(recipients.drop_last()) + fixed_amount(recipients.last().kind)
    }
}

/// Added up in order, the fixed amounts never leave the range of amounts.
pub open spec fn fixed_totals_fit(recipients: Seq<RecipientShare>) -> bool
    decreases recipients.len(),
{
    if recipients.len() == 0 {
        true
    } else {
        fixed_totals_fit(recipients.drop_last()) && i128::MIN <= fixed_total(recipients)
            <= i128::MAX
    }
}

/// Some share is in basis points.
pub open spec fn has_percent(recipients: Seq<RecipientShare>) -> bool {
    exists|i: int| 0 <= i < recipients.len() && (#[trigger] recipients[i]).kind is Percent
}

/// Some share is a fixed amount.
pub open spec fn has_fixed(recipients: Seq<RecipientShare>) -> bool {
    exists|i: int| 0 <= i < recipients.len() && (#[trigger] recipients[i]).kind is Fixed
}

/// `a` divided by the positive `b`, rounded towards zero.
pub open spec fn quotient_towards_zero(a: int, b: int) -> int {
    if a >= 0 {
        a / b
    } else {
        -((-a) / b)
    }
}

/// What a share gets of `total_amount`: its basis points of the total,
/// rounded towards zero, or its fixed amount.
pub open spec fn share_amount(kind: ShareKind, total_amount: i128) -> int {
    match kind {
        ShareKind::Percent(bps) => quotient_towards_zero(
            bps * total_amount,
            FULL_BASIS_POINTS as int,
        ),
        ShareKind::Fixed(amount) => amount as int,
    }
}

/// The product of a share's basis points and `total_amount` fits the range
/// of amounts.
pub open spec fn share_fits(kind: ShareKind, total_amount: i128) -> bool {
    match kind {
        ShareKind::Percent(bps) => i128::MIN <= bps * total_amount <= i128::MAX,
        ShareKind::Fixed(_) => true,
    }
}

/// Every share of `recipients` fits for `total_amount`.
pub open spec fn shares_fit(recipients: Seq<RecipientShare>, total_amount: i128) -> bool {
    forall|i: int|
        0 <= i < recipients.len() ==> share_fits((#[trigger] recipients[i]).kind, total_amount)
}

/// What each recipient gets of `total_amount`, in the order of the split.
pub open spec fn payouts(recipients: Seq<RecipientShare>, total_amount: i128) -> Seq<
    (Address, i128),
> {
    Seq::new(
        recipients.len(),
        |i: int| (recipients[i].recipient, share_amount(recipients[i].kind, total_amount) as i128),
    )
}

/// Why a split with these recipients cannot be created in `v`, if anything.
pub open spec fn create_split_error(v: SplitterView, recipients: Seq<RecipientShare>) -> Option<
    SplitterError,
> {
    if v.admin is None {
        Some(SplitterError::NotInitialized)
    } else if recipients.len() == 0 {
        Some(SplitterError::NoRecipients)
    } else if percent_total(recipients) > u32::MAX {
        Some(SplitterError::PercentOverflow)
    } else if has_percent(recipients) && percent_total(recipients) != FULL_BASIS_POINTS {
        Some(SplitterError::InvalidPercentTotal)
    } else {
        None
    }
}

impl SplitterView {
    /// The split with this id.
    pub open spec fn split(self, id: u128) -> Option<SplitView> {
        if 1 <= id <= self.splits.len() {
            Some(self.splits[id - 1])
        } else {
            None
        }
    }

    /// The invariant of the splitter: without an admin there are no
    /// splits, and every split sits at the place its id names and has a
    /// recipient, and where it has shares in basis points they add up to
    /// the whole.
    pub open spec fn wf(self) -> bool {
        &&& self.admin is None ==> self.splits.len() == 0
        &&& forall|i: int|
            0 <= i < self.splits.len() ==> {
                &&& (#[trigger] self.splits[i]).id == i + 1
                &&& self.splits[i].recipients.len() > 0
                &&& has_percent(self.splits[i].recipients) ==> percent_total(
                    self.splits[i].recipients,
                ) == FULL_BASIS_POINTS
            }
    }
}

/// The basis points of a prefix add up to no more than those of the whole.
proof fn lemma_percent_total_grows(recipients: Seq<RecipientShare>, k: int)
    requires
        0 <= k <= recipients.len(),
    ensures
        0 <= percent_total(recipients.take(k)) <= percent_total(recipients),
    decreases recipients.len() - k,
{
    if k == recipients.len() {
        assert(recipients.take(k) =~= recipients);
        lemma_percent_total_not_negative(recipients);
    } else {
        lemma_percent_total_grows(recipients, k + 1);
        assert(recipients.take(k + 1).drop_last() =~= recipients.take(k));
        lemma_percent_total_not_negative(recipients.take(k));
    }
}

proof fn lemma_percent_total_not_negative(recipients: Seq<RecipientShare>)
    ensures
        0 <= percent_total(recipients),
    decreases recipients.len(),
{
    if recipients.len() > 0 {
        lemma_percent_total_not_negative(recipients.drop_last());
    }
}

/// A prefix of fixed amounts that does not fit keeps the whole from fitting.
proof fn lemma_fixed_totals_fit_prefix(recipients: Seq<RecipientShare>, k: int)
    requires
        0 <= k <= recipients.len(),
        !fixed_totals_fit(recipients.take(k)),
    ensures
        !fixed_totals_fit(recipients),
    decreases recipients.len() - k,
{
    if k == recipients.len() {
        assert(recipients.take(k) =~= recipients);
    } else {
        assert(recipients.take(k + 1).drop_last() =~= recipients.take(k));
        lemma_fixed_totals_fit_prefix(recipients, k + 1);
    }
}

impl PaymentSplitterContract {
    /// A splitter without admin or splits.
    pub fn new() -> (c: PaymentSplitterContract)
        ensures
            c@.wf(),
            c@.admin is None,
            c@.splits.len() == 0,
    {
        PaymentSplitterContract { admin: None, splits: Vec::new() }
    }

    /// Records `admin` as the admin. This can be done once.
    pub fn initialize(&mut self, admin: Address) -> (res: Result<(), SplitterError>)
        requires
            old(self)@.wf(),
        ensures
            final(self)@.wf(),
            match res {
                Ok(_) => old(self)@.admin is None && final(self)@ == (SplitterView {
                    admin: Some(admin),
                    ..old(self)@
                }),
                Err(e) => old(self)@.admin is Some && e == SplitterError::AlreadyInitialized
                    && final(self)@ == old(self)@,
            },
    {
        if self.admin.is_some() {
            return Err(SplitterError::AlreadyInitialized);
        }
        self.admin = Some(admin);
        proof {
            assert(self@.splits =~= old(self)@.splits);
        }
        Ok(())
    }

    /// Creates a split for `creator`, who is the caller, and returns its
    /// id: one more than the number of splits created before. Shares in
    /// basis points, if there are any, must add up to 10000.
    pub fn create_split(&mut self, creator: Address, recipients: Vec<RecipientShare>) -> (res:
        Result<u128, SplitterError>)
        requires
            old(self)@.wf(),
        ensures
            final(self)@.wf(),
            match res {
                Ok(id) => {
                    &&& create_split_error(old(self)@, recipients@) is None
                    &&& id == old(self)@.splits.len() + 1
                    &&& final(self)@ == (SplitterView {
                        splits: old(self)@.splits.push(
                            SplitView { id, creator, recipients: recipients@ },
                        ),
                        ..old(self)@
                    })
                },
                Err(e) => {
                    &&& create_split_error(old(self)@, recipients@) == Some(e)
                    &&& final(self)@ == old(self)@
                },
            },
    {
        if self.admin.is_none() {
            return Err(SplitterError::NotInitialized);
        }
        if recipients.len() == 0 {
            return Err(SplitterError::NoRecipients);
        }
        let mut any_percent = false;
        let mut total_bps: u32 = 0;
        let mut k: usize = 0;
        while k < recipients.len()
            invariant
                k <= recipients@.len(),
                total_bps == percent_total(recipients@.take(k as int)),
                any_percent == has_percent(recipients@.take(k as int)),
                self@ == old(self)@,
                old(self)@.wf(),
                old(self)@.admin is Some,
                recipients@.len() > 0,
            decreases recipients@.len() - k,
        {
            proof {
                let next = recipients@.take(k + 1);
                let front = recipients@.take(k as int);
                assert(next.drop_last() =~= front);
                assert(next.last() == recipients@[k as int]);
                lemma_percent_total_grows(recipients@, k + 1);
                if has_percent(front) {
                    let i = choose|i: int| 0 <= i < front.len() && (#[trigger] front[i]).kind is Percent;
                    assert(next[i].kind is Percent);
                }
                if has_percent(next) && !(recipients@[k as int].kind is Percent) {
                    let i = choose|i: int| 0 <= i < next.len() && (#[trigger] next[i]).kind is Percent;
                    assert(front[i].kind is Percent);
                }
                if recipients@[k as int].kind is Percent {
                    assert(next[k as int].kind is Percent);
                }
            }
            match recipients[k].kind {
                ShareKind::Percent(bps) => {
                    any_percent = true;
                    total_bps = match total_bps.checked_add(bps) {
                        Some(sum) => sum,
                        None => {
                            return Err(SplitterError::PercentOverflow);
                        },
                    };
                },
                ShareKind::Fixed(_) => {},
            }
            k += 1;
        }
        proof {
            assert(recipients@.take(k as int) =~= recipients@);
        }
        if any_percent && total_bps != FULL_BASIS_POINTS {
            return Err(SplitterError::InvalidPercentTotal);
        }
        let id: u128 = self.splits.len() as u128 + 1;
        let split = SplitDefinition { id, creator, recipients };
        self.splits.push(split);
        proof {
            assert(self@.splits =~= old(self)@.splits.push(split@));
        }
        Ok(id)
    }

    /// Whether split `split_id` can pay out `total_amount`: a split with
    /// fixed shares can if they add up to the total, a split without fixed
    /// shares always can.
    pub fn validate_split_for_amount(&self, split_id: u128, total_amount: i128) -> (res: Result<
        bool,
        SplitterError,
    >)
        ensures
            match res {
                Ok(valid) => {
                    &&& self@.split(split_id) is Some
                    &&& fixed_totals_fit(self@.split(split_id).unwrap().recipients)
                    &&& valid == (has_fixed(self@.split(split_id).unwrap().recipients) ==> fixed_total(
                        self@.split(split_id).unwrap().recipients,
                    ) == total_amount)
                },
                Err(e) => {
                    &&& self@.split(split_id) is None ==> e == SplitterError::SplitNotFound
                    &&& self@.split(split_id) is Some ==> e == SplitterError::FixedSumOverflow
                        && !fixed_totals_fit(self@.split(split_id).unwrap().recipients)
                },
            },
    {
        if split_id < 1 || split_id > self.splits.len() as u128 {
            return Err(SplitterError::SplitNotFound);
        }
        let recipients = &self.splits[(split_id - 1) as usize].recipients;
        let mut any_fixed = false;
        let mut fixed_sum: i128 = 0;
        let mut k: usize = 0;
        while k < recipients.len()
            invariant
                k <= recipients@.len(),
                fixed_sum == fixed_total(recipients@.take(k as int)),
                fixed_totals_fit(recipients@.take(k as int)),
                any_fixed == has_fixed(recipients@.take(k as int)),
                self@.split(split_id) is Some,
                recipients@ == self@.split(split_id).unwrap().recipients,
            decreases recipients@.len() - k,
        {
            proof {
                let next = recipients@.take(k + 1);
                let front = recipients@.take(k as int);
                assert(next.drop_last() =~= front);
                assert(next.last() == recipients@[k as int]);
                if has_fixed(front) {
                    let i = choose|i: int| 0 <= i < front.len() && (#[trigger] front[i]).kind is Fixed;
                    assert(next[i].kind is Fixed);
                }
                if has_fixed(next) && !(recipients@[k as int].kind is Fixed) {
                    let i = choose|i: int| 0 <= i < next.len() && (#[trigger] next[i]).kind is Fixed;
                    assert(front[i].kind is Fixed);
                }
                if recipients@[k as int].kind is Fixed {
                    assert(next[k as int].kind is Fixed);
                }
            }
            match recipients[k].kind {
                ShareKind::Percent(_) => {},
                ShareKind::Fixed(amount) => {
                    any_fixed = true;
                    fixed_sum = match fixed_sum.checked_add(amount) {
                        Some(sum) => sum,
                        None => {
                            proof {
                                lemma_fixed_totals_fit_prefix(recipients@, k + 1);
                            }
                            return Err(SplitterError::FixedSumOverflow);
                        },
                    };
                },
            }
            k += 1;
        }
        proof {
            assert(recipients@.take(k as int) =~= recipients@);
        }
        if any_fixed {
            Ok(fixed_sum == total_amount)
        } else {
            Ok(true)
        }
    }

    /// What each recipient of split `split_id` gets of `total_amount`, in
    /// the order of the split: its basis points of the total, rounded
    /// towards zero, or its fixed amount.
    pub fn compute_split(&self, split_id: u128, total_amount: i128) -> (res: Result<
        Vec<(Address, i128)>,
        SplitterError,
    >)
        ensures
            match res {
                Ok(list) => {
                    &&& self@.split(split_id) is Some
                    &&& shares_fit(self@.split(split_id).unwrap().recipients, total_amount)
                    &&& list@ == payouts(self@.split(split_id).unwrap().recipients, total_amount)
                },
                Err(e) => {
                    &&& self@.split(split_id) is None ==> e == SplitterError::SplitNotFound
                    &&& self@.split(split_id) is Some ==> e == SplitterError::AmountOverflow
                        && !shares_fit(self@.split(split_id).unwrap().recipients, total_amount)
                },
            },
    {
        if split_id < 1 || split_id > self.splits.len() as u128 {
            return Err(SplitterError::SplitNotFound);
        }
        let recipients = &self.splits[(split_id - 1) as usize].recipients;
        let mut list: Vec<(Address, i128)> = Vec::new();
        let mut k: usize = 0;
        while k < recipients.len()
            invariant
                k <= recipients@.len(),
                shares_fit(recipients@.take(k as int), total_amount),
                list@ == payouts(recipients@.take(k as int), total_amount),
                self@.split(split_id) is Some,
                recipients@ == self@.split(split_id).unwrap().recipients,
            decreases recipients@.len() - k,
        {
            let share = recipients[k];
            let amount: i128 = match share.kind {
                ShareKind::Percent(bps) => {
                    match (bps as i128).checked_mul(total_amount) {
                        Some(product) => product / (FULL_BASIS_POINTS as i128),
                        None => {
                            assert(!share_fits(recipients@[k as int].kind, total_amount));
                            return Err(SplitterError::AmountOverflow);
                        },
                    }
                },
                ShareKind::Fixed(fixed) => fixed,
            };
            list.push((share.recipient, amount));
            proof {
                let next = recipients@.take(k + 1);
                let front = recipients@.take(k as int);
                assert forall|i: int| 0 <= i < next.len() implies share_fits(
                    (#[trigger] next[i]).kind,
                    total_amount,
                ) by {
                    if i < k {
                        assert(front[i] == next[i]);
                    }
                }
                assert(list@ =~= payouts(next, total_amount));
            }
            k += 1;
        }
        proof {
            assert(recipients@.take(k as int) =~= recipients@);
        }
        Ok(list)
    }

    /// The split with this id.
    pub fn get_split(&self, split_id: u128) -> (res: Result<SplitDefinition, SplitterError>)
        ensures
            match res {
                Ok(split) => self@.split(split_id) == Some(split@),
                Err(e) => self@.split(split_id) is None && e == SplitterError::SplitNotFound,
            },
    {
        if split_id < 1 || split_id > self.splits.len() as u128 {
            return Err(SplitterError::SplitNotFound);
        }
        let split = &self.splits[(split_id - 1) as usize];
        let mut recipients: Vec<RecipientShare> = Vec::new();
        let mut k: usize = 0;
        while k < split.recipients.len()
            invariant
                k <= split.recipients@.len(),
                recipients@ == split.recipients@.take(k as int),
            decreases split.recipients@.len() - k,
        {
            recipients.push(split.recipients[k]);
            proof {
                assert(split.recipients@.take(k + 1) =~= split.recipients@.take(k as int).push(
                    split.recipients@[k as int],
                ));
            }
            k += 1;
        }
        proof {
            assert(split.recipients@.take(k as int) =~= split.recipients@);
        }
        Ok(SplitDefinition { id: split.id, creator: split.creator, recipients })
    }
}

/// The state that an admin and these splits make up.
pub open spec fn assembled(admin: Option<Address>, splits: Seq<SplitDefinition>) -> SplitterView {
    SplitterView { admin, splits: Seq::new(splits.len(), |i: int| splits[i]@) }
}

/// The split at position `i` has the id `i + 1` and a recipient, and its
/// shares in basis points, if it has any, add up to the whole.
pub open spec fn split_fits(s: SplitView, i: int) -> bool {
    &&& s.id == i + 1
    &&& s.recipients.len() > 0
    &&& has_percent(s.recipients) ==> percent_total(s.recipients) == FULL_BASIS_POINTS
}

fn split_in_order(split: &SplitDefinition, i: usize) -> (ok: bool)
    ensures
        ok == split_fits(split@, i as int),
{
    if split.id != i as u128 + 1 || split.recipients.len() == 0 {
        return false;
    }
    let recipients = &split.recipients;
    let mut any_percent = false;
    let mut total_bps: u32 = 0;
    let mut k: usize = 0;
    while k < recipients.len()
        invariant
            k <= recipients@.len(),
            recipients@ == split@.recipients,
            recipients@.len() > 0,
            split@.id == i + 1,
            total_bps == percent_total(recipients@.take(k as int)),
            any_percent == has_percent(recipients@.take(k as int)),
        decreases recipients@.len() - k,
    {
        proof {
            let next = recipients@.take(k + 1);
            let front = recipients@.take(k as int);
            assert(next.drop_last() =~= front);
            assert(next.last() == recipients@[k as int]);
            lemma_percent_total_grows(recipients@, k + 1);
            if has_percent(front) {
                let j = choose|j: int| 0 <= j < front.len() && (#[trigger] front[j]).kind is Percent;
                assert(next[j].kind is Percent);
            }
            if has_percent(next) && !(recipients@[k as int].kind is Percent) {
                let j = choose|j: int| 0 <= j < next.len() && (#[trigger] next[j]).kind is Percent;
                assert(front[j].kind is Percent);
            }
            if recipients@[k as int].kind is Percent {
                assert(next[k as int].kind is Percent);
                assert(recipients@[k as int].kind is Percent);
            }
        }
        match recipients[k].kind {
            ShareKind::Percent(bps) => {
                any_percent = true;
                total_bps = match total_bps.checked_add(bps) {
                    Some(sum) => sum,
                    None => {
                        return false;
                    },
                };
            },
            ShareKind::Fixed(_) => {},
        }
        k += 1;
    }
    proof {
        assert(recipients@.take(k as int) =~= recipients@);
    }
    !any_percent || total_bps == FULL_BASIS_POINTS
}

impl PaymentSplitterContract {
    /// Puts a splitter together from its admin and its splits, if they
    /// meet its invariant.
    pub fn from_parts(admin: Option<Address>, splits: Vec<SplitDefinition>) -> (res: Option<
        PaymentSplitterContract,
    >)
        ensures
            res is Some <==> assembled(admin, splits@).wf(),
            res is Some ==> res.unwrap()@ == assembled(admin, splits@),
    {
        let ghost whole = assembled(admin, splits@);
        if admin.is_none() && splits.len() != 0 {
            return None;
        }
        let mut i: usize = 0;
        while i < splits.len()
            invariant
                i <= splits@.len(),
                admin is None ==> splits@.len() == 0,
                whole == assembled(admin, splits@),
                forall|k: int| 0 <= k < i ==> split_fits((#[trigger] splits@[k])@, k),
            decreases splits@.len() - i,
        {
            if !split_in_order(&splits[i], i) {
                proof {
                    assert(whole.splits[i as int] == splits@[i as int]@);
                }
                return None;
            }
            i += 1;
        }
        proof {
            assert forall|k: int| 0 <= k < whole.splits.len() implies {
                &&& (#[trigger] whole.splits[k]).id == k + 1
                &&& whole.splits[k].recipients.len() > 0
                &&& has_percent(whole.splits[k].recipients) ==> percent_total(
                    whole.splits[k].recipients,
                ) == FULL_BASIS_POINTS
            } by {
                assert(split_fits(splits@[k]@, k));
            }
        }
        Some(PaymentSplitterContract { admin, splits })
    }

    /// Takes the splitter apart: its admin and its splits.
    pub fn into_parts(self) -> (parts: (Option<Address>, Vec<SplitDefinition>))
        ensures
            self@ == assembled(parts.0, parts.1@),
    {
        (self.admin, self.splits)
    }
}

} // verus!
