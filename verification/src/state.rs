//! The persistent ledger record: one vault's creator, its running total,
//! and the ordered sequence of deposit entries.  The record's invariant —
//! the total equals the sum of the entries — is stated here, together
//! with the summation lemmas the transitions rely on.

use vstd::prelude::*;
use crate::identity::Identity;
use crate::identity::IDENTITY_LEN;

verus! {

/// One deposit contribution: who paid, and how much of it is still
/// attributable to this entry (refunds decrement it, never delete it).
#[derive(Clone, Debug)]
pub struct Deposit {
    pub depositor: Identity,
    pub amount: u64,
}

/// Mathematical image of a `Deposit`.
#[verifier::ext_equal]
pub struct DepositView {
    pub depositor: Seq<u8>,
    pub amount: u64,
}

impl View for Deposit {
    type V = DepositView;

    open spec fn view(&self) -> DepositView {
        DepositView { depositor: self.depositor@, amount: self.amount }
    }
}

/// The ledger for one vault.  Entries only ever grow in number; amounts
/// only ever decrease; the creator never changes after initialization.
#[derive(Clone, Debug)]
pub struct VaultState {
    pub listing_creator: Identity,
    pub total_deposits: u64,
    pub deposits: Vec<Deposit>,
}

/// Mathematical image of a `VaultState`.
#[verifier::ext_equal]
pub struct VaultStateView {
    pub listing_creator: Seq<u8>,
    pub total_deposits: u64,
    pub deposits: Seq<DepositView>,
}

/// The images of a sequence of entries, in order.
pub open spec fn deposit_views(ds: Seq<Deposit>) -> Seq<DepositView> {
    ds.map_values(|d: Deposit| d@)
}

impl View for VaultState {
    type V = VaultStateView;

    open spec fn view(&self) -> VaultStateView {
        VaultStateView {
            listing_creator: self.listing_creator@,
            total_deposits: self.total_deposits,
            deposits: deposit_views(self.deposits@),
        }
    }
}

/// The sum of the remaining amounts of a sequence of entries.
pub open spec fn spec_sum(s: Seq<DepositView>) -> int
    decreases s.len(),
{
    if s.len() == 0 {
        0
    } else {
        s[0].amount + spec_sum(s.skip(1))
    }
}

/// Every identity stored in the record has the fixed 32-byte width, and
/// the entry count fits the record's length prefix.
pub open spec fn shape_wf(v: VaultStateView) -> bool {
    &&& v.listing_creator.len() == IDENTITY_LEN
    &&& forall|i: int| 0 <= i < v.deposits.len() ==> (#[trigger] v.deposits[i]).depositor.len() == IDENTITY_LEN
    &&& v.deposits.len() <= u32::MAX
}

/// The bookkeeping invariant: the accumulator equals the sum of the
/// entries' remaining amounts.
pub open spec fn balanced(v: VaultStateView) -> bool {
    v.total_deposits == spec_sum(v.deposits)
}

/// A well-formed record: right shape, and balanced.
pub open spec fn state_wf(v: VaultStateView) -> bool {
    shape_wf(v) && balanced(v)
}

/// Appending an entry grows the sum by that entry's amount.
pub proof fn lemma_sum_push(s: Seq<DepositView>, d: DepositView)
    ensures
        spec_sum(s.push(d)) == spec_sum(s) + d.amount,
    decreases s.len(),
{
    let t = s.push(d);
    if s.len() == 0 {
        assert(t.skip(1) =~= Seq::<DepositView>::empty());
        assert(spec_sum(t) == t[0].amount + spec_sum(t.skip(1)));
    } else {
        assert(t.skip(1) =~= s.skip(1).push(d));
        lemma_sum_push(s.skip(1), d);
        assert(spec_sum(t) == t[0].amount + spec_sum(t.skip(1)));
    }
}

/// Replacing one entry moves the sum by the difference of the amounts.
pub proof fn lemma_sum_update(s: Seq<DepositView>, i: int, d: DepositView)
    requires
        0 <= i < s.len(),
    ensures
        spec_sum(s.update(i, d)) == spec_sum(s) - s[i].amount + d.amount,
    decreases s.len(),
{
    if i == 0 {
        assert(s.update(0, d).skip(1) =~= s.skip(1));
    } else {
        assert(s.update(i, d).skip(1) =~= s.skip(1).update(i - 1, d));
        lemma_sum_update(s.skip(1), i - 1, d);
    }
}

/// No single entry exceeds the sum of all of them.
pub proof fn lemma_sum_bounds_entry(s: Seq<DepositView>, i: int)
    requires
        0 <= i < s.len(),
    ensures
        s[i].amount <= spec_sum(s),
    decreases s.len(),
{
    lemma_sum_nonnegative(s.skip(1));
    if i > 0 {
        lemma_sum_bounds_entry(s.skip(1), i - 1);
    }
}

/// The sum of unsigned amounts is never negative.
pub proof fn lemma_sum_nonnegative(s: Seq<DepositView>)
    ensures
        spec_sum(s) >= 0,
    decreases s.len(),
{
    if s.len() > 0 {
        lemma_sum_nonnegative(s.skip(1));
    }
}

} // verus!
