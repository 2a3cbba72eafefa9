//! The record's binary layout, and the verified codec for it.
//!
//! The layout is fixed, with no versioning: the creator's 32 identity
//! bytes, the running total as a little-endian `u64`, a little-endian
//! `u32` entry count, then each entry as 32 identity bytes followed by its
//! amount as a little-endian `u64`.  A record occupies the whole buffer:
//! loading rejects any trailing bytes, and saving overwrites the buffer
//! entirely, so an unmodified record round-trips to identical bytes.

use vstd::prelude::*;
use vstd::bytes::*;
use vstd::slice::{slice_subrange, slice_to_vec};
use crate::error::DepositError;
use crate::identity::Identity;
use crate::identity::IDENTITY_LEN;
use crate::state::{Deposit, DepositView, VaultState, VaultStateView, deposit_views, shape_wf};

verus! {

/// Serialized width of one entry: 32 identity bytes and an 8-byte amount.
pub const ENTRY_BYTES: usize = 40;

/// Serialized width of the header: 32 creator bytes, an 8-byte total and
/// a 4-byte entry count.
pub const HEADER_BYTES: usize = 44;

/// The bytes of one serialized entry.
pub open spec fn spec_serialize_entry(d: DepositView) -> Seq<u8> {
    d.depositor + spec_u64_to_le_bytes(d.amount)
}

/// The bytes of a serialized entry sequence, in order.
pub open spec fn spec_serialize_entries(s: Seq<DepositView>) -> Seq<u8>
    decreases s.len(),
{
    if s.len() == 0 {
        Seq::empty()
    } else {
        spec_serialize_entry(s[0]) + spec_serialize_entries(s.skip(1))
    }
}

/// The bytes of a serialized record.
pub open spec fn spec_serialize_state(v: VaultStateView) -> Seq<u8> {
    v.listing_creator + spec_u64_to_le_bytes(v.total_deposits)
        + spec_u32_to_le_bytes(v.deposits.len() as u32) + spec_serialize_entries(v.deposits)
}

/// Parses exactly `n` entries from `b`, requiring that nothing is left
/// over afterwards.
pub open spec fn spec_parse_entries(b: Seq<u8>, n: nat) -> Option<Seq<DepositView>>
    decreases n,
{
    if n == 0 {
        if b.len() == 0 {
            Some(Seq::empty())
        } else {
            None
        }
    } else if b.len() < ENTRY_BYTES {
        None
    } else {
        let d = DepositView {
            depositor: b.take(32),
            amount: spec_u64_from_le_bytes(b.subrange(32, 40)),
        };
        match spec_parse_entries(b.skip(40), (n - 1) as nat) {
            Some(rest) => Some(seq![d] + rest),
            None => None,
        }
    }
}

/// Parses a whole record from `b`; `None` when the bytes do not follow
/// the layout exactly.
pub open spec fn spec_parse_state(b: Seq<u8>) -> Option<VaultStateView> {
    if b.len() < HEADER_BYTES {
        None
    } else {
        let count = spec_u32_from_le_bytes(b.subrange(40, 44));
        match spec_parse_entries(b.skip(44), count as nat) {
            Some(es) => Some(
                VaultStateView {
                    listing_creator: b.take(32),
                    total_deposits: spec_u64_from_le_bytes(b.subrange(32, 40)),
                    deposits: es,
                },
            ),
            None => None,
        }
    }
}

/// An entry sequence parses exactly when the bytes have the entries'
/// combined width; a successful parse fixes the count, the identity
/// widths, and — reserialized — gives back the very same bytes.
pub proof fn lemma_parse_entries_exact(b: Seq<u8>, n: nat)
    ensures
        spec_parse_entries(b, n) is Some <==> b.len() == ENTRY_BYTES * n,
        match spec_parse_entries(b, n) {
            Some(s) => {
                &&& s.len() == n
                &&& spec_serialize_entries(s) == b
                &&& forall|i: int| 0 <= i < s.len() ==> (#[trigger] s[i]).depositor.len() == IDENTITY_LEN
            },
            None => true,
        },
    decreases n,
{
    lemma_auto_spec_u64_to_from_le_bytes();
    if n == 0 {
    } else if b.len() < ENTRY_BYTES {
    } else {
        lemma_parse_entries_exact(b.skip(40), (n - 1) as nat);
        if spec_parse_entries(b, n) is Some {
            let d = DepositView {
                depositor: b.take(32),
                amount: spec_u64_from_le_bytes(b.subrange(32, 40)),
            };
            let rest = spec_parse_entries(b.skip(40), (n - 1) as nat).unwrap();
            let s = seq![d] + rest;
            assert(s[0] == d);
            assert(s.skip(1) =~= rest);
            assert(spec_u64_to_le_bytes(d.amount) == b.subrange(32, 40));
            assert(spec_serialize_entry(d) =~= b.take(40));
            assert(spec_serialize_entries(s) == spec_serialize_entry(s[0]) + spec_serialize_entries(s.skip(1)));
            assert(spec_serialize_entries(s) =~= b);
        }
    }
}

/// A record that parses, reserialized, gives back the very same bytes:
/// saving an unmodified loaded record is byte-identical.
pub proof fn lemma_parse_then_serialize(b: Seq<u8>)
    ensures
        match spec_parse_state(b) {
            Some(v) => spec_serialize_state(v) == b && shape_wf(v),
            None => true,
        },
{
    if spec_parse_state(b) is Some {
        let v = spec_parse_state(b).unwrap();
        let count = spec_u32_from_le_bytes(b.subrange(40, 44));
        lemma_parse_entries_exact(b.skip(44), count as nat);
        lemma_auto_spec_u64_to_from_le_bytes();
        lemma_auto_spec_u32_to_from_le_bytes();
        assert(v.deposits.len() == count as nat);
        assert(v.deposits.len() as u32 == count);
        assert(spec_u64_to_le_bytes(v.total_deposits) == b.subrange(32, 40));
        assert(spec_u32_to_le_bytes(v.deposits.len() as u32) == b.subrange(40, 44));
        assert(spec_serialize_entries(v.deposits) == b.skip(44));
        assert(spec_serialize_state(v) =~= b);
    }
}

/// Serialized entries with the fixed identity width parse back to the
/// very same entries.
pub proof fn lemma_serialize_then_parse_entries(s: Seq<DepositView>)
    requires
        forall|i: int| 0 <= i < s.len() ==> (#[trigger] s[i]).depositor.len() == IDENTITY_LEN,
    ensures
        spec_parse_entries(spec_serialize_entries(s), s.len()) == Some(s),
    decreases s.len(),
{
    lemma_auto_spec_u64_to_from_le_bytes();
    if s.len() > 0 {
        let b = spec_serialize_entries(s);
        assert(forall|i: int| 0 <= i < s.skip(1).len() ==> (#[trigger] s.skip(1)[i]).depositor.len()
            == IDENTITY_LEN);
        lemma_serialize_then_parse_entries(s.skip(1));
        assert(b == spec_serialize_entry(s[0]) + spec_serialize_entries(s.skip(1)));
        assert(b.take(32) =~= s[0].depositor);
        assert(b.subrange(32, 40) =~= spec_u64_to_le_bytes(s[0].amount));
        assert(b.skip(40) =~= spec_serialize_entries(s.skip(1)));
        let d = DepositView { depositor: b.take(32), amount: spec_u64_from_le_bytes(b.subrange(32, 40)) };
        assert(d =~= s[0]);
        assert(seq![d] + s.skip(1) =~= s);
    }
}

/// A well-formed record, serialized, parses back to the very same record:
/// loading what was saved recovers it exactly.
pub proof fn lemma_serialize_then_parse(v: VaultStateView)
    requires
        shape_wf(v),
    ensures
        spec_parse_state(spec_serialize_state(v)) == Some(v),
{
    let b = spec_serialize_state(v);
    lemma_auto_spec_u64_to_from_le_bytes();
    lemma_auto_spec_u32_to_from_le_bytes();
    lemma_serialize_then_parse_entries(v.deposits);
    assert(b.take(32) =~= v.listing_creator);
    assert(b.subrange(32, 40) =~= spec_u64_to_le_bytes(v.total_deposits));
    assert(b.subrange(40, 44) =~= spec_u32_to_le_bytes(v.deposits.len() as u32));
    assert(b.skip(44) =~= spec_serialize_entries(v.deposits));
    assert(spec_parse_state(b).unwrap() =~~= v);
}

/// Serializes the entries of `ds` from position `i` on.
fn serialize_entries(ds: &Vec<Deposit>, i: usize) -> (r: Vec<u8>)
    requires
        i <= ds@.len(),
    ensures
        r@ == spec_serialize_entries(deposit_views(ds@).skip(i as int)),
    decreases ds@.len() - i,
{
    let views = Ghost(deposit_views(ds@));
    if i == ds.len() {
        assert(views@.skip(i as int) =~= Seq::<DepositView>::empty());
        Vec::new()
    } else {
        let d: &Deposit = &ds[i];
        let mut out: Vec<u8> = Vec::new();
        out.extend_from_slice(d.depositor.as_bytes().as_slice());
        let mut amount_bytes = u64_to_le_bytes(d.amount);
        out.append(&mut amount_bytes);
        let mut rest = serialize_entries(ds, i + 1);
        out.append(&mut rest);
        proof {
            let tail = views@.skip(i as int);
            assert(tail[0] == ds@[i as int]@);
            assert(tail.skip(1) =~= views@.skip(i as int + 1));
            assert(out@ =~= spec_serialize_entry(tail[0]) + spec_serialize_entries(tail.skip(1)));
        }
        out
    }
}

/// Serializes a record into a fresh buffer.
pub fn serialize_vault_state(v: &VaultState) -> (r: Vec<u8>)
    requires
        v@.deposits.len() <= u32::MAX,
    ensures
        r@ == spec_serialize_state(v@),
{
    let mut out: Vec<u8> = Vec::new();
    out.extend_from_slice(v.listing_creator.as_bytes().as_slice());
    let mut total_bytes = u64_to_le_bytes(v.total_deposits);
    out.append(&mut total_bytes);
    assert(v.deposits@.len() == v@.deposits.len());
    let count: u32 = v.deposits.len() as u32;
    let mut count_bytes = u32_to_le_bytes(count);
    out.append(&mut count_bytes);
    let mut entry_bytes = serialize_entries(&v.deposits, 0);
    out.append(&mut entry_bytes);
    proof {
        assert(deposit_views(v.deposits@).skip(0) =~= v@.deposits);
        assert(out@ =~= spec_serialize_state(v@));
    }
    out
}

/// Parses `n` entries of known exact width starting at `pos`.
fn parse_entries(data: &Vec<u8>, pos: usize, n: u32) -> (r: Vec<Deposit>)
    requires
        pos <= data@.len(),
        data@.len() - pos == ENTRY_BYTES * n,
    ensures
        spec_parse_entries(data@.skip(pos as int), n as nat) == Some(deposit_views(r@)),
        r@.len() == n,
        forall|i: int| 0 <= i < r@.len() ==> (#[trigger] r@[i]).depositor.wf(),
    decreases n,
{
    let tail = Ghost(data@.skip(pos as int));
    if n == 0 {
        let r: Vec<Deposit> = Vec::new();
        assert(deposit_views(r@) =~= Seq::<DepositView>::empty());
        r
    } else {
        let data_len = data.len();
        assert(pos + 40 <= data_len);
        let depositor = Identity::from_raw(slice_to_vec(slice_subrange(data.as_slice(), pos, pos + 32)));
        let amount = u64_from_le_bytes(slice_subrange(data.as_slice(), pos + 32, pos + 40));
        let mut r = parse_entries(data, pos + 40, n - 1);
        let prev = Ghost(r@);
        r.insert(0, Deposit { depositor, amount });
        proof {
            let d = DepositView {
                depositor: tail@.take(32),
                amount: spec_u64_from_le_bytes(tail@.subrange(32, 40)),
            };
            assert(tail@.take(32) =~= data@.subrange(pos as int, pos + 32));
            assert(tail@.subrange(32, 40) =~= data@.subrange(pos + 32, pos + 40));
            assert(tail@.skip(40) =~= data@.skip(pos + 40));
            assert(r@[0]@ =~= d);
            assert(r@.skip(1) =~= prev@);
            assert(deposit_views(r@) =~= seq![d] + deposit_views(prev@));
        }
        r
    }
}

/// Loads a record from the raw bytes of the vault's storage; fails with
/// `CorruptState` unless the bytes follow the layout exactly.
pub fn deserialize_vault_state(data: &Vec<u8>) -> (r: Result<VaultState, DepositError>)
    ensures
        match r {
            Ok(v) => spec_parse_state(data@) == Some(v@) && shape_wf(v@),
            Err(e) => e == DepositError::CorruptState && spec_parse_state(data@) is None,
        },
{
    if data.len() < HEADER_BYTES {
        return Err(DepositError::CorruptState);
    }
    let creator = Identity::from_raw(slice_to_vec(slice_subrange(data.as_slice(), 0, 32)));
    let total = u64_from_le_bytes(slice_subrange(data.as_slice(), 32, 40));
    let count = u32_from_le_bytes(slice_subrange(data.as_slice(), 40, 44));
    proof {
        lemma_parse_entries_exact(data@.skip(HEADER_BYTES as int), count as nat);
    }
    if (data.len() as u64) - (HEADER_BYTES as u64) != (ENTRY_BYTES as u64) * (count as u64) {
        return Err(DepositError::CorruptState);
    }
    let deposits = parse_entries(data, HEADER_BYTES, count);
    let state = VaultState { listing_creator: creator, total_deposits: total, deposits };
    proof {
        assert(state@.listing_creator =~= data@.take(32));
        let parsed = spec_parse_state(data@).unwrap();
        assert(parsed =~~= state@);
    }
    Ok(state)
}

} // verus!
