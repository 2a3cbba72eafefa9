//! Account identities.  An identity is the fixed-width (32-byte) key of an
//! account; the ledger only ever stores and compares these bytes.

use vstd::prelude::*;
use crate::error::DepositError;

verus! {

/// The number of bytes in an account identity.
pub const IDENTITY_LEN: usize = 32;

/// A 32-byte account identity.
#[derive(Clone, Debug)]
pub struct Identity {
    bytes: Vec<u8>,
}

impl View for Identity {
    type V = Seq<u8>;

    closed spec fn view(&self) -> Seq<u8> {
        self.bytes@
    }
}

impl Identity {
    /// An identity is well formed when it holds exactly 32 bytes.
    pub open spec fn wf(&self) -> bool {
        self@.len() == IDENTITY_LEN
    }

    /// Builds an identity from raw bytes; rejects any length but 32.
    pub fn from_bytes(bytes: Vec<u8>) -> (r: Result<Identity, DepositError>)
        ensures
            match r {
                Ok(id) => id.wf() && id@ == bytes@,
                Err(e) => e == DepositError::CorruptState && bytes@.len() != IDENTITY_LEN,
            },
    {
        if bytes.len() == IDENTITY_LEN {
            Ok(Identity { bytes })
        } else {
            Err(DepositError::CorruptState)
        }
    }

    /// Builds an identity from bytes already known to have the right width.
    pub fn from_raw(bytes: Vec<u8>) -> (r: Identity)
        requires
            bytes@.len() == IDENTITY_LEN,
        ensures
            r.wf() && r@ == bytes@,
    {
        Identity { bytes }
    }

    /// A fresh identity with the same bytes.
    pub fn duplicate(&self) -> (r: Identity)
        ensures
            r@ == self@,
    {
        Identity { bytes: vstd::slice::slice_to_vec(self.bytes.as_slice()) }
    }

    /// The raw bytes of the identity.
    pub fn as_bytes(&self) -> (r: &Vec<u8>)
        ensures
            r@ == self@,
    {
        &self.bytes
    }

    /// Byte-wise equality of two identities.
    pub fn eq_bytes(&self, other: &Identity) -> (r: bool)
        ensures
            r == (self@ == other@),
    {
        if self.bytes.len() != other.bytes.len() {
            assert(self@.len() != other@.len());
            return false;
        }
        let n = self.bytes.len();
        for i in 0..n
            invariant
                n == self@.len() && n == other@.len(),
                forall|j: int| 0 <= j < i ==> self@[j] == other@[j],
        {
            if self.bytes[i] != other.bytes[i] {
                return false;
            }
        }
        assert(self@ =~= other@);
        true
    }
}

} // verus!
