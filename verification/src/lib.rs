//! A custodial vault ledger: many depositors pool funds into one shared
//! vault account, each contribution is tracked as its own entry, and a
//! depositor may later be refunded against an entry, minus a fixed fee.
//!
//! The library holds the verified core: the persistent record and its
//! binary codec, the authorization checks, and the state transitions for
//! the initialize, deposit and refund operations.  Host plumbing (account
//! handling, the actual fund transfers) stays outside; each operation is
//! computed here as a plan — the transfer to perform and the bytes to
//! persist — and committed only after the host reports the transfer's
//! outcome.

pub mod error;
pub mod identity;
pub mod state;
pub mod codec;
pub mod instruction;
pub mod ledger;
