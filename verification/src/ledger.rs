//! The core state machine: initialize, deposit and refund.
//!
//! Each operation is a pure function from the host-established facts (who
//! called, whether they signed, the vault's stored bytes) to a plan: the
//! fund transfer the host must perform, and the bytes to persist if that
//! transfer succeeds.  The operations never touch storage themselves;
//! `commit_operation` applies a plan to the stored bytes once the host
//! reports the transfer's outcome, so a failed operation leaves the
//! record byte-identical.

use vstd::prelude::*;
use crate::error::DepositError;
use crate::identity::Identity;
use crate::identity::IDENTITY_LEN;
use crate::state::{
    Deposit, DepositView, VaultState, VaultStateView, deposit_views, lemma_sum_bounds_entry,
    lemma_sum_push, lemma_sum_update, state_wf,
};
use crate::codec::{
    deserialize_vault_state, serialize_vault_state, spec_parse_state, spec_serialize_state,
};
use crate::instruction::{DepositInstruction, parse_instruction, spec_parse_instruction};

verus! {

/// The facts the host establishes before an operation runs: the program's
/// own identity, the caller and whether they proved control of their
/// identity, the vault account, its owner, and the vault's stored bytes.
pub struct OpContext {
    pub program_id: Identity,
    pub caller: Identity,
    pub caller_is_signer: bool,
    pub vault: Identity,
    pub vault_owner: Identity,
    pub vault_data: Vec<u8>,
}

/// Mathematical image of an `OpContext`.
#[verifier::ext_equal]
pub struct OpContextView {
    pub program_id: Seq<u8>,
    pub caller: Seq<u8>,
    pub caller_is_signer: bool,
    pub vault: Seq<u8>,
    pub vault_owner: Seq<u8>,
    pub vault_data: Seq<u8>,
}

impl View for OpContext {
    type V = OpContextView;

    open spec fn view(&self) -> OpContextView {
        OpContextView {
            program_id: self.program_id@,
            caller: self.caller@,
            caller_is_signer: self.caller_is_signer,
            vault: self.vault@,
            vault_owner: self.vault_owner@,
            vault_data: self.vault_data@,
        }
    }
}

impl OpContext {
    /// All identities in the context have the fixed 32-byte width.
    pub open spec fn wf(&self) -> bool {
        self.program_id.wf() && self.caller.wf() && self.vault.wf() && self.vault_owner.wf()
    }
}

/// How a transfer is to be authorized: by the caller's own signature, or
/// by the vault's derived authority with its bump seed.
#[derive(Debug)]
pub enum TransferAuthorization {
    CallerSignature,
    DerivedAuthority { authority: Identity, bump: u8 },
}

/// Mathematical image of a `TransferAuthorization`.
#[verifier::ext_equal]
pub enum AuthorizationView {
    CallerSignature,
    DerivedAuthority { authority: Seq<u8>, bump: u8 },
}

impl View for TransferAuthorization {
    type V = AuthorizationView;

    open spec fn view(&self) -> AuthorizationView {
        match self {
            TransferAuthorization::CallerSignature => AuthorizationView::CallerSignature,
            TransferAuthorization::DerivedAuthority { authority, bump } => {
                AuthorizationView::DerivedAuthority { authority: authority@, bump: *bump }
            },
        }
    }
}

/// One fund movement the host must perform on the operation's behalf.
#[derive(Debug)]
pub struct TransferRequest {
    pub from: Identity,
    pub to: Identity,
    pub amount: u64,
    pub authorization: TransferAuthorization,
}

/// Mathematical image of a `TransferRequest`.
#[verifier::ext_equal]
pub struct TransferView {
    pub from: Seq<u8>,
    pub to: Seq<u8>,
    pub amount: u64,
    pub authorization: AuthorizationView,
}

impl View for TransferRequest {
    type V = TransferView;

    open spec fn view(&self) -> TransferView {
        TransferView {
            from: self.from@,
            to: self.to@,
            amount: self.amount,
            authorization: self.authorization@,
        }
    }
}

/// What a successful operation asks of the host: perform the transfer,
/// if any, and persist the new record bytes.
#[derive(Debug)]
pub struct OperationPlan {
    pub transfer: Option<TransferRequest>,
    pub new_data: Vec<u8>,
}

/// Mathematical image of an `OperationPlan`.
#[verifier::ext_equal]
pub struct PlanView {
    pub transfer: Option<TransferView>,
    pub new_data: Seq<u8>,
}

impl View for OperationPlan {
    type V = PlanView;

    open spec fn view(&self) -> PlanView {
        PlanView {
            transfer: match &self.transfer {
                Some(t) => Some(t@),
                None => None,
            },
            new_data: self.new_data@,
        }
    }
}

/// The image of an operation's outcome.
pub open spec fn plan_result_view(r: Result<OperationPlan, DepositError>) -> Result<
    PlanView,
    DepositError,
> {
    match r {
        Ok(p) => Ok(p@),
        Err(e) => Err(e),
    }
}

/// The fixed seed tag from which the vault's signing authority is derived.
pub open spec fn spec_vault_seed() -> Seq<u8> {
    seq![118u8, 97u8, 117u8, 108u8, 116u8]
}

/// The seed tag as bytes (ASCII "vault").
pub fn vault_seed() -> (r: Vec<u8>)
    ensures
        r@ == spec_vault_seed(),
{
    let mut v: Vec<u8> = Vec::new();
    v.push(118);
    v.push(97);
    v.push(117);
    v.push(108);
    v.push(116);
    proof {
        assert(v@ =~= spec_vault_seed());
    }
    v
}

/// The program-derived signing authority for a seed tag and program
/// identity, with its bump seed; `None` in the statistically improbable
/// event that no bump seed yields an address.
pub uninterp spec fn vault_authority_of(seed: Seq<u8>, program_id: Seq<u8>) -> Option<
    (Seq<u8>, u8),
>;

/// Relies on solana_program's `Pubkey::try_find_program_address`: off
/// chain it hashes the seeds and program id with SHA-256 over descending
/// bump seeds until the result leaves the Ed25519 curve, so the outcome
/// is a pure function of the seed tag and the program identity, and any
/// verifier re-derives the same identity from the same inputs.
#[verifier::external_body]
fn find_vault_authority(seed: &Vec<u8>, program_id: &Identity) -> (r: Option<(Identity, u8)>)
    requires
        program_id.wf(),
    ensures
        match r {
            Some(p) => p.0.wf() && vault_authority_of(seed@, program_id@) == Some((p.0@, p.1)),
            None => vault_authority_of(seed@, program_id@) is None,
        },
{
    let key = solana_program::pubkey::Pubkey::new_from_array(
        program_id.as_bytes().as_slice().try_into().unwrap(),
    );
    solana_program::pubkey::Pubkey::try_find_program_address(&[seed.as_slice()], &key).map(
        |(address, bump)| {
            (Identity::from_bytes(address.to_bytes().to_vec()).unwrap(), bump)
        },
    )
}

/// Fails with `Unauthorized` unless the caller supplied a valid signature.
pub fn require_signer(is_signer: bool) -> (r: Result<(), DepositError>)
    ensures
        r is Ok <==> is_signer,
        r is Err ==> r == Err::<(), DepositError>(DepositError::Unauthorized),
{
    if is_signer {
        Ok(())
    } else {
        Err(DepositError::Unauthorized)
    }
}

/// Fails with `IllegalOwner` unless the vault's storage account is owned
/// by this program.
pub fn require_owned_by_program(owner: &Identity, program_id: &Identity) -> (r: Result<
    (),
    DepositError,
>)
    ensures
        r is Ok <==> owner@ == program_id@,
        r is Err ==> r == Err::<(), DepositError>(DepositError::IllegalOwner),
{
    if owner.eq_bytes(program_id) {
        Ok(())
    } else {
        Err(DepositError::IllegalOwner)
    }
}

/// The refund fee: two percent of the requested amount, truncated.
pub open spec fn spec_refund_fee(amount: u64) -> int {
    amount * 2 / 100
}

/// Computes the refund fee, `floor(amount * 2 / 100)`.
pub fn compute_refund_fee(amount: u64) -> (fee: u64)
    ensures
        fee == spec_refund_fee(amount),
        fee <= amount,
{
    proof {
        assert(amount as int * 2 / 100 <= amount as int) by (nonlinear_arith);
    }
    ((amount as u128) * 2 / 100) as u64
}

/// Whether `d` can serve a refund of `amount` to `who`: same depositor,
/// and a remaining amount that covers the request.
pub open spec fn entry_matches(d: DepositView, who: Seq<u8>, amount: u64) -> bool {
    d.depositor == who && d.amount >= amount
}

/// The index of the first entry that can serve a refund of `amount` to
/// `who`, in insertion order; ties are broken purely by that order.
pub open spec fn spec_first_match(s: Seq<DepositView>, who: Seq<u8>, amount: u64) -> Option<int>
    decreases s.len(),
{
    if s.len() == 0 {
        None
    } else if entry_matches(s[0], who, amount) {
        Some(0)
    } else {
        match spec_first_match(s.skip(1), who, amount) {
            Some(i) => Some(i + 1),
            None => None,
        }
    }
}

/// The first-match policy: the selected entry matches, every entry before
/// it does not, and nothing is selected only when nothing matches.
pub proof fn lemma_first_match_is_first(s: Seq<DepositView>, who: Seq<u8>, amount: u64)
    ensures
        match spec_first_match(s, who, amount) {
            Some(i) => {
                &&& 0 <= i < s.len()
                &&& entry_matches(s[i], who, amount)
                &&& forall|j: int| 0 <= j < i ==> !entry_matches(#[trigger] s[j], who, amount)
            },
            None => forall|j: int| 0 <= j < s.len() ==> !entry_matches(#[trigger] s[j], who, amount),
        },
    decreases s.len(),
{
    if s.len() == 0 {
    } else if entry_matches(s[0], who, amount) {
    } else {
        lemma_first_match_is_first(s.skip(1), who, amount);
        assert(forall|j: int| 1 <= j < s.len() ==> s[j] == s.skip(1)[j - 1]);
    }
}

/// Finds the first entry of `ds` that can serve a refund of `amount` to
/// `who`, scanning in insertion order.
fn find_first_match(ds: &Vec<Deposit>, who: &Identity, amount: u64) -> (r: Option<usize>)
    ensures
        match r {
            Some(i) => spec_first_match(deposit_views(ds@), who@, amount) == Some(i as int),
            None => spec_first_match(deposit_views(ds@), who@, amount) is None,
        },
{
    let views = Ghost(deposit_views(ds@));
    let n = ds.len();
    proof {
        assert(views@.skip(0) =~= views@);
    }
    for i in 0..n
        invariant
            n == ds@.len(),
            views@ == deposit_views(ds@),
            views@.len() == n,
            spec_first_match(views@, who@, amount) == match spec_first_match(
                views@.skip(i as int),
                who@,
                amount,
            ) {
                Some(k) => Some(k + i),
                None => None::<int>,
            },
            forall|j: int| 0 <= j < i ==> !entry_matches(#[trigger] views@[j], who@, amount),
    {
        let d: &Deposit = &ds[i];
        let is_match = d.depositor.eq_bytes(who) && d.amount >= amount;
        proof {
            assert(views@.skip(i as int)[0] == views@[i as int]);
            assert(views@[i as int] == ds@[i as int]@);
            assert(views@.skip(i as int).skip(1) =~= views@.skip(i as int + 1));
        }
        if is_match {
            assert(entry_matches(views@[i as int], who@, amount));
            assert(spec_first_match(views@.skip(i as int), who@, amount) == Some(0int));
            return Some(i);
        }
        assert(!entry_matches(views@[i as int], who@, amount));
    }
    proof {
        assert(views@.skip(n as int) =~= Seq::<DepositView>::empty());
    }
    None
}

/// The record Initialize creates: the creator, a zero total, no entries.
pub open spec fn spec_empty_state(creator: Seq<u8>) -> VaultStateView {
    VaultStateView { listing_creator: creator, total_deposits: 0, deposits: Seq::empty() }
}

/// The record after a deposit: the new entry appended, the total raised.
pub open spec fn spec_deposit_next(s: VaultStateView, who: Seq<u8>, amount: u64) -> VaultStateView {
    VaultStateView {
        listing_creator: s.listing_creator,
        total_deposits: (s.total_deposits + amount) as u64,
        deposits: s.deposits.push(DepositView { depositor: who, amount }),
    }
}

/// The record after a refund against entry `i`: that entry and the total
/// are both lowered by the full requested amount.
pub open spec fn spec_refund_next(s: VaultStateView, i: int, amount: u64) -> VaultStateView {
    VaultStateView {
        listing_creator: s.listing_creator,
        total_deposits: (s.total_deposits - amount) as u64,
        deposits: s.deposits.update(
            i,
            DepositView {
                depositor: s.deposits[i].depositor,
                amount: (s.deposits[i].amount - amount) as u64,
            },
        ),
    }
}

/// The record Initialize creates satisfies the invariant.
pub proof fn lemma_initialize_establishes_invariant(creator: Seq<u8>)
    requires
        creator.len() == IDENTITY_LEN,
    ensures
        state_wf(spec_empty_state(creator)),
{
}

/// A deposit preserves the record's invariant.
pub proof fn lemma_deposit_preserves_invariant(s: VaultStateView, who: Seq<u8>, amount: u64)
    requires
        state_wf(s),
        who.len() == IDENTITY_LEN,
        s.total_deposits + amount <= u64::MAX,
        s.deposits.len() < u32::MAX,
    ensures
        state_wf(spec_deposit_next(s, who, amount)),
{
    lemma_sum_push(s.deposits, DepositView { depositor: who, amount });
}

/// A refund against a covering entry preserves the record's invariant,
/// and the total always covers the requested amount.
pub proof fn lemma_refund_preserves_invariant(s: VaultStateView, i: int, amount: u64)
    requires
        state_wf(s),
        0 <= i < s.deposits.len(),
        s.deposits[i].amount >= amount,
    ensures
        s.total_deposits >= amount,
        state_wf(spec_refund_next(s, i, amount)),
{
    lemma_sum_bounds_entry(s.deposits, i);
    lemma_sum_update(
        s.deposits,
        i,
        DepositView {
            depositor: s.deposits[i].depositor,
            amount: (s.deposits[i].amount - amount) as u64,
        },
    );
}

/// The outcome of Initialize: a plan that persists the empty record for
/// the creator, with no transfer, or `Unauthorized` without a signature.
pub open spec fn spec_initialize_plan(c: OpContextView) -> Result<PlanView, DepositError> {
    if !c.caller_is_signer {
        Err(DepositError::Unauthorized)
    } else {
        Ok(
            PlanView {
                transfer: None,
                new_data: spec_serialize_state(spec_empty_state(c.caller)),
            },
        )
    }
}

/// The outcome of Deposit: the caller must have signed, the vault must be
/// owned by the program, the amount must be nonzero, the stored record
/// must parse, have room for one more entry, and a total that can absorb
/// the amount; the plan then moves the amount from the caller to the
/// vault under the caller's signature and persists the grown record.
pub open spec fn spec_deposit_plan(c: OpContextView, amount: u64) -> Result<
    PlanView,
    DepositError,
> {
    if !c.caller_is_signer {
        Err(DepositError::Unauthorized)
    } else if c.vault_owner != c.program_id {
        Err(DepositError::IllegalOwner)
    } else if amount == 0 {
        Err(DepositError::InvalidAmount)
    } else {
        match spec_parse_state(c.vault_data) {
            None => Err(DepositError::CorruptState),
            Some(s) => {
                if s.deposits.len() >= u32::MAX {
                    Err(DepositError::StorageExhausted)
                } else if s.total_deposits + amount > u64::MAX {
                    Err(DepositError::InvalidAmount)
                } else {
                    Ok(
                        PlanView {
                            transfer: Some(
                                TransferView {
                                    from: c.caller,
                                    to: c.vault,
                                    amount,
                                    authorization: AuthorizationView::CallerSignature,
                                },
                            ),
                            new_data: spec_serialize_state(spec_deposit_next(s, c.caller, amount)),
                        },
                    )
                }
            },
        }
    }
}

/// The outcome of Refund: the caller must have signed, the stored record
/// must parse, some entry of the caller's must cover the amount (the
/// first such entry, in insertion order, is selected), the total must
/// cover it too, and the vault's authority must be derivable; the plan
/// then moves the amount minus the fee from the vault to the caller under
/// the derived authority, and persists the record with the selected entry
/// and the total both lowered by the full amount — the fee stays in the
/// vault's balance without a ledger field of its own.
pub open spec fn spec_refund_plan(c: OpContextView, amount: u64) -> Result<
    PlanView,
    DepositError,
> {
    if !c.caller_is_signer {
        Err(DepositError::Unauthorized)
    } else {
        match spec_parse_state(c.vault_data) {
            None => Err(DepositError::CorruptState),
            Some(s) => {
                match spec_first_match(s.deposits, c.caller, amount) {
                    None => Err(DepositError::NoMatchingDeposit),
                    Some(i) => {
                        if s.total_deposits < amount {
                            Err(DepositError::CorruptState)
                        } else {
                            match vault_authority_of(spec_vault_seed(), c.program_id) {
                                None => Err(DepositError::Unauthorized),
                                Some(auth) => Ok(
                                    PlanView {
                                        transfer: Some(
                                            TransferView {
                                                from: c.vault,
                                                to: c.caller,
                                                amount: (amount - spec_refund_fee(amount)) as u64,
                                                authorization: AuthorizationView::DerivedAuthority {
                                                    authority: auth.0,
                                                    bump: auth.1,
                                                },
                                            },
                                        ),
                                        new_data: spec_serialize_state(
                                            spec_refund_next(s, i, amount),
                                        ),
                                    },
                                ),
                            }
                        }
                    },
                }
            },
        }
    }
}

/// The outcome of a raw command: decoded, then routed to its operation.
pub open spec fn spec_process_plan(c: OpContextView, data: Seq<u8>) -> Result<
    PlanView,
    DepositError,
> {
    match spec_parse_instruction(data) {
        None => Err(DepositError::InvalidInstruction),
        Some(DepositInstruction::InitializeVault) => spec_initialize_plan(c),
        Some(DepositInstruction::Deposit { amount }) => spec_deposit_plan(c, amount),
        Some(DepositInstruction::Refund { amount }) => spec_refund_plan(c, amount),
    }
}

/// Initialize: builds the creator's empty record and plans its persistence.
pub fn process_initialize_vault(ctx: &OpContext) -> (r: Result<OperationPlan, DepositError>)
    requires
        ctx.wf(),
    ensures
        plan_result_view(r) == spec_initialize_plan(ctx@),
{
    match require_signer(ctx.caller_is_signer) {
        Ok(_) => (),
        Err(e) => {
            return Err(e);
        },
    }
    let state = VaultState {
        listing_creator: ctx.caller.duplicate(),
        total_deposits: 0,
        deposits: Vec::new(),
    };
    proof {
        assert(state@ =~~= spec_empty_state(ctx.caller@));
    }
    let new_data = serialize_vault_state(&state);
    let plan = OperationPlan { transfer: None, new_data };
    proof {
        assert(plan@ =~~= spec_initialize_plan(ctx@).unwrap());
    }
    Ok(plan)
}

/// Deposit: checks the caller's signature and the vault's owner, loads
/// the record, and plans the signed transfer into the vault together with
/// the record grown by the new entry.
pub fn process_deposit(ctx: &OpContext, amount: u64) -> (r: Result<OperationPlan, DepositError>)
    requires
        ctx.wf(),
    ensures
        plan_result_view(r) == spec_deposit_plan(ctx@, amount),
{
    match require_signer(ctx.caller_is_signer) {
        Ok(_) => (),
        Err(e) => {
            return Err(e);
        },
    }
    match require_owned_by_program(&ctx.vault_owner, &ctx.program_id) {
        Ok(_) => (),
        Err(e) => {
            return Err(e);
        },
    }
    if amount == 0 {
        return Err(DepositError::InvalidAmount);
    }
    let mut state = match deserialize_vault_state(&ctx.vault_data) {
        Ok(s) => s,
        Err(e) => {
            return Err(e);
        },
    };
    let ghost s = spec_parse_state(ctx.vault_data@).unwrap();
    if state.deposits.len() >= u32::MAX as usize {
        return Err(DepositError::StorageExhausted);
    }
    if amount > u64::MAX - state.total_deposits {
        return Err(DepositError::InvalidAmount);
    }
    state.deposits.push(Deposit { depositor: ctx.caller.duplicate(), amount });
    state.total_deposits = state.total_deposits + amount;
    proof {
        assert(state@.deposits =~= s.deposits.push(DepositView { depositor: ctx.caller@, amount }));
        assert(state@ =~~= spec_deposit_next(s, ctx.caller@, amount));
    }
    let new_data = serialize_vault_state(&state);
    let plan = OperationPlan {
        transfer: Some(
            TransferRequest {
                from: ctx.caller.duplicate(),
                to: ctx.vault.duplicate(),
                amount,
                authorization: TransferAuthorization::CallerSignature,
            },
        ),
        new_data,
    };
    proof {
        assert(plan@ =~~= spec_deposit_plan(ctx@, amount).unwrap());
    }
    Ok(plan)
}

/// Refund: checks the caller's signature, loads the record, selects the
/// first entry of the caller's that covers the amount, derives the
/// vault's authority, and plans the authority-signed transfer of the
/// amount minus the fee together with the lowered record.
pub fn process_refund(ctx: &OpContext, amount: u64) -> (r: Result<OperationPlan, DepositError>)
    requires
        ctx.wf(),
    ensures
        plan_result_view(r) == spec_refund_plan(ctx@, amount),
{
    match require_signer(ctx.caller_is_signer) {
        Ok(_) => (),
        Err(e) => {
            return Err(e);
        },
    }
    let mut state = match deserialize_vault_state(&ctx.vault_data) {
        Ok(s) => s,
        Err(e) => {
            return Err(e);
        },
    };
    let ghost s = spec_parse_state(ctx.vault_data@).unwrap();
    let idx = match find_first_match(&state.deposits, &ctx.caller, amount) {
        Some(i) => i,
        None => {
            return Err(DepositError::NoMatchingDeposit);
        },
    };
    proof {
        lemma_first_match_is_first(s.deposits, ctx.caller@, amount);
    }
    let fee = compute_refund_fee(amount);
    let refund_amount = amount - fee;
    if state.total_deposits < amount {
        return Err(DepositError::CorruptState);
    }
    let (authority, bump) = match find_vault_authority(&vault_seed(), &ctx.program_id) {
        Some(p) => p,
        None => {
            return Err(DepositError::Unauthorized);
        },
    };
    let entry: &mut Deposit = &mut state.deposits[idx];
    let remaining = entry.amount;
    entry.amount = remaining - amount;
    state.total_deposits = state.total_deposits - amount;
    proof {
        assert(state@.deposits =~= s.deposits.update(
            idx as int,
            DepositView {
                depositor: s.deposits[idx as int].depositor,
                amount: (s.deposits[idx as int].amount - amount) as u64,
            },
        ));
        assert(state@ =~~= spec_refund_next(s, idx as int, amount));
    }
    let new_data = serialize_vault_state(&state);
    let plan = OperationPlan {
        transfer: Some(
            TransferRequest {
                from: ctx.vault.duplicate(),
                to: ctx.caller.duplicate(),
                amount: refund_amount,
                authorization: TransferAuthorization::DerivedAuthority { authority, bump },
            },
        ),
        new_data,
    };
    proof {
        assert(plan@ =~~= spec_refund_plan(ctx@, amount).unwrap());
    }
    Ok(plan)
}

/// Decodes a raw command and routes it to its operation.
pub fn process_instruction(ctx: &OpContext, instruction_data: &Vec<u8>) -> (r: Result<
    OperationPlan,
    DepositError,
>)
    requires
        ctx.wf(),
    ensures
        plan_result_view(r) == spec_process_plan(ctx@, instruction_data@),
{
    let instruction = match parse_instruction(instruction_data) {
        Ok(ins) => ins,
        Err(e) => {
            return Err(e);
        },
    };
    match instruction {
        DepositInstruction::InitializeVault => process_initialize_vault(ctx),
        DepositInstruction::Deposit { amount } => process_deposit(ctx, amount),
        DepositInstruction::Refund { amount } => process_refund(ctx, amount),
    }
}

/// Applies a plan to the stored bytes once the host reports the
/// transfer's outcome.  A failed transfer changes nothing and surfaces
/// the host's error; a successful one overwrites the record entirely.
pub fn commit_operation(
    stored: &mut Vec<u8>,
    plan: &OperationPlan,
    transfer_result: Result<(), DepositError>,
) -> (r: Result<(), DepositError>)
    ensures
        transfer_result matches Err(e) ==> final(stored)@ == old(stored)@ && r == Err::<
            (),
            DepositError,
        >(e),
        transfer_result is Ok ==> final(stored)@ == plan.new_data@ && r == Ok::<
            (),
            DepositError,
        >(()),
{
    match transfer_result {
        Ok(_) => {
            *stored = vstd::slice::slice_to_vec(plan.new_data.as_slice());
            Ok(())
        },
        Err(e) => Err(e),
    }
}

} // verus!

