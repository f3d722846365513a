use vstd::prelude::*;

use crate::codec::encode_spec;
use crate::crypto::{program_address, try_find_program_address};
use crate::key::{system_program_id, system_program_key, AccountRef, Pubkey};
use crate::meta::{IAccountMeta, InterfaceError, MetaView, PreflightAccounts};

verus! {

/// The seed of the control authority: the ASCII bytes of `static`.
pub open spec fn static_prefix() -> Seq<u8> {
    seq![115u8, 116u8, 97u8, 116u8, 105u8, 99u8]
}

/// The seed that follows the asset's key in its lock record's derivation:
/// the ASCII bytes of `token_record`.
pub open spec fn token_record_prefix() -> Seq<u8> {
    seq![116u8, 111u8, 107u8, 101u8, 110u8, 95u8, 114u8, 101u8, 99u8, 111u8, 114u8, 100u8]
}

pub open spec fn control_seeds() -> Seq<Seq<u8>> {
    seq![static_prefix()]
}

pub open spec fn record_seeds(token: Seq<u8>) -> Seq<Seq<u8>> {
    seq![token, token_record_prefix()]
}

/// The asset account as the lock rules read it.
#[derive(Clone, Copy, Debug)]
pub struct TokenAccountState {
    pub key: Pubkey,
    pub mint: Pubkey,
    pub owner: Pubkey,
    pub delegate: Option<Pubkey>,
}

/// The asset's class as the lock rules read it.
#[derive(Clone, Copy, Debug)]
pub struct MintState {
    pub key: Pubkey,
    pub freeze_authority: Option<Pubkey>,
}

/// The persistent lock state of one asset.
#[derive(Clone, Copy, Debug)]
pub struct TokenRecord {
    pub locked: u8,
}

/// The accounts that `lock` is given.
#[derive(Clone, Copy, Debug)]
pub struct Lock {
    pub program_id: Pubkey,
    pub token: TokenAccountState,
    pub mint: MintState,
    pub delegate: AccountRef,
    pub payer: AccountRef,
    pub token_program: Pubkey,
    pub program_control: Pubkey,
    pub token_record: Pubkey,
}

/// The accounts that `unlock` is given.
#[derive(Clone, Copy, Debug)]
pub struct Unlock {
    pub program_id: Pubkey,
    pub token: TokenAccountState,
    pub mint: MintState,
    pub delegate: AccountRef,
    pub token_program: Pubkey,
    pub program_control: Pubkey,
    pub token_record: Pubkey,
}

#[derive(Clone, Copy, Debug)]
pub enum AssetEffect {
    Freeze,
    Thaw,
}

/// The signed sub-invocation that lock or unlock asks of the asset program:
/// the effect on `account` of class `mint`, by `authority`, which signs with
/// the control seed and `bump`.
#[derive(Clone, Copy, Debug)]
pub struct AssetCommand {
    pub effect: AssetEffect,
    pub program: Pubkey,
    pub account: Pubkey,
    pub mint: Pubkey,
    pub authority: Pubkey,
    pub bump: u8,
}

/// The one who acts signed and is the asset's owner or its delegate.
pub open spec fn holder_authorized(token: TokenAccountState, who: AccountRef) -> bool {
    &&& who.is_signer
    &&& (token.owner@ == who.key@ || (token.delegate matches Some(d) && d@ == who.key@))
}

/// `program_control` is the control authority derived under `program_id`,
/// and the asset class names it as its freeze authority.
pub open spec fn control_valid(program_id: Pubkey, mint: MintState, program_control: Pubkey) -> bool {
    &&& program_address(control_seeds(), program_id@) matches Some((k, _)) && k == program_control@
    &&& mint.freeze_authority matches Some(f) && f@ == program_control@
}

/// `record` is the lock record's address derived for `token`.
pub open spec fn record_valid(program_id: Pubkey, token: Pubkey, record: Pubkey) -> bool {
    program_address(record_seeds(token@), program_id@) matches Some((k, _)) && k == record@
}

pub open spec fn control_bump(program_id: Pubkey) -> u8 {
    match program_address(control_seeds(), program_id@) {
        Some((_, b)) => b,
        None => 0,
    }
}

pub open spec fn lock_authorized(ctx: Lock) -> bool {
    &&& holder_authorized(ctx.token, ctx.delegate)
    &&& ctx.payer.is_signer
    &&& control_valid(ctx.program_id, ctx.mint, ctx.program_control)
    &&& record_valid(ctx.program_id, ctx.token.key, ctx.token_record)
}

pub open spec fn unlock_authorized(ctx: Unlock) -> bool {
    &&& holder_authorized(ctx.token, ctx.delegate)
    &&& control_valid(ctx.program_id, ctx.mint, ctx.program_control)
    &&& record_valid(ctx.program_id, ctx.token.key, ctx.token_record)
}

pub open spec fn command(
    effect: AssetEffect,
    program_id: Pubkey,
    token_program: Pubkey,
    token: Pubkey,
    mint: Pubkey,
    program_control: Pubkey,
) -> AssetCommand {
    AssetCommand {
        effect,
        program: token_program,
        account: token,
        mint,
        authority: program_control,
        bump: control_bump(program_id),
    }
}

/// What `lock` returns and leaves in the record: refused and unchanged unless
/// authorized; otherwise the record, created if absent, is locked and a
/// freeze is asked for.
pub open spec fn lock_outcome(ctx: Lock, record: Option<TokenRecord>) -> (
    Result<AssetCommand, InterfaceError>,
    Option<TokenRecord>,
) {
    if !lock_authorized(ctx) {
        (Err(InterfaceError::Unauthorized), record)
    } else {
        (
            Ok(
                command(
                    AssetEffect::Freeze,
                    ctx.program_id,
                    ctx.token_program,
                    ctx.token.key,
                    ctx.mint.key,
                    ctx.program_control,
                ),
            ),
            Some(TokenRecord { locked: 1 }),
        )
    }
}

/// What `unlock` returns and leaves in the record: refused and unchanged
/// unless authorized and the record exists; otherwise the record is
/// unlocked and a thaw is asked for.
pub open spec fn unlock_outcome(ctx: Unlock, record: Option<TokenRecord>) -> (
    Result<AssetCommand, InterfaceError>,
    Option<TokenRecord>,
) {
    if !unlock_authorized(ctx) {
        (Err(InterfaceError::Unauthorized), record)
    } else if record is None {
        (Err(InterfaceError::MissingLockRecord), record)
    } else {
        (
            Ok(
                command(
                    AssetEffect::Thaw,
                    ctx.program_id,
                    ctx.token_program,
                    ctx.token.key,
                    ctx.mint.key,
                    ctx.program_control,
                ),
            ),
            Some(TokenRecord { locked: 0 }),
        )
    }
}

/// The extra requests of lock and unlock: the control authority, the
/// asset's lock record (writable), and the system program, in this order;
/// `None` when a derivation fails.
pub open spec fn preflight_spec(program_id: Pubkey, token: Pubkey) -> Option<Seq<MetaView>> {
    match (
        program_address(control_seeds(), program_id@),
        program_address(record_seeds(token@), program_id@),
    ) {
        (Some((control, _)), Some((record, _))) => Some(
            seq![(control, false, false), (record, false, true), (system_program_key(), false, false)],
        ),
        _ => None,
    }
}

/// The seed with which the control authority signs, before its bump.
pub fn control_seed() -> (r: Vec<u8>)
    ensures
        r@ == static_prefix(),
{
    let seed: Vec<u8> = vec![115u8, 116u8, 97u8, 116u8, 105u8, 99u8];
    assert(seed@ =~= static_prefix());
    seed
}

fn static_seed_bytes() -> (r: Vec<Vec<u8>>)
    ensures
        r@.map_values(|s: Vec<u8>| s@) == control_seeds(),
{
    let r = vec![control_seed()];
    assert(r@.map_values(|s: Vec<u8>| s@) =~= control_seeds());
    r
}

fn record_seed_bytes(token: &Pubkey) -> (r: Vec<Vec<u8>>)
    ensures
        r@.map_values(|s: Vec<u8>| s@) == record_seeds(token@),
{
    let seed: Vec<u8> = vec![
        116u8,
        111u8,
        107u8,
        101u8,
        110u8,
        95u8,
        114u8,
        101u8,
        99u8,
        111u8,
        114u8,
        100u8,
    ];
    assert(seed@ =~= token_record_prefix());
    let r = vec![token.to_vec(), seed];
    assert(r@.map_values(|s: Vec<u8>| s@) =~= record_seeds(token@));
    r
}

fn preflight_accounts(program_id: &Pubkey, token: &Pubkey) -> (r: Result<
    PreflightAccounts,
    InterfaceError,
>)
    ensures
        match preflight_spec(*program_id, *token) {
            Some(s) => r matches Ok(p) && p@ == s,
            None => r == Err::<PreflightAccounts, InterfaceError>(
                InterfaceError::DerivationFailed,
            ),
        },
{
    let control = match try_find_program_address(&static_seed_bytes(), program_id) {
        Some((k, _)) => k,
        None => return Err(InterfaceError::DerivationFailed),
    };
    let record = match try_find_program_address(&record_seed_bytes(token), program_id) {
        Some((k, _)) => k,
        None => return Err(InterfaceError::DerivationFailed),
    };
    let accounts = vec![
        IAccountMeta { pubkey: control, signer: false, writable: false },
        IAccountMeta { pubkey: record, signer: false, writable: true },
        IAccountMeta { pubkey: system_program_id(), signer: false, writable: false },
    ];
    let p = PreflightAccounts { accounts };
    assert(p@ =~= preflight_spec(*program_id, *token).unwrap());
    Ok(p)
}

/// The probe of lock: the encoded extra requests for `token`, whoever asks.
pub fn preflight_lock(program_id: &Pubkey, token: &Pubkey) -> (r: Result<Vec<u8>, InterfaceError>)
    ensures
        match preflight_spec(*program_id, *token) {
            Some(s) => r matches Ok(b) && b@ == encode_spec(s),
            None => r == Err::<Vec<u8>, InterfaceError>(InterfaceError::DerivationFailed),
        },
{
    let p = preflight_accounts(program_id, token)?;
    Ok(p.encode())
}

/// The probe of unlock: the same extra requests as for lock.
pub fn preflight_unlock(program_id: &Pubkey, token: &Pubkey) -> (r: Result<Vec<u8>, InterfaceError>)
    ensures
        match preflight_spec(*program_id, *token) {
            Some(s) => r matches Ok(b) && b@ == encode_spec(s),
            None => r == Err::<Vec<u8>, InterfaceError>(InterfaceError::DerivationFailed),
        },
{
    let p = preflight_accounts(program_id, token)?;
    Ok(p.encode())
}

fn holder_ok(token: &TokenAccountState, who: &AccountRef) -> (r: bool)
    ensures
        r == holder_authorized(*token, *who),
{
    if !who.is_signer {
        return false;
    }
    if token.owner.same_key(&who.key) {
        return true;
    }
    match &token.delegate {
        Some(d) => d.same_key(&who.key),
        None => false,
    }
}

/// Checks the control authority and returns its bump.
fn check_control(program_id: &Pubkey, mint: &MintState, program_control: &Pubkey) -> (r: Option<
    u8,
>)
    ensures
        match r {
            Some(b) => control_valid(*program_id, *mint, *program_control) && b == control_bump(
                *program_id,
            ),
            None => !control_valid(*program_id, *mint, *program_control),
        },
{
    let bump = match try_find_program_address(&static_seed_bytes(), program_id) {
        Some((k, b)) => {
            if !k.same_key(program_control) {
                return None;
            }
            b
        },
        None => return None,
    };
    match &mint.freeze_authority {
        Some(f) => {
            if f.same_key(program_control) {
                Some(bump)
            } else {
                None
            }
        },
        None => None,
    }
}

fn check_record(program_id: &Pubkey, token: &Pubkey, record: &Pubkey) -> (r: bool)
    ensures
        r == record_valid(*program_id, *token, *record),
{
    match try_find_program_address(&record_seed_bytes(token), program_id) {
        Some((k, _)) => k.same_key(record),
        None => false,
    }
}

/// Locks the asset: with the holder's signature and the right control
/// authority and record address, sets the record (creating it if absent) to
/// locked and asks for a freeze; otherwise `Unauthorized`, record unchanged.
pub fn lock(ctx: &Lock, token_record: &mut Option<TokenRecord>) -> (r: Result<
    AssetCommand,
    InterfaceError,
>)
    ensures
        (r, *final(token_record)) == lock_outcome(*ctx, *old(token_record)),
{
    if !holder_ok(&ctx.token, &ctx.delegate) || !ctx.payer.is_signer {
        return Err(InterfaceError::Unauthorized);
    }
    let bump = match check_control(&ctx.program_id, &ctx.mint, &ctx.program_control) {
        Some(b) => b,
        None => return Err(InterfaceError::Unauthorized),
    };
    if !check_record(&ctx.program_id, &ctx.token.key, &ctx.token_record) {
        return Err(InterfaceError::Unauthorized);
    }
    *token_record = Some(TokenRecord { locked: 1 });
    Ok(
        AssetCommand {
            effect: AssetEffect::Freeze,
            program: ctx.token_program,
            account: ctx.token.key,
            mint: ctx.mint.key,
            authority: ctx.program_control,
            bump,
        },
    )
}

/// Unlocks the asset: with the holder's signature, the right control
/// authority and record address, and an existing record, sets it to
/// unlocked and asks for a thaw; otherwise `Unauthorized` or
/// `MissingLockRecord`, record unchanged.
pub fn unlock(ctx: &Unlock, token_record: &mut Option<TokenRecord>) -> (r: Result<
    AssetCommand,
    InterfaceError,
>)
    ensures
        (r, *final(token_record)) == unlock_outcome(*ctx, *old(token_record)),
{
    if !holder_ok(&ctx.token, &ctx.delegate) {
        return Err(InterfaceError::Unauthorized);
    }
    let bump = match check_control(&ctx.program_id, &ctx.mint, &ctx.program_control) {
        Some(b) => b,
        None => return Err(InterfaceError::Unauthorized),
    };
    if !check_record(&ctx.program_id, &ctx.token.key, &ctx.token_record) {
        return Err(InterfaceError::Unauthorized);
    }
    if token_record.is_none() {
        return Err(InterfaceError::MissingLockRecord);
    }
    *token_record = Some(TokenRecord { locked: 0 });
    Ok(
        AssetCommand {
            effect: AssetEffect::Thaw,
            program: ctx.token_program,
            account: ctx.token.key,
            mint: ctx.mint.key,
            authority: ctx.program_control,
            bump,
        },
    )
}

/// Locking a locked asset succeeds and leaves it locked.
pub proof fn lemma_relock_keeps_locked(ctx: Lock)
    requires
        lock_authorized(ctx),
    ensures
        lock_outcome(ctx, Some(TokenRecord { locked: 1 })).0 is Ok,
        lock_outcome(ctx, Some(TokenRecord { locked: 1 })).1 == Some(TokenRecord { locked: 1 }),
{
}

/// After a lock, an authorized unlock succeeds and leaves the asset unlocked.
pub proof fn lemma_unlock_after_lock(lock_ctx: Lock, unlock_ctx: Unlock, record: Option<TokenRecord>)
    requires
        lock_authorized(lock_ctx),
        unlock_authorized(unlock_ctx),
    ensures
        lock_outcome(lock_ctx, record).1 == Some(TokenRecord { locked: 1 }),
        unlock_outcome(unlock_ctx, lock_outcome(lock_ctx, record).1).0 is Ok,
        unlock_outcome(unlock_ctx, lock_outcome(lock_ctx, record).1).1 == Some(
            TokenRecord { locked: 0 },
        ),
{
}

/// Whoever is neither the asset's owner nor its delegate is refused by both
/// lock and unlock, and the record stays as it was.
pub proof fn lemma_stranger_refused(lock_ctx: Lock, unlock_ctx: Unlock, record: Option<TokenRecord>)
    requires
        lock_ctx.token.owner@ != lock_ctx.delegate.key@,
        !(lock_ctx.token.delegate matches Some(d) && d@ == lock_ctx.delegate.key@),
        unlock_ctx.token.owner@ != unlock_ctx.delegate.key@,
        !(unlock_ctx.token.delegate matches Some(d) && d@ == unlock_ctx.delegate.key@),
    ensures
        lock_outcome(lock_ctx, record) == (
            Err::<AssetCommand, InterfaceError>(InterfaceError::Unauthorized),
            record,
        ),
        unlock_outcome(unlock_ctx, record) == (
            Err::<AssetCommand, InterfaceError>(InterfaceError::Unauthorized),
            record,
        ),
{
}

} // verus!
