use anchor_lang::solana_program::pubkey::Pubkey as HostPubkey;
use preflight_interface::key::{AccountRef, Pubkey};
use preflight_interface::meta::{InterfaceError, PreflightAccounts};
use preflight_interface::permission::{
    lock, preflight_lock, preflight_unlock, unlock, AssetEffect, Lock, MintState,
    TokenAccountState, TokenRecord, Unlock,
};

const PROGRAM: u8 = 77;

fn key(b: u8) -> Pubkey {
    Pubkey { bytes: [b; 32] }
}

fn signer(b: u8) -> AccountRef {
    AccountRef { key: key(b), owner: key(0), is_signer: true, is_writable: true }
}

fn control() -> (Pubkey, u8) {
    let (k, b) = HostPubkey::find_program_address(&[b"static"], &HostPubkey::new_from_array([PROGRAM; 32]));
    (Pubkey { bytes: k.to_bytes() }, b)
}

fn record_of(token: u8) -> Pubkey {
    let (k, _) = HostPubkey::find_program_address(
        &[&[token; 32], b"token_record"],
        &HostPubkey::new_from_array([PROGRAM; 32]),
    );
    Pubkey { bytes: k.to_bytes() }
}

const ASSET: u8 = 10;
const OWNER: u8 = 11;
const DELEGATE: u8 = 12;
const STRANGER: u8 = 13;

fn token() -> TokenAccountState {
    TokenAccountState { key: key(ASSET), mint: key(2), owner: key(OWNER), delegate: Some(key(DELEGATE)) }
}

fn mint() -> MintState {
    MintState { key: key(2), freeze_authority: Some(control().0) }
}

fn lock_ctx(who: AccountRef) -> Lock {
    Lock {
        program_id: key(PROGRAM),
        token: token(),
        mint: mint(),
        delegate: who,
        payer: signer(OWNER),
        token_program: key(5),
        program_control: control().0,
        token_record: record_of(ASSET),
    }
}

fn unlock_ctx(who: AccountRef) -> Unlock {
    Unlock {
        program_id: key(PROGRAM),
        token: token(),
        mint: mint(),
        delegate: who,
        token_program: key(5),
        program_control: control().0,
        token_record: record_of(ASSET),
    }
}

#[test]
fn owner_locks_delegate_unlocks_stranger_refused() {
    let mut record: Option<TokenRecord> = None;
    let cmd = lock(&lock_ctx(signer(OWNER)), &mut record).unwrap();
    assert_eq!(record.unwrap().locked, 1);
    assert!(matches!(cmd.effect, AssetEffect::Freeze));
    assert_eq!(cmd.account.bytes, [ASSET; 32]);
    assert_eq!(cmd.authority.bytes, control().0.bytes);
    assert_eq!(cmd.bump, control().1);

    let cmd = unlock(&unlock_ctx(signer(DELEGATE)), &mut record).unwrap();
    assert_eq!(record.unwrap().locked, 0);
    assert!(matches!(cmd.effect, AssetEffect::Thaw));

    let r = lock(&lock_ctx(signer(STRANGER)), &mut record);
    assert!(matches!(r, Err(InterfaceError::Unauthorized)));
    assert_eq!(record.unwrap().locked, 0);
}

#[test]
fn relock_keeps_locked_then_unlock_clears() {
    let mut record = Some(TokenRecord { locked: 1 });
    assert!(lock(&lock_ctx(signer(OWNER)), &mut record).is_ok());
    assert_eq!(record.unwrap().locked, 1);
    assert!(unlock(&unlock_ctx(signer(OWNER)), &mut record).is_ok());
    assert_eq!(record.unwrap().locked, 0);
}

#[test]
fn unsigned_holder_is_unauthorized() {
    let mut record: Option<TokenRecord> = None;
    let mut who = signer(OWNER);
    who.is_signer = false;
    assert!(matches!(lock(&lock_ctx(who), &mut record), Err(InterfaceError::Unauthorized)));
    assert!(record.is_none());
}

#[test]
fn wrong_control_authority_is_unauthorized() {
    let mut record: Option<TokenRecord> = None;
    let mut ctx = lock_ctx(signer(OWNER));
    ctx.mint.freeze_authority = Some(key(99));
    assert!(matches!(lock(&ctx, &mut record), Err(InterfaceError::Unauthorized)));
    let mut ctx = lock_ctx(signer(OWNER));
    ctx.program_control = key(99);
    ctx.mint.freeze_authority = Some(key(99));
    assert!(matches!(lock(&ctx, &mut record), Err(InterfaceError::Unauthorized)));
    assert!(record.is_none());
}

#[test]
fn wrong_record_address_is_unauthorized() {
    let mut record: Option<TokenRecord> = None;
    let mut ctx = lock_ctx(signer(OWNER));
    ctx.token_record = record_of(ASSET + 1);
    assert!(matches!(lock(&ctx, &mut record), Err(InterfaceError::Unauthorized)));
}

#[test]
fn unlock_without_record_fails() {
    let mut record: Option<TokenRecord> = None;
    let r = unlock(&unlock_ctx(signer(DELEGATE)), &mut record);
    assert!(matches!(r, Err(InterfaceError::MissingLockRecord)));
    assert!(record.is_none());
}

#[test]
fn stranger_unlock_leaves_locked_record() {
    let mut record = Some(TokenRecord { locked: 1 });
    let r = unlock(&unlock_ctx(signer(STRANGER)), &mut record);
    assert!(matches!(r, Err(InterfaceError::Unauthorized)));
    assert_eq!(record.unwrap().locked, 1);
}

#[test]
fn preflight_lists_control_record_and_system_program() {
    let bytes = preflight_lock(&key(PROGRAM), &key(ASSET)).unwrap();
    let p = PreflightAccounts::decode(&bytes).unwrap();
    assert_eq!(p.accounts.len(), 3);
    assert_eq!(p.accounts[0].pubkey.bytes, control().0.bytes);
    assert!(!p.accounts[0].writable && !p.accounts[0].signer);
    assert_eq!(p.accounts[1].pubkey.bytes, record_of(ASSET).bytes);
    assert!(p.accounts[1].writable && !p.accounts[1].signer);
    assert_eq!(p.accounts[2].pubkey.bytes, [0u8; 32]);
    assert!(!p.accounts[2].writable && !p.accounts[2].signer);
    assert_eq!(preflight_unlock(&key(PROGRAM), &key(ASSET)).unwrap(), bytes);
}

#[test]
fn preflight_record_depends_on_asset() {
    let a = preflight_lock(&key(PROGRAM), &key(ASSET)).unwrap();
    let b = preflight_lock(&key(PROGRAM), &key(ASSET + 1)).unwrap();
    assert_eq!(a[4..38], b[4..38]);
    assert_ne!(a[38..72], b[38..72]);
}
