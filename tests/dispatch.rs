use preflight_interface::codec::frame_bytes;
use preflight_interface::dispatch::{
    call, get_interface_accounts, opcode, CallAction, CallEvent, ReturnData, TILock,
    ToTargetProgram,
};
use preflight_interface::key::{AccountRef, Pubkey};
use preflight_interface::meta::{IAccountMeta, InterfaceError, PreflightAccounts};

fn key(b: u8) -> Pubkey {
    Pubkey { bytes: [b; 32] }
}

fn account(b: u8, is_signer: bool, is_writable: bool) -> AccountRef {
    AccountRef { key: key(b), owner: key(0), is_signer, is_writable }
}

fn schema() -> TILock {
    TILock {
        token: account(1, false, true),
        mint: account(2, false, false),
        delegate: account(3, true, false),
        payer: account(4, true, true),
        token_program: account(5, false, false),
        perm_program: account(6, false, false),
    }
}

fn extra() -> PreflightAccounts {
    PreflightAccounts {
        accounts: vec![
            IAccountMeta { pubkey: key(20), signer: false, writable: false },
            IAccountMeta { pubkey: key(21), signer: false, writable: true },
        ],
    }
}

fn answer(writer: u8, list: &PreflightAccounts) -> Option<ReturnData> {
    Some(ReturnData { program_id: key(writer), data: frame_bytes(&list.encode()) })
}

fn sighash(preimage: &str) -> Vec<u8> {
    anchor_lang::solana_program::hash::hash(preimage.as_bytes()).to_bytes()[..8].to_vec()
}

#[test]
fn opcode_is_hash_prefix_of_namespaced_name() {
    assert_eq!(opcode(b"lock", false), sighash("global:lock"));
    assert_eq!(opcode(b"lock", true), sighash("global:preflight_lock"));
    assert_ne!(opcode(b"lock", false), opcode(b"unlock", false));
}

#[test]
fn probe_marks_every_account_non_signing() {
    let ctx = schema();
    match call("lock", &ctx, vec![], false, &CallEvent::Start) {
        Ok(CallAction::Invoke(inv)) => {
            assert_eq!(inv.instruction.program_id.bytes, [6u8; 32]);
            assert_eq!(inv.instruction.data, sighash("global:preflight_lock"));
            assert_eq!(inv.instruction.accounts.len(), 6);
            assert!(inv.instruction.accounts.iter().all(|m| !m.signer));
            assert!(inv.instruction.accounts[0].writable);
            assert_eq!(inv.account_infos.len(), 6);
        }
        _ => panic!("expected a probe"),
    }
}

#[test]
fn execution_appends_resolved_accounts_after_schema() {
    let ctx = schema();
    let pool = vec![account(21, false, true), account(9, false, false), account(20, false, false)];
    let event = CallEvent::Returned(answer(6, &extra()));
    match call("lock", &ctx, pool, false, &event) {
        Ok(CallAction::Invoke(inv)) => {
            assert_eq!(inv.instruction.data, sighash("global:lock"));
            let keys: Vec<u8> = inv.instruction.accounts.iter().map(|m| m.pubkey.bytes[0]).collect();
            assert_eq!(keys, vec![1, 2, 3, 4, 5, 20, 21]);
            assert!(inv.instruction.accounts[2].signer);
            assert!(inv.instruction.accounts[6].writable);
            assert!(!inv.instruction.accounts[5].writable);
            let infos: Vec<u8> = inv.account_infos.iter().map(|a| a.key.bytes[0]).collect();
            assert_eq!(infos, vec![1, 2, 3, 4, 5, 20, 21]);
        }
        _ => panic!("expected the real invocation"),
    }
}

#[test]
fn dry_run_reports_instead_of_invoking() {
    let ctx = schema();
    let pool = vec![account(20, false, false), account(21, false, true)];
    let event = CallEvent::Returned(answer(6, &extra()));
    match call("lock", &ctx, pool, true, &event) {
        Ok(CallAction::DryRun(list)) => assert_eq!(list.len(), 7),
        _ => panic!("expected a dry run"),
    }
}

#[test]
fn missing_extra_account_fails_the_call() {
    let ctx = schema();
    let pool = vec![account(20, false, false)];
    let event = CallEvent::Returned(answer(6, &extra()));
    match call("lock", &ctx, pool, false, &event) {
        Err(InterfaceError::ResourceNotFound(k)) => assert_eq!(k.bytes, [21u8; 32]),
        _ => panic!("expected ResourceNotFound"),
    }
}

#[test]
fn answer_from_another_program_is_refused() {
    let r = get_interface_accounts(&key(6), &answer(7, &extra()));
    assert!(matches!(r, Err(InterfaceError::UnexpectedResponder)));
    let r = get_interface_accounts(&key(6), &None);
    assert!(matches!(r, Err(InterfaceError::UnexpectedResponder)));
}

#[test]
fn malformed_answer_is_a_decode_error() {
    let unframed = Some(ReturnData { program_id: key(6), data: extra().encode() });
    assert!(matches!(get_interface_accounts(&key(6), &unframed), Err(InterfaceError::DecodeError)));
    let junk = Some(ReturnData { program_id: key(6), data: frame_bytes(&[1u8, 2, 3]) });
    assert!(matches!(get_interface_accounts(&key(6), &junk), Err(InterfaceError::DecodeError)));
}

#[test]
fn answer_from_target_is_decoded() {
    let p = get_interface_accounts(&key(6), &answer(6, &extra())).unwrap();
    assert_eq!(p.accounts.len(), 2);
    assert_eq!(p.accounts[1].pubkey.bytes, [21u8; 32]);
    assert!(p.accounts[1].writable);
}

#[test]
fn target_context_drops_the_target_program() {
    let ctx = schema();
    assert_eq!(ctx.to_target_program().bytes, [6u8; 32]);
    let cpi = ctx.to_target_context(vec![account(30, false, false)]);
    assert_eq!(cpi.accounts.len(), 5);
    assert_eq!(cpi.remaining_accounts.len(), 1);
    assert_eq!(cpi.program.key.bytes, [6u8; 32]);
}
