use preflight_interface::key::{AccountRef, Pubkey};
use preflight_interface::meta::{IAccountMeta, InterfaceError, PreflightAccounts};

fn key(b: u8) -> Pubkey {
    Pubkey { bytes: [b; 32] }
}

fn account(b: u8, owner: u8, is_signer: bool, is_writable: bool) -> AccountRef {
    AccountRef { key: key(b), owner: key(owner), is_signer, is_writable }
}

fn request(keys: &[u8]) -> PreflightAccounts {
    PreflightAccounts {
        accounts: keys
            .iter()
            .map(|b| IAccountMeta { pubkey: key(*b), signer: false, writable: true })
            .collect(),
    }
}

#[test]
fn resolved_in_request_order_not_pool_order() {
    let pool = vec![account(3, 0, false, false), account(1, 0, false, false), account(2, 0, false, false)];
    let found = request(&[1, 2, 3]).match_accounts(&pool).unwrap();
    let keys: Vec<u8> = found.iter().map(|a| a.key.bytes[0]).collect();
    assert_eq!(keys, vec![1, 2, 3]);
}

#[test]
fn all_present_gives_one_account_per_request() {
    let pool = vec![account(1, 0, false, false), account(2, 0, false, false)];
    let found = request(&[2, 2, 1]).match_accounts(&pool).unwrap();
    assert_eq!(found.len(), 3);
}

#[test]
fn empty_request_resolves_to_nothing() {
    let found = request(&[]).match_accounts(&[]).unwrap();
    assert!(found.is_empty());
}

#[test]
fn first_missing_key_is_named() {
    let pool = vec![account(1, 0, false, false)];
    match request(&[1, 7, 8]).match_accounts(&pool) {
        Err(InterfaceError::ResourceNotFound(k)) => assert_eq!(k.bytes, [7u8; 32]),
        _ => panic!("expected ResourceNotFound"),
    }
}

#[test]
fn duplicate_keys_in_pool_last_one_wins() {
    let pool = vec![account(5, 1, true, false), account(5, 2, false, true)];
    let found = request(&[5]).match_accounts(&pool).unwrap();
    assert_eq!(found[0].owner.bytes, [2u8; 32]);
    assert!(!found[0].is_signer);
    assert!(found[0].is_writable);
}

#[test]
fn reordered_unique_pool_resolves_alike() {
    let p = vec![account(1, 4, true, false), account(2, 5, false, true), account(3, 6, false, false)];
    let q = vec![p[2], p[0], p[1]];
    let reqs = request(&[3, 1, 2]);
    let a = reqs.match_accounts(&p).unwrap();
    let b = reqs.match_accounts(&q).unwrap();
    let owners = |v: &Vec<AccountRef>| v.iter().map(|x| (x.key.bytes[0], x.owner.bytes[0], x.is_signer, x.is_writable)).collect::<Vec<_>>();
    assert_eq!(owners(&a), owners(&b));
    assert_eq!(owners(&a), vec![(3, 6, false, false), (1, 4, true, false), (2, 5, false, true)]);
}
