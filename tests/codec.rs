use anchor_lang::AnchorSerialize;
use preflight_interface::codec::{frame_bytes, unframe_bytes};
use preflight_interface::key::Pubkey;
use preflight_interface::meta::{IAccountMeta, InterfaceError, PreflightAccounts};

fn key(b: u8) -> Pubkey {
    Pubkey { bytes: [b; 32] }
}

fn meta(b: u8, signer: bool, writable: bool) -> IAccountMeta {
    IAccountMeta { pubkey: key(b), signer, writable }
}

fn same(a: &PreflightAccounts, b: &PreflightAccounts) -> bool {
    a.accounts.len() == b.accounts.len()
        && a.accounts.iter().zip(b.accounts.iter()).all(|(x, y)| {
            x.pubkey.bytes == y.pubkey.bytes && x.signer == y.signer && x.writable == y.writable
        })
}

#[test]
fn empty_list_encodes_to_zero_count() {
    let p = PreflightAccounts { accounts: vec![] };
    assert_eq!(p.encode(), vec![0u8, 0, 0, 0]);
}

#[test]
fn encoding_is_count_then_key_and_flags() {
    let p = PreflightAccounts { accounts: vec![meta(9, true, false), meta(4, false, true)] };
    let b = p.encode();
    assert_eq!(b.len(), 4 + 2 * 34);
    assert_eq!(&b[0..4], &[2u8, 0, 0, 0]);
    assert_eq!(&b[4..36], &[9u8; 32]);
    assert_eq!(b[36], 1);
    assert_eq!(b[37], 0);
    assert_eq!(&b[38..70], &[4u8; 32]);
    assert_eq!(b[70], 0);
    assert_eq!(b[71], 1);
}

#[test]
fn decode_of_encode_gives_the_list_back() {
    let p = PreflightAccounts {
        accounts: vec![meta(1, false, false), meta(2, true, true), meta(3, false, true)],
    };
    let back = PreflightAccounts::decode(&p.encode()).unwrap();
    assert!(same(&p, &back));
}

#[test]
fn decode_rejects_wrong_length() {
    let p = PreflightAccounts { accounts: vec![meta(1, false, false)] };
    let mut b = p.encode();
    b.push(0);
    assert!(matches!(PreflightAccounts::decode(&b), Err(InterfaceError::DecodeError)));
    b.truncate(b.len() - 2);
    assert!(matches!(PreflightAccounts::decode(&b), Err(InterfaceError::DecodeError)));
    assert!(matches!(PreflightAccounts::decode(&[1u8, 0]), Err(InterfaceError::DecodeError)));
}

#[test]
fn decode_rejects_flag_byte_above_one() {
    let p = PreflightAccounts { accounts: vec![meta(1, false, false)] };
    let mut b = p.encode();
    b[36] = 2;
    assert!(matches!(PreflightAccounts::decode(&b), Err(InterfaceError::DecodeError)));
}

#[test]
fn frame_matches_byte_vector_serialization() {
    let payload: Vec<u8> = vec![5, 6, 7];
    let framed = frame_bytes(&payload);
    assert_eq!(framed, payload.try_to_vec().unwrap());
    assert_eq!(unframe_bytes(&framed).unwrap(), payload);
}

#[test]
fn unframe_rejects_short_or_long_payload() {
    assert!(matches!(unframe_bytes(&[3u8, 0, 0, 0, 1, 2]), Err(InterfaceError::DecodeError)));
    assert!(matches!(unframe_bytes(&[1u8, 0, 0, 0, 1, 2]), Err(InterfaceError::DecodeError)));
    assert!(matches!(unframe_bytes(&[0u8, 0]), Err(InterfaceError::DecodeError)));
}
