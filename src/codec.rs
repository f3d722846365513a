use vstd::prelude::*;

use crate::key::Pubkey;
use crate::meta::{IAccountMeta, InterfaceError, MetaView, PreflightAccounts};

verus! {

/// The four little-endian bytes of `n`.
pub open spec fn u32_le(n: u32) -> Seq<u8> {
    seq![
        (n & 0xff) as u8,
        ((n >> 8u32) & 0xff) as u8,
        ((n >> 16u32) & 0xff) as u8,
        ((n >> 24u32) & 0xff) as u8,
    ]
}

/// The little-endian number held by the four bytes of `b` from `at` on.
pub open spec fn read_u32_le(b: Seq<u8>, at: int) -> u32 {
    (b[at] as u32) | ((b[at + 1] as u32) << 8u32) | ((b[at + 2] as u32) << 16u32) | ((
    b[at + 3] as u32) << 24u32)
}

pub open spec fn flag_byte(f: bool) -> u8 {
    if f {
        1u8
    } else {
        0u8
    }
}

/// One request on the wire: its key, then the signer and the writable flag.
pub open spec fn meta_bytes(m: MetaView) -> Seq<u8> {
    m.0 + seq![flag_byte(m.1), flag_byte(m.2)]
}

pub open spec fn metas_bytes(s: Seq<MetaView>) -> Seq<u8>
    decreases s.len(),
{
    if s.len() == 0 {
        Seq::empty()
    } else {
        metas_bytes(s.drop_last()) + meta_bytes(s.last())
    }
}

/// A resource list on the wire: the count as four little-endian bytes, then
/// each request in order, with no padding.
pub open spec fn encode_spec(s: Seq<MetaView>) -> Seq<u8> {
    u32_le(s.len() as u32) + metas_bytes(s)
}

/// The width of one encoded request.
pub open spec fn meta_width() -> int {
    34
}

/// Where the `i`-th request of an encoded list starts.
pub open spec fn meta_offset(i: int) -> int {
    4 + meta_width() * i
}

/// The `i`-th request of an encoded list.
pub open spec fn meta_at(b: Seq<u8>, i: int) -> MetaView {
    let off = meta_offset(i);
    (b.subrange(off, off + 32), b[off + 32] == 1, b[off + 33] == 1)
}

/// The flag bytes of the `i`-th request of an encoded list are 0 or 1.
pub open spec fn flags_valid_at(b: Seq<u8>, i: int) -> bool {
    let off = meta_offset(i);
    b[off + 32] <= 1 && b[off + 33] <= 1
}

/// What a byte string decodes to: `None` unless its length is exactly the
/// prefix plus 34 bytes for each request that the prefix counts, and every
/// flag byte is 0 or 1.
pub open spec fn decode_spec(b: Seq<u8>) -> Option<Seq<MetaView>> {
    if b.len() < 4 {
        None
    } else {
        let n = read_u32_le(b, 0) as int;
        if b.len() != 4 + meta_width() * n {
            None
        } else if !(forall|i: int| 0 <= i < n ==> #[trigger] flags_valid_at(b, i)) {
            None
        } else {
            Some(Seq::new(n as nat, |i: int| meta_at(b, i)))
        }
    }
}

/// A byte string framed as a length-prefixed byte sequence.
pub open spec fn frame_spec(p: Seq<u8>) -> Seq<u8> {
    u32_le(p.len() as u32) + p
}

/// The payload of a length-prefixed byte sequence that fills `b` exactly.
pub open spec fn unframe_spec(b: Seq<u8>) -> Option<Seq<u8>> {
    if b.len() >= 4 && b.len() == 4 + read_u32_le(b, 0) {
        Some(b.subrange(4, b.len() as int))
    } else {
        None
    }
}

pub open spec fn keys_well_sized(s: Seq<MetaView>) -> bool {
    forall|i: int| 0 <= i < s.len() ==> #[trigger] s[i].0.len() == 32
}

pub proof fn lemma_u32_le_round_trip(n: u32)
    ensures
        read_u32_le(u32_le(n), 0) == n,
        u32_le(n).len() == 4,
{
    let b = u32_le(n);
    assert(b[0] == (n & 0xff) as u8);
    assert(b[1] == ((n >> 8u32) & 0xff) as u8);
    assert(b[2] == ((n >> 16u32) & 0xff) as u8);
    assert(b[3] == ((n >> 24u32) & 0xff) as u8);
    let b0 = b[0];
    let b1 = b[1];
    let b2 = b[2];
    let b3 = b[3];
    assert((b0 as u32) | ((b1 as u32) << 8u32) | ((b2 as u32) << 16u32) | ((b3 as u32) << 24u32)
        == n) by (bit_vector)
        requires
            b0 == (n & 0xff) as u8,
            b1 == ((n >> 8u32) & 0xff) as u8,
            b2 == ((n >> 16u32) & 0xff) as u8,
            b3 == ((n >> 24u32) & 0xff) as u8,
    ;
}

proof fn lemma_read_prefix(a: Seq<u8>, rest: Seq<u8>)
    requires
        a.len() == 4,
    ensures
        read_u32_le(a + rest, 0) == read_u32_le(a, 0),
{
    assert((a + rest)[0] == a[0]);
    assert((a + rest)[1] == a[1]);
    assert((a + rest)[2] == a[2]);
    assert((a + rest)[3] == a[3]);
}

/// Every encoded request takes 34 bytes, and the `i`-th one sits at `34 * i`.
pub proof fn lemma_metas_bytes(s: Seq<MetaView>)
    requires
        keys_well_sized(s),
    ensures
        metas_bytes(s).len() == meta_width() * s.len(),
        forall|i: int|
            0 <= i < s.len() ==> metas_bytes(s).subrange(meta_width() * i, meta_width() * i
                + meta_width()) == meta_bytes(#[trigger] s[i]),
    decreases s.len(),
{
    if s.len() > 0 {
        let p = s.drop_last();
        assert(keys_well_sized(p)) by {
            assert forall|i: int| 0 <= i < p.len() implies #[trigger] p[i].0.len() == 32 by {
                assert(p[i] == s[i]);
            }
        }
        lemma_metas_bytes(p);
        let a = metas_bytes(p);
        let b = meta_bytes(s.last());
        assert(s.last().0.len() == 32);
        assert(metas_bytes(s) == a + b);
        assert forall|i: int| 0 <= i < s.len() implies metas_bytes(s).subrange(
            meta_width() * i,
            meta_width() * i + meta_width(),
        ) == meta_bytes(#[trigger] s[i]) by {
            if i < s.len() - 1 {
                assert(p[i] == s[i]);
                assert((a + b).subrange(meta_width() * i, meta_width() * i + meta_width())
                    =~= a.subrange(meta_width() * i, meta_width() * i + meta_width()));
            } else {
                assert((a + b).subrange(meta_width() * i, meta_width() * i + meta_width()) =~= b);
            }
        }
    }
}

/// Decoding what was encoded gives the list back.
pub proof fn lemma_round_trip(list: PreflightAccounts)
    requires
        list@.len() <= u32::MAX,
    ensures
        decode_spec(encode_spec(list@)) == Some(list@),
{
    let s = list@;
    assert(keys_well_sized(s)) by {
        assert forall|i: int| 0 <= i < s.len() implies #[trigger] s[i].0.len() == 32 by {
            assert(s[i] == list.accounts@[i]@);
        }
    }
    let n = s.len() as u32;
    let b = encode_spec(s);
    lemma_u32_le_round_trip(n);
    lemma_read_prefix(u32_le(n), metas_bytes(s));
    lemma_metas_bytes(s);
    let body = metas_bytes(s);
    assert(b.len() == 4 + meta_width() * s.len());
    assert forall|i: int|
        #![trigger flags_valid_at(b, i)]
        #![trigger meta_at(b, i)]
        0 <= i < s.len() implies flags_valid_at(b, i) && meta_at(b, i) == s[i] by {
        let chunk = body.subrange(meta_width() * i, meta_width() * i + meta_width());
        assert(chunk == meta_bytes(s[i]));
        assert(b.subrange(4 + meta_width() * i, 4 + meta_width() * i + meta_width()) =~= chunk);
        assert(b[4 + meta_width() * i + 32] == chunk[32]);
        assert(b[4 + meta_width() * i + 33] == chunk[33]);
        assert(b.subrange(4 + meta_width() * i, 4 + meta_width() * i + 32) =~= s[i].0);
    }
    assert(Seq::new(n as nat, |i: int| meta_at(b, i)) =~= s);
}

/// Unframing a framed byte string gives it back.
pub proof fn lemma_frame_round_trip(p: Seq<u8>)
    requires
        p.len() <= u32::MAX,
    ensures
        unframe_spec(frame_spec(p)) == Some(p),
{
    lemma_u32_le_round_trip(p.len() as u32);
    lemma_read_prefix(u32_le(p.len() as u32), p);
    assert(frame_spec(p).subrange(4, frame_spec(p).len() as int) =~= p);
}

fn push_u32_le(out: &mut Vec<u8>, n: u32)
    ensures
        final(out)@ == old(out)@ + u32_le(n),
{
    out.push((n & 0xff) as u8);
    out.push(((n >> 8u32) & 0xff) as u8);
    out.push(((n >> 16u32) & 0xff) as u8);
    out.push(((n >> 24u32) & 0xff) as u8);
    assert(final(out)@ =~= old(out)@ + u32_le(n));
}

fn read_u32_at(b: &[u8], at: usize) -> (r: u32)
    requires
        at + 4 <= b@.len(),
    ensures
        r == read_u32_le(b@, at as int),
{
    (b[at] as u32) | ((b[at + 1] as u32) << 8u32) | ((b[at + 2] as u32) << 16u32) | ((b[at
        + 3] as u32) << 24u32)
}

fn push_key(out: &mut Vec<u8>, key: &Pubkey)
    ensures
        final(out)@ == old(out)@ + key@,
{
    let mut k: usize = 0;
    while k < 32
        invariant
            0 <= k <= 32,
            out@ == old(out)@ + key@.subrange(0, k as int),
        decreases 32 - k,
    {
        out.push(key.bytes[k]);
        assert(key@.subrange(0, k + 1) =~= key@.subrange(0, k as int).push(key.bytes@[k as int]));
        k = k + 1;
    }
    assert(key@.subrange(0, 32) =~= key@);
}

fn flag_to_byte(f: bool) -> (r: u8)
    ensures
        r == flag_byte(f),
{
    if f {
        1
    } else {
        0
    }
}

fn read_key(b: &[u8], off: usize) -> (r: Pubkey)
    requires
        off + 32 <= b@.len(),
    ensures
        r@ == b@.subrange(off as int, off + 32),
{
    let len = b.len();
    let mut bytes = [0u8; 32];
    let mut k: usize = 0;
    while k < 32
        invariant
            0 <= k <= 32,
            len == b@.len(),
            off + 32 <= b@.len(),
            forall|t: int| 0 <= t < k ==> bytes@[t] == b@[off + t],
        decreases 32 - k,
    {
        bytes[k] = b[off + k];
        k = k + 1;
    }
    let r = Pubkey { bytes };
    assert(r@ =~= b@.subrange(off as int, off + 32));
    r
}

impl PreflightAccounts {
    /// Writes the list in its wire form.
    pub fn encode(&self) -> (r: Vec<u8>)
        requires
            self@.len() <= u32::MAX,
        ensures
            r@ == encode_spec(self@),
    {
        let n = self.accounts.len() as u32;
        let mut out: Vec<u8> = Vec::new();
        push_u32_le(&mut out, n);
        let mut i: usize = 0;
        while i < self.accounts.len()
            invariant
                0 <= i <= self.accounts@.len(),
                n == self@.len(),
                out@ == u32_le(n) + metas_bytes(self@.subrange(0, i as int)),
            decreases self.accounts@.len() - i,
        {
            let m = self.accounts[i];
            let ghost before = out@;
            push_key(&mut out, &m.pubkey);
            out.push(flag_to_byte(m.signer));
            out.push(flag_to_byte(m.writable));
            proof {
                let s = self@;
                assert(s[i as int] == m@);
                assert(s.subrange(0, i + 1).drop_last() =~= s.subrange(0, i as int));
                assert(out@ =~= before + meta_bytes(m@));
            }
            i = i + 1;
        }
        assert(self@.subrange(0, self@.len() as int) =~= self@);
        out
    }

    /// Reads a list from its wire form, failing with `DecodeError` on any
    /// other byte string.
    pub fn decode(b: &[u8]) -> (r: Result<PreflightAccounts, InterfaceError>)
        ensures
            match decode_spec(b@) {
                Some(s) => r matches Ok(p) && p@ == s,
                None => r == Err::<PreflightAccounts, InterfaceError>(
                    InterfaceError::DecodeError,
                ),
            },
    {
        if b.len() < 4 {
            return Err(InterfaceError::DecodeError);
        }
        let n = read_u32_at(b, 0);
        let expected: u64 = 4 + 34 * (n as u64);
        if b.len() as u64 != expected {
            return Err(InterfaceError::DecodeError);
        }
        let len = b.len();
        let mut accounts: Vec<IAccountMeta> = Vec::new();
        let mut i: usize = 0;
        while i < n as usize
            invariant
                0 <= i <= n,
                len == b@.len(),
                n == read_u32_le(b@, 0),
                b@.len() == 4 + meta_width() * n,
                forall|j: int| 0 <= j < i ==> #[trigger] flags_valid_at(b@, j),
                accounts@.map_values(|m: IAccountMeta| m@) =~= Seq::new(
                    i as nat,
                    |j: int| meta_at(b@, j),
                ),
            decreases n - i,
        {
            let off: usize = 4 + 34 * i;
            let key = read_key(b, off);
            let s = b[off + 32];
            let w = b[off + 33];
            if s > 1 || w > 1 {
                assert(!flags_valid_at(b@, i as int));
                return Err(InterfaceError::DecodeError);
            }
            let m = IAccountMeta { pubkey: key, signer: s == 1, writable: w == 1 };
            let ghost prev = accounts@;
            accounts.push(m);
            proof {
                assert(off == meta_offset(i as int));
                assert(m@ == meta_at(b@, i as int));
                assert(accounts@ == prev.push(m));
                assert(accounts@.map_values(|m: IAccountMeta| m@) =~= prev.map_values(
                    |m: IAccountMeta| m@,
                ).push(m@));
            }
            i = i + 1;
        }
        let r = PreflightAccounts { accounts };
        assert(r@ =~= Seq::new(n as nat, |j: int| meta_at(b@, j)));
        Ok(r)
    }
}

/// Frames a payload as a length-prefixed byte sequence.
pub fn frame_bytes(payload: &[u8]) -> (r: Vec<u8>)
    requires
        payload@.len() <= u32::MAX,
    ensures
        r@ == frame_spec(payload@),
{
    let mut out: Vec<u8> = Vec::new();
    push_u32_le(&mut out, payload.len() as u32);
    let mut i: usize = 0;
    while i < payload.len()
        invariant
            0 <= i <= payload@.len(),
            out@ == u32_le(payload@.len() as u32) + payload@.subrange(0, i as int),
        decreases payload@.len() - i,
    {
        out.push(payload[i]);
        assert(payload@.subrange(0, i + 1) =~= payload@.subrange(0, i as int).push(payload@[i as int]));
        i = i + 1;
    }
    assert(payload@.subrange(0, payload@.len() as int) =~= payload@);
    out
}

/// The payload of a length-prefixed byte sequence that fills `b` exactly;
/// `DecodeError` otherwise.
pub fn unframe_bytes(b: &[u8]) -> (r: Result<Vec<u8>, InterfaceError>)
    ensures
        match unframe_spec(b@) {
            Some(p) => r matches Ok(v) && v@ == p,
            None => r == Err::<Vec<u8>, InterfaceError>(InterfaceError::DecodeError),
        },
{
    if b.len() < 4 {
        return Err(InterfaceError::DecodeError);
    }
    let n = read_u32_at(b, 0);
    if b.len() as u64 != 4 + (n as u64) {
        return Err(InterfaceError::DecodeError);
    }
    let mut out: Vec<u8> = Vec::new();
    let mut i: usize = 4;
    while i < b.len()
        invariant
            4 <= i <= b@.len(),
            out@ == b@.subrange(4, i as int),
        decreases b@.len() - i,
    {
        out.push(b[i]);
        assert(b@.subrange(4, i + 1) =~= b@.subrange(4, i as int).push(b@[i as int]));
        i = i + 1;
    }
    Ok(out)
}

} // verus!
