use vstd::prelude::*;

use crate::key::AccountRef;
use crate::meta::{InterfaceError, MetaView, PreflightAccounts};

verus! {

/// The account that an index of `pool` by key holds for `key`: the last one
/// with that key, as a later entry overwrites an earlier one.
pub open spec fn last_match(pool: Seq<AccountRef>, key: Seq<u8>) -> Option<AccountRef>
    decreases pool.len(),
{
    if pool.len() == 0 {
        None
    } else if pool.last().key@ == key {
        Some(pool.last())
    } else {
        last_match(pool.drop_last(), key)
    }
}

/// Resolves the requests in order; the first key without a match stops it.
pub open spec fn resolve_spec(reqs: Seq<MetaView>, pool: Seq<AccountRef>) -> Result<
    Seq<AccountRef>,
    Seq<u8>,
>
    decreases reqs.len(),
{
    if reqs.len() == 0 {
        Ok(Seq::empty())
    } else {
        match resolve_spec(reqs.drop_last(), pool) {
            Err(k) => Err(k),
            Ok(found) => match last_match(pool, reqs.last().0) {
                None => Err(reqs.last().0),
                Some(a) => Ok(found.push(a)),
            },
        }
    }
}

pub open spec fn in_pool(pool: Seq<AccountRef>, key: Seq<u8>) -> bool {
    exists|j: int| 0 <= j < pool.len() && (#[trigger] pool[j]).key@ == key
}

/// A match exists exactly when some account of the pool has the key, and it
/// carries that key.
pub proof fn lemma_last_match(pool: Seq<AccountRef>, key: Seq<u8>)
    ensures
        last_match(pool, key) is Some <==> in_pool(pool, key),
        last_match(pool, key) matches Some(a) ==> a.key@ == key,
    decreases pool.len(),
{
    if pool.len() > 0 {
        let p = pool.drop_last();
        lemma_last_match(p, key);
        if pool.last().key@ != key {
            if in_pool(pool, key) {
                let j = choose|j: int| 0 <= j < pool.len() && (#[trigger] pool[j]).key@ == key;
                assert(j < pool.len() - 1);
                assert(p[j] == pool[j]);
            }
            if in_pool(p, key) {
                let j = choose|j: int| 0 <= j < p.len() && (#[trigger] p[j]).key@ == key;
                assert(pool[j] == p[j]);
            }
        } else {
            assert(pool[pool.len() - 1] == pool.last());
        }
    }
}

/// Resolution succeeds exactly when every requested key is in the pool. It
/// then gives one account per request, in the requests' order, each the last
/// one of the pool with the requested key; otherwise it names the first
/// requested key that is missing.
pub proof fn lemma_resolve_complete(reqs: Seq<MetaView>, pool: Seq<AccountRef>)
    ensures
        resolve_spec(reqs, pool) is Ok <==> forall|i: int|
            0 <= i < reqs.len() ==> in_pool(pool, #[trigger] reqs[i].0),
        resolve_spec(reqs, pool) matches Ok(found) ==> {
            &&& found.len() == reqs.len()
            &&& forall|i: int|
                0 <= i < reqs.len() ==> last_match(pool, #[trigger] reqs[i].0) == Some(found[i])
                    && found[i].key@ == reqs[i].0
        },
        resolve_spec(reqs, pool) matches Err(k) ==> exists|j: int|
            0 <= j < reqs.len() && k == (#[trigger] reqs[j]).0 && !in_pool(pool, k) && forall|
                i: int,
            | 0 <= i < j ==> in_pool(pool, #[trigger] reqs[i].0),
    decreases reqs.len(),
{
    if reqs.len() > 0 {
        let p = reqs.drop_last();
        lemma_resolve_complete(p, pool);
        let n = reqs.len() - 1;
        lemma_last_match(pool, reqs.last().0);
        assert forall|i: int| 0 <= i < n implies p[i] == reqs[i] by {}
        assert(reqs[n] == reqs.last());
        match resolve_spec(p, pool) {
            Err(k) => {
                let j = choose|j: int|
                    0 <= j < p.len() && k == (#[trigger] p[j]).0 && !in_pool(pool, k) && forall|
                        i: int,
                    | 0 <= i < j ==> in_pool(pool, #[trigger] p[i].0);
                assert(reqs[j] == p[j]);
                assert(!in_pool(pool, reqs[j].0));
            },
            Ok(found) => {
                match last_match(pool, reqs.last().0) {
                    None => {
                        assert(!in_pool(pool, reqs[n].0));
                    },
                    Some(a) => {
                        let f2 = found.push(a);
                        assert forall|i: int| 0 <= i < reqs.len() implies last_match(
                            pool,
                            #[trigger] reqs[i].0,
                        ) == Some(f2[i]) && f2[i].key@ == reqs[i].0 by {
                            if i < n {
                                assert(p[i] == reqs[i]);
                            }
                            lemma_last_match(pool, reqs[i].0);
                        }
                        assert forall|i: int| 0 <= i < reqs.len() implies in_pool(
                            pool,
                            #[trigger] reqs[i].0,
                        ) by {
                            lemma_last_match(pool, reqs[i].0);
                        }
                    },
                }
            },
        }
    }
}

/// The resolved accounts carry the requested keys in the requested order,
/// whatever the order of the pool.
pub proof fn lemma_resolve_order(reqs: Seq<MetaView>, pool: Seq<AccountRef>)
    ensures
        resolve_spec(reqs, pool) matches Ok(found) ==> found.map_values(
            |a: AccountRef| a.key@,
        ) =~= reqs.map_values(|m: MetaView| m.0),
{
    lemma_resolve_complete(reqs, pool);
}

/// Once a prefix of the requests fails, so do all of them, on the same key.
proof fn lemma_resolve_prefix_err(reqs: Seq<MetaView>, pool: Seq<AccountRef>, m: int)
    requires
        0 <= m <= reqs.len(),
        resolve_spec(reqs.subrange(0, m), pool) is Err,
    ensures
        resolve_spec(reqs, pool) == resolve_spec(reqs.subrange(0, m), pool),
    decreases reqs.len() - m,
{
    if m < reqs.len() {
        let longer = reqs.subrange(0, m + 1);
        assert(longer.drop_last() =~= reqs.subrange(0, m));
        lemma_resolve_prefix_err(reqs, pool, m + 1);
    } else {
        assert(reqs.subrange(0, m) =~= reqs);
    }
}

/// No two accounts of the pool share a key.
pub open spec fn keys_unique(pool: Seq<AccountRef>) -> bool {
    forall|i: int, j: int|
        0 <= i < pool.len() && 0 <= j < pool.len() && i != j ==> (#[trigger] pool[i]).key@
            != (#[trigger] pool[j]).key@
}

/// In a pool with unique keys, the match of a key is the one account with it.
proof fn lemma_unique_match(pool: Seq<AccountRef>, j: int)
    requires
        keys_unique(pool),
        0 <= j < pool.len(),
    ensures
        last_match(pool, pool[j].key@) == Some(pool[j]),
    decreases pool.len(),
{
    let n = pool.len() - 1;
    if j < n {
        let p = pool.drop_last();
        assert(pool[n].key@ != pool[j].key@);
        assert(keys_unique(p)) by {
            assert forall|a: int, b: int|
                0 <= a < p.len() && 0 <= b < p.len() && a != b implies (#[trigger] p[a]).key@
                != (#[trigger] p[b]).key@ by {
                assert(p[a] == pool[a] && p[b] == pool[b]);
            }
        }
        assert(p[j] == pool[j]);
        lemma_unique_match(p, j);
    }
}

/// Two pools with unique keys and the same accounts match every key alike.
proof fn lemma_same_match(p: Seq<AccountRef>, q: Seq<AccountRef>, key: Seq<u8>)
    requires
        keys_unique(p),
        keys_unique(q),
        forall|a: AccountRef| p.contains(a) <==> q.contains(a),
    ensures
        last_match(p, key) == last_match(q, key),
{
    lemma_last_match(p, key);
    lemma_last_match(q, key);
    if in_pool(p, key) {
        let j = choose|j: int| 0 <= j < p.len() && (#[trigger] p[j]).key@ == key;
        assert(p.contains(p[j]));
        let i = choose|i: int| 0 <= i < q.len() && q[i] == p[j];
        lemma_unique_match(p, j);
        lemma_unique_match(q, i);
    } else if in_pool(q, key) {
        let i = choose|i: int| 0 <= i < q.len() && (#[trigger] q[i]).key@ == key;
        assert(q.contains(q[i]));
        let j = choose|j: int| 0 <= j < p.len() && p[j] == q[i];
        assert(p[j].key@ == key);
    }
}

/// Where no two candidates share a key, the order of the pool does not
/// matter: any pool with the same accounts resolves the requests alike.
pub proof fn lemma_resolve_pool_order_irrelevant(
    reqs: Seq<MetaView>,
    p: Seq<AccountRef>,
    q: Seq<AccountRef>,
)
    requires
        keys_unique(p),
        keys_unique(q),
        forall|a: AccountRef| p.contains(a) <==> q.contains(a),
    ensures
        resolve_spec(reqs, p) == resolve_spec(reqs, q),
    decreases reqs.len(),
{
    if reqs.len() > 0 {
        lemma_resolve_pool_order_irrelevant(reqs.drop_last(), p, q);
        lemma_same_match(p, q, reqs.last().0);
    }
}

impl PreflightAccounts {
    /// Finds, for each request in order, the account of `accounts` with its
    /// key (the last one, if several have it). Fails with `ResourceNotFound`
    /// naming the first requested key that none of them has.
    pub fn match_accounts(&self, accounts: &[AccountRef]) -> (r: Result<
        Vec<AccountRef>,
        InterfaceError,
    >)
        ensures
            match resolve_spec(self@, accounts@) {
                Ok(found) => r matches Ok(v) && v@ == found,
                Err(k) => r matches Err(InterfaceError::ResourceNotFound(key)) && key@ == k,
            },
    {
        let mut found_accounts: Vec<AccountRef> = Vec::new();
        let mut i: usize = 0;
        while i < self.accounts.len()
            invariant
                0 <= i <= self.accounts@.len(),
                resolve_spec(self@.subrange(0, i as int), accounts@) == Ok::<
                    Seq<AccountRef>,
                    Seq<u8>,
                >(found_accounts@),
            decreases self.accounts@.len() - i,
        {
            let req = self.accounts[i];
            let ghost reqs = self@.subrange(0, i + 1);
            proof {
                assert(reqs.drop_last() =~= self@.subrange(0, i as int));
                assert(reqs.last() == req@);
            }
            match find_last(accounts, &req.pubkey) {
                None => {
                    proof {
                        lemma_resolve_prefix_err(self@, accounts@, i + 1);
                    }
                    return Err(InterfaceError::ResourceNotFound(req.pubkey));
                },
                Some(a) => {
                    found_accounts.push(a);
                },
            }
            i = i + 1;
        }
        assert(self@.subrange(0, self@.len() as int) =~= self@);
        Ok(found_accounts)
    }
}

/// The last account of `pool` with the given key.
fn find_last(pool: &[AccountRef], key: &crate::key::Pubkey) -> (r: Option<AccountRef>)
    ensures
        r == last_match(pool@, key@),
{
    let mut j: usize = pool.len();
    assert(pool@.subrange(0, j as int) =~= pool@);
    while j > 0
        invariant
            0 <= j <= pool@.len(),
            last_match(pool@, key@) == last_match(pool@.subrange(0, j as int), key@),
        decreases j,
    {
        let ghost prefix = pool@.subrange(0, j as int);
        proof {
            assert(prefix.last() == pool@[j - 1]);
            assert(prefix.drop_last() =~= pool@.subrange(0, j - 1));
        }
        if pool[j - 1].key.same_key(key) {
            return Some(pool[j - 1]);
        }
        j = j - 1;
    }
    None
}

} // verus!
