//! The keyed read/write-through cache and the load-planning rules built on
//! its outcomes.
//!
//! The gateway holds raw payload bytes under deterministic keys and knows
//! nothing of episode semantics.  Callers write through it only when the
//! preceding read failed with `NotFound`; any other read error leaves the
//! stored entry untouched, so a corrupt or locked file is never overwritten
//! just to mask the real problem.

use vstd::prelude::*;

use crate::text::{spec_dec_digits, u64_to_string};

verus! {

/// A cache key: one artifact kind together with the identifier it is for.
#[derive(Clone, Copy, Debug, PartialEq, Eq, Structural)]
pub enum CacheKey {
    /// The serialized episode list of one series.
    SeriesEpisodeList(u32),
}

/// Why a cache read yielded no bytes.
#[derive(Clone, Copy, Debug, PartialEq, Eq, Structural)]
pub enum CacheError {
    /// Nothing is stored under the key; recoverable by fetching remotely and
    /// writing the payload through.
    NotFound,
    /// The entry exists but could not be read; recoverable by fetching
    /// remotely, with the write-through step skipped.
    Io,
}

/// The relative storage path of one cache key: the artifact kind's
/// directory, then the identifier.
pub open spec fn spec_cache_key_path(key: CacheKey) -> Seq<char> {
    match key {
        CacheKey::SeriesEpisodeList(id) => seq![
            'e',
            'p',
            'i',
            's',
            'o',
            'd',
            'e',
            '_',
            'l',
            'i',
            's',
            't',
            '/',
        ] + spec_dec_digits(id as nat),
    }
}

/// Derives the storage location of a key; the mapping is pure and
/// deterministic.
pub fn get_cache_file_path(key: &CacheKey) -> (r: String)
    ensures
        r@ == spec_cache_key_path(*key),
{
    match key {
        CacheKey::SeriesEpisodeList(id) => {
            proof {
                reveal_strlit("episode_list/");
            }
            let mut s = String::new();
            s.append("episode_list/");
            let digits = u64_to_string(*id as u64);
            s.append(digits.as_str());
            proof {
                assert(s@ =~= spec_cache_key_path(*key));
            }
            s
        },
    }
}

/// The first entry of `s` stored under `key`, if any.
pub open spec fn spec_lookup(s: Seq<(CacheKey, Vec<u8>)>, key: CacheKey) -> Option<Seq<u8>>
    decreases s.len(),
{
    if s.len() == 0 {
        None
    } else if s[0].0 == key {
        Some(s[0].1@)
    } else {
        spec_lookup(s.drop_first(), key)
    }
}

proof fn lemma_lookup_at(s: Seq<(CacheKey, Vec<u8>)>, key: CacheKey, i: int)
    requires
        0 <= i < s.len(),
        s[i].0 == key,
        forall|j: int| 0 <= j < i ==> s[j].0 != key,
    ensures
        spec_lookup(s, key) == Some(s[i].1@),
    decreases i,
{
    if i > 0 {
        lemma_lookup_at(s.drop_first(), key, i - 1);
    }
}

proof fn lemma_lookup_absent(s: Seq<(CacheKey, Vec<u8>)>, key: CacheKey)
    requires
        forall|j: int| 0 <= j < s.len() ==> s[j].0 != key,
    ensures
        spec_lookup(s, key) is None,
    decreases s.len(),
{
    if s.len() > 0 {
        lemma_lookup_absent(s.drop_first(), key);
    }
}

proof fn lemma_lookup_update_other(
    s: Seq<(CacheKey, Vec<u8>)>,
    i: int,
    entry: (CacheKey, Vec<u8>),
    key: CacheKey,
)
    requires
        0 <= i < s.len(),
        key != entry.0,
        key != s[i].0,
    ensures
        spec_lookup(s.update(i, entry), key) == spec_lookup(s, key),
    decreases i,
{
    if i == 0 {
        assert(s.update(0, entry).drop_first() =~= s.drop_first());
    } else {
        assert(s.update(i, entry).drop_first() =~= s.drop_first().update(i - 1, entry));
        lemma_lookup_update_other(s.drop_first(), i - 1, entry, key);
    }
}

proof fn lemma_lookup_push_other(
    s: Seq<(CacheKey, Vec<u8>)>,
    entry: (CacheKey, Vec<u8>),
    key: CacheKey,
)
    requires
        key != entry.0,
    ensures
        spec_lookup(s.push(entry), key) == spec_lookup(s, key),
    decreases s.len(),
{
    if s.len() == 0 {
        assert(s.push(entry)[0] == entry);
        let empty = Seq::<(CacheKey, Vec<u8>)>::empty();
        assert(s.push(entry).drop_first() =~= empty);
        assert(spec_lookup(s.push(entry), key) == spec_lookup(empty, key));
        assert(spec_lookup(empty, key) is None);
        assert(spec_lookup(s, key) is None);
    } else {
        assert(s.push(entry)[0] == s[0]);
        assert(s.push(entry).drop_first() =~= s.drop_first().push(entry));
        lemma_lookup_push_other(s.drop_first(), entry, key);
    }
}

/// The generic keyed cache: payload bytes stored under cache keys.
pub struct CacheGateway {
    entries: Vec<(CacheKey, Vec<u8>)>,
}

/// What one write leaves behind: the written bytes stand under the key and
/// every other key is untouched.
pub open spec fn write_post(
    pre: CacheGateway,
    post: CacheGateway,
    key: CacheKey,
    bytes: Seq<u8>,
) -> bool {
    &&& post.spec_read(key) == Some(bytes)
    &&& forall|k: CacheKey| k != key ==> post.spec_read(k) == pre.spec_read(k)
}

impl CacheGateway {
    /// The bytes stored under `key`, if any.
    pub closed spec fn spec_read(&self, key: CacheKey) -> Option<Seq<u8>> {
        spec_lookup(self.entries@, key)
    }

    /// An empty cache: every read misses.
    pub fn new() -> (r: Self)
        ensures
            forall|k: CacheKey| r.spec_read(k) is None,
    {
        let r = CacheGateway { entries: Vec::new() };
        proof {
            assert forall|k: CacheKey| r.spec_read(k) is None by {
                lemma_lookup_absent(r.entries@, k);
            }
        }
        r
    }

    /// Reads the bytes stored under `key`; a miss is reported as
    /// [`CacheError::NotFound`].
    pub fn read(&self, key: &CacheKey) -> (r: Result<Vec<u8>, CacheError>)
        ensures
            r matches Ok(bytes) ==> self.spec_read(*key) == Some(bytes@),
            r is Err <==> self.spec_read(*key) is None,
            r matches Err(e) ==> e == CacheError::NotFound,
    {
        let n = self.entries.len();
        let mut i: usize = 0;
        while i < n
            invariant
                n == self.entries.len(),
                i <= n,
                forall|j: int| 0 <= j < i ==> self.entries@[j].0 != *key,
            decreases n - i,
        {
            if self.entries[i].0 == *key {
                proof {
                    lemma_lookup_at(self.entries@, *key, i as int);
                }
                let bytes = clone_bytes(&self.entries[i].1);
                return Ok(bytes);
            }
            i += 1;
        }
        proof {
            lemma_lookup_absent(self.entries@, *key);
        }
        Err(CacheError::NotFound)
    }

    /// Stores `bytes` under `key`, replacing whatever was there.  In-memory
    /// storage cannot fail; a durable backend treats failures as best-effort
    /// and never propagates them, since the cache is an optimization, not
    /// the source of truth.
    pub fn write(&mut self, key: &CacheKey, bytes: Vec<u8>)
        ensures
            write_post(*old(self), *final(self), *key, bytes@),
    {
        let n = self.entries.len();
        let mut i: usize = 0;
        while i < n
            invariant
                n == self.entries.len(),
                i <= n,
                self.entries@ == old(self).entries@,
                forall|j: int| 0 <= j < i ==> self.entries@[j].0 != *key,
            decreases n - i,
        {
            if self.entries[i].0 == *key {
                let ghost pre = self.entries@;
                self.entries.set(i, (*key, bytes));
                proof {
                    lemma_lookup_at(self.entries@, *key, i as int);
                    assert forall|k: CacheKey| k != *key implies self.spec_read(k) == old(
                        self,
                    ).spec_read(k) by {
                        lemma_lookup_update_other(pre, i as int, self.entries@[i as int], k);
                    }
                }
                return ;
            }
            i += 1;
        }
        let ghost pre = self.entries@;
        self.entries.push((*key, bytes));
        proof {
            lemma_lookup_at(self.entries@, *key, n as int);
            assert forall|k: CacheKey| k != *key implies self.spec_read(k) == old(
                self,
            ).spec_read(k) by {
            lemma_lookup_push_other(pre, self.entries@[n as int], k);
            }
        }
    }
}

/// Law: writing a fetched payload through the cache and reading the same
/// key back yields exactly the written bytes, byte for byte.
pub proof fn lemma_cache_round_trip(
    pre: CacheGateway,
    post: CacheGateway,
    key: CacheKey,
    bytes: Seq<u8>,
)
    requires
        write_post(pre, post, key, bytes),
    ensures
        post.spec_read(key) == Some(bytes),
{
}

fn clone_bytes(v: &Vec<u8>) -> (r: Vec<u8>)
    ensures
        r@ == v@,
{
    let n = v.len();
    let mut r: Vec<u8> = Vec::new();
    let mut i: usize = 0;
    while i < n
        invariant
            n == v.len(),
            i <= n,
            r@ == v@.take(i as int),
        decreases n - i,
    {
        r.push(v[i]);
        proof {
            assert(r@ =~= v@.take(i + 1));
        }
        i += 1;
    }
    proof {
        assert(v@.take(n as int) =~= v@);
    }
    r
}

/// How one load proceeds after the cache read: a hit serves the cached
/// payload; a `NotFound` miss falls back to the remote fetch and writes the
/// fetched payload through; any other read error falls back to the remote
/// fetch with the write-through step skipped.
#[derive(Debug)]
pub enum LoadPlan {
    /// The cache held the payload: no fetch is needed.
    UseCache(Vec<u8>),
    /// Fetch remotely, then write the raw fetched payload through.
    FetchThenWrite,
    /// Fetch remotely and leave the cache untouched.
    FetchOnly,
}

/// Decides how a load proceeds from the outcome of the cache read.
pub fn plan_load(read_result: Result<Vec<u8>, CacheError>) -> (r: LoadPlan)
    ensures
        match read_result {
            Ok(bytes) => r matches LoadPlan::UseCache(b) && b@ == bytes@,
            Err(CacheError::NotFound) => r is FetchThenWrite,
            Err(CacheError::Io) => r is FetchOnly,
        },
{
    match read_result {
        Ok(bytes) => LoadPlan::UseCache(bytes),
        Err(CacheError::NotFound) => LoadPlan::FetchThenWrite,
        Err(CacheError::Io) => LoadPlan::FetchOnly,
    }
}

} // verus!
