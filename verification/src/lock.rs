//! The distributed lock: a broker-backed mutex keyed by string, with an
//! owner token, acquisition only when the key is free, and owner-scoped
//! release and refresh. The table models the broker's key space; the laws
//! of mutual exclusion and of safe release are proved over it.

use vstd::prelude::*;

verus! {

use crate::wrappers;

/// The broker's lock key space: each held key maps to its holder's token.
pub struct LockTable {
    held: vstd::hash_map::StringHashMap<u128>,
}

impl View for LockTable {
    type V = Map<Seq<char>, u128>;

    closed spec fn view(&self) -> Map<Seq<char>, u128> {
        self.held@
    }
}

/// What a conditional acquisition does: the key is granted exactly when it
/// is free, and only then does the table change.
pub open spec fn acquire_effect(m: Map<Seq<char>, u128>, key: Seq<char>, token: u128) -> (
    bool,
    Map<Seq<char>, u128>,
) {
    if !m.contains_key(key) {
        (true, m.insert(key, token))
    } else {
        (false, m)
    }
}

/// What a compare-and-delete does: the key is removed exactly when it is
/// held under the given token; otherwise nothing changes.
pub open spec fn release_effect(m: Map<Seq<char>, u128>, key: Seq<char>, token: u128) -> (
    bool,
    Map<Seq<char>, u128>,
) {
    if m.contains_key(key) && m[key] == token {
        (true, m.remove(key))
    } else {
        (false, m)
    }
}

impl LockTable {
    pub fn new() -> (r: Self)
        ensures
            r@ == Map::<Seq<char>, u128>::empty(),
    {
        LockTable { held: vstd::hash_map::StringHashMap::new() }
    }

    /// `SET key token NX EX ttl`: takes the key only if nobody holds it.
    pub fn try_acquire(&mut self, key: &String, token: u128) -> (r: bool)
        ensures
            (r, final(self)@) == acquire_effect(old(self)@, key@, token),
    {
        if self.held.contains_key(key.as_str()) {
            false
        } else {
            self.held.insert(key.clone(), token);
            true
        }
    }

    /// The compare-and-delete script: deletes the key only if it still holds
    /// the caller's token. A holder whose lock expired and was taken by
    /// another deletes nothing.
    pub fn compare_and_delete(&mut self, key: &String, token: u128) -> (r: bool)
        ensures
            (r, final(self)@) == release_effect(old(self)@, key@, token),
    {
        let stored = self.held.get(key.as_str());
        let matches_token: bool = match stored {
            Option::Some(t) => *t == token,
            Option::None => false,
        };
        if matches_token {
            self.held.remove(key.as_str());
            true
        } else {
            false
        }
    }

    /// The compare-and-expire script: reports whether the caller still holds
    /// the key, which is when the broker would extend the expiry.
    pub fn compare_and_expire(&mut self, key: &String, token: u128) -> (r: bool)
        ensures
            r == (old(self)@.contains_key(key@) && old(self)@[key@] == token),
            final(self)@ == old(self)@,
    {
        let stored = self.held.get(key.as_str());
        match stored {
            Option::Some(t) => *t == token,
            Option::None => false,
        }
    }

    /// The broker dropping a key when its time-to-live elapses. A crashed
    /// holder therefore never blocks its peers forever.
    pub fn expire(&mut self, key: &String)
        ensures
            final(self)@ == old(self)@.remove(key@),
    {
        self.held.remove(key.as_str());
    }
}

/// A per-acquisition handle: the key it guards, the owner's fresh token,
/// and the time-to-live the broker is asked for.
pub struct DistributedLock {
    lock_key: String,
    lock_value: u128,
    lock_timeout_secs: u64,
}

impl DistributedLock {
    /// The token of this acquisition, never shared with another handle on
    /// purpose: only its owner can release or refresh.
    pub closed spec fn spec_token(&self) -> u128 {
        self.lock_value
    }

    /// The key this handle guards.
    pub closed spec fn spec_key(&self) -> Seq<char> {
        self.lock_key@
    }

    /// The time-to-live the broker is asked for.
    pub closed spec fn spec_timeout_secs(&self) -> u64 {
        self.lock_timeout_secs
    }

    /// Makes a handle with a fresh random token.
    pub fn new(lock_key: String, lock_timeout_secs: u64) -> (r: Self)
        ensures
            r.spec_key() == lock_key@,
            r.spec_timeout_secs() == lock_timeout_secs,
    {
        let lock_value = wrappers::fresh_uuid();
        DistributedLock { lock_key, lock_value, lock_timeout_secs }
    }

    /// One acquisition attempt: succeeds exactly when nobody holds the key.
    pub fn acquire(&self, table: &mut LockTable) -> (r: bool)
        ensures
            (r, final(table)@) == acquire_effect(old(table)@, self.spec_key(), self.spec_token()),
    {
        table.try_acquire(&self.lock_key, self.lock_value)
    }

    /// Releases the key only if this handle still owns it.
    pub fn release(&self, table: &mut LockTable) -> (r: bool)
        ensures
            (r, final(table)@) == release_effect(old(table)@, self.spec_key(), self.spec_token()),
    {
        table.compare_and_delete(&self.lock_key, self.lock_value)
    }

    /// Extends the time-to-live only if this handle still owns the key.
    pub fn refresh(&self, table: &mut LockTable) -> (r: bool)
        ensures
            r == (old(table)@.contains_key(self.spec_key()) && old(table)@[self.spec_key()]
                == self.spec_token()),
            final(table)@ == old(table)@,
    {
        table.compare_and_expire(&self.lock_key, self.lock_value)
    }
}

/// Mutual exclusion: once an acquisition is granted, every further
/// acquisition of the same key is refused, whatever token it brings, until
/// the key is released or expires.
pub proof fn lemma_mutual_exclusion(
    m: Map<Seq<char>, u128>,
    key: Seq<char>,
    token1: u128,
    token2: u128,
)
    requires
        acquire_effect(m, key, token1).0,
    ensures
        !acquire_effect(acquire_effect(m, key, token1).1, key, token2).0,
{
}

/// Lock safety: a release whose token does not match the stored value
/// deletes nothing, and a matching release removes only its own key.
pub proof fn lemma_release_safety(m: Map<Seq<char>, u128>, key: Seq<char>, token: u128)
    ensures
        !(m.contains_key(key) && m[key] == token) ==> release_effect(m, key, token).1 == m,
        release_effect(m, key, token).1 =~= if m.contains_key(key) && m[key] == token {
            m.remove(key)
        } else {
            m
        },
        forall|other: Seq<char>|
            other != key ==> release_effect(m, key, token).1.contains_key(other)
                == m.contains_key(other),
{
}

} // verus!
