//! The session store capability, and an in-process store that implements it.
use vstd::prelude::*;
use vstd::slice::slice_to_vec;
use crate::codec::ct_eq;

verus! {

/// A failure of the backing store: connectivity lost or a backend error.
/// Distinct from a token that is simply not there.
#[derive(Debug, Clone, Copy, PartialEq, Eq, Structural)]
pub enum StoreError {
    Unavailable,
}

/// The instant at which a record written at `now` with lifetime `ttl` expires.
pub open spec fn expiry_of(now: u64, ttl: u64) -> u64 {
    if now + ttl > u64::MAX {
        u64::MAX
    } else {
        (now + ttl) as u64
    }
}

/// The identity that `sessions` binds `token` to at instant `now`, if the
/// record is there and has not expired.
pub open spec fn live_identity(
    sessions: Map<Seq<u8>, (Seq<char>, u64)>,
    token: Seq<u8>,
    now: u64,
) -> Option<Seq<char>> {
    if sessions.contains_key(token) && now < sessions[token].1 {
        Some(sessions[token].0)
    } else {
        None
    }
}

/// Get, put and delete of session records keyed by token.
///
/// A store whose contents the library can see is `is_modeled`; for such a
/// store `sessions` maps each token to its identity and expiry instant, and
/// every operation succeeds and acts on that map as stated. For any other
/// store (one across a network) only the shape of the outcome is known.
pub trait KeyStorage {
    spec fn is_modeled(&self) -> bool;

    spec fn sessions(&self) -> Map<Seq<u8>, (Seq<char>, u64)>;

    /// Writes or overwrites the record of `token`, expiring `ttl` after `now`.
    fn put(&mut self, token: &[u8], identity: &str, ttl: u64, now: u64) -> (r: Result<(), StoreError>)
        ensures
            old(self).is_modeled() ==> {
                &&& final(self).is_modeled()
                &&& r is Ok
                &&& final(self).sessions() == old(self).sessions().insert(
                    token@,
                    (identity@, expiry_of(now, ttl)),
                )
            },
    ;

    /// The identity of the record of `token`, if there is one and it is
    /// unexpired at `now`. Absence is `Ok(None)`, not an error.
    fn get(&mut self, token: &[u8], now: u64) -> (r: Result<Option<String>, StoreError>)
        ensures
            old(self).is_modeled() ==> {
                &&& final(self).is_modeled()
                &&& final(self).sessions() == old(self).sessions()
                &&& r is Ok
                &&& (r->Ok_0 is Some) == (live_identity(old(self).sessions(), token@, now) is Some)
                &&& r->Ok_0 is Some ==> Some(r->Ok_0->Some_0@) == live_identity(
                    old(self).sessions(),
                    token@,
                    now,
                )
            },
    ;

    /// Removes the record of `token`; removing an absent token is no error.
    fn delete(&mut self, token: &[u8]) -> (r: Result<(), StoreError>)
        ensures
            old(self).is_modeled() ==> {
                &&& final(self).is_modeled()
                &&& r is Ok
                &&& final(self).sessions() == old(self).sessions().remove(token@)
            },
    ;
}

struct StoredSession {
    token: Vec<u8>,
    identity: String,
    expires_at: u64,
}

/// A store held in process memory: one record per token.
pub struct MemoryStore {
    entries: Vec<StoredSession>,
    sessions: Ghost<Map<Seq<u8>, (Seq<char>, u64)>>,
}

impl MemoryStore {
    spec fn key_at(&self, i: int) -> Seq<u8> {
        self.entries@[i].token@
    }

    spec fn record_at(&self, i: int) -> (Seq<char>, u64) {
        (self.entries@[i].identity@, self.entries@[i].expires_at)
    }

    /// Each entry is recorded in the map, tokens are unique, and every key of
    /// the map has an entry.
    pub closed spec fn wf(&self) -> bool {
        &&& forall|i: int|
            0 <= i < self.entries@.len() ==> {
                &&& self.sessions@.contains_key(#[trigger] self.key_at(i))
                &&& self.sessions@[self.key_at(i)] == self.record_at(i)
            }
        &&& forall|i: int, j: int|
            0 <= i < self.entries@.len() && 0 <= j < self.entries@.len() && i != j
                ==> #[trigger] self.key_at(i) != #[trigger] self.key_at(j)
        &&& forall|k: Seq<u8>|
            #[trigger] self.sessions@.contains_key(k) ==> exists|i: int|
                0 <= i < self.entries@.len() && #[trigger] self.key_at(i) == k
    }

    /// An empty store.
    pub fn new() -> (r: Self)
        ensures
            r.is_modeled(),
            r.sessions() == Map::<Seq<u8>, (Seq<char>, u64)>::empty(),
    {
        MemoryStore { entries: Vec::new(), sessions: Ghost(Map::empty()) }
    }

    fn find(&self, token: &[u8]) -> (r: Option<usize>)
        ensures
            match r {
                Some(i) => i < self.entries@.len() && self.key_at(i as int) == token@,
                None => forall|i: int| 0 <= i < self.entries@.len() ==> self.key_at(i) != token@,
            },
    {
        let mut i: usize = 0;
        while i < self.entries.len()
            invariant
                i <= self.entries@.len(),
                forall|j: int| 0 <= j < i ==> self.key_at(j) != token@,
            decreases self.entries@.len() - i,
        {
            if ct_eq(self.entries[i].token.as_slice(), token) {
                return Some(i);
            }
            i = i + 1;
        }
        None
    }

    fn remove_at(&mut self, i: usize)
        requires
            i < old(self).entries@.len(),
        ensures
            final(self).sessions@ == old(self).sessions@.remove(old(self).key_at(i as int)),
            old(self).wf() ==> final(self).wf(),
    {
        let ghost key = self.key_at(i as int);
        let ghost before = *self;
        self.entries.remove(i);
        self.sessions = Ghost(self.sessions@.remove(key));
        proof {
            if before.wf() {
                self.lemma_wf_after_remove(before, i as int);
            }
        }
    }

    proof fn lemma_wf_after_remove(&self, before: Self, i: int)
        requires
            before.wf(),
            0 <= i < before.entries@.len(),
            self.entries@ == before.entries@.remove(i),
            self.sessions@ == before.sessions@.remove(before.key_at(i)),
        ensures
            self.wf(),
    {
        assert forall|j: int| 0 <= j < self.entries@.len() implies {
            &&& self.sessions@.contains_key(#[trigger] self.key_at(j))
            &&& self.sessions@[self.key_at(j)] == self.record_at(j)
        } by {
            if j < i {
                assert(self.key_at(j) == before.key_at(j));
                assert(before.key_at(j) != before.key_at(i));
            } else {
                assert(self.key_at(j) == before.key_at(j + 1));
                assert(before.key_at(j + 1) != before.key_at(i));
            }
        }
        assert forall|a: int, b: int|
            0 <= a < self.entries@.len() && 0 <= b < self.entries@.len() && a != b
                implies #[trigger] self.key_at(a) != #[trigger] self.key_at(b) by {
            let oa = if a < i { a } else { a + 1 };
            let ob = if b < i { b } else { b + 1 };
            assert(self.key_at(a) == before.key_at(oa));
            assert(self.key_at(b) == before.key_at(ob));
        }
        assert forall|k: Seq<u8>| #[trigger] self.sessions@.contains_key(k) implies exists|j: int|
            0 <= j < self.entries@.len() && #[trigger] self.key_at(j) == k by {
            let oj = choose|oj: int| 0 <= oj < before.entries@.len() && #[trigger] before.key_at(oj) == k;
            assert(oj != i);
            if oj < i {
                assert(self.key_at(oj) == k);
            } else {
                assert(self.key_at(oj - 1) == k);
            }
        }
    }
}

impl KeyStorage for MemoryStore {
    closed spec fn is_modeled(&self) -> bool {
        self.wf()
    }

    closed spec fn sessions(&self) -> Map<Seq<u8>, (Seq<char>, u64)> {
        self.sessions@
    }

    fn put(&mut self, token: &[u8], identity: &str, ttl: u64, now: u64) -> (r: Result<(), StoreError>) {
        let ghost start_wf = self.wf();
        match self.find(token) {
            Some(i) => self.remove_at(i),
            None => {
                proof {
                    if start_wf && self.sessions@.contains_key(token@) {
                        let j = choose|j: int| 0 <= j < self.entries@.len() && #[trigger] self.key_at(j) == token@;
                    }
                }
            },
        }
        let ghost before = *self;
        let expires_at = now.saturating_add(ttl);
        let entry = StoredSession {
            token: slice_to_vec(token),
            identity: identity.to_owned(),
            expires_at,
        };
        self.entries.push(entry);
        self.sessions = Ghost(self.sessions@.insert(token@, (identity@, expires_at)));
        proof {
            if start_wf {
                self.lemma_wf_after_push(before, token@);
            }
        }
        Ok(())
    }

    fn get(&mut self, token: &[u8], now: u64) -> (r: Result<Option<String>, StoreError>) {
        match self.find(token) {
            Some(i) => {
                if now < self.entries[i].expires_at {
                    Ok(Some(self.entries[i].identity.clone()))
                } else {
                    Ok(None)
                }
            },
            None => {
                proof {
                    if self.wf() && self.sessions@.contains_key(token@) {
                        let j = choose|j: int| 0 <= j < self.entries@.len() && #[trigger] self.key_at(j) == token@;
                    }
                }
                Ok(None)
            },
        }
    }

    fn delete(&mut self, token: &[u8]) -> (r: Result<(), StoreError>) {
        match self.find(token) {
            Some(i) => self.remove_at(i),
            None => {
                proof {
                    if self.wf() {
                        assert(self.sessions@.remove(token@) =~= self.sessions@) by {
                            if self.sessions@.contains_key(token@) {
                                let j = choose|j: int| 0 <= j < self.entries@.len() && #[trigger] self.key_at(j) == token@;
                            }
                        }
                    }
                }
            },
        }
        Ok(())
    }
}

impl MemoryStore {
    proof fn lemma_wf_after_push(&self, before: Self, token: Seq<u8>)
        requires
            before.wf(),
            !before.sessions@.contains_key(token),
            self.entries@.len() == before.entries@.len() + 1,
            forall|j: int| 0 <= j < before.entries@.len() ==> self.entries@[j] == before.entries@[j],
            self.key_at(before.entries@.len() as int) == token,
            self.sessions@ == before.sessions@.insert(token, self.record_at(before.entries@.len() as int)),
        ensures
            self.wf(),
    {
        let n = before.entries@.len() as int;
        assert forall|j: int| 0 <= j < n implies #[trigger] before.key_at(j) != token by {
            assert(before.sessions@.contains_key(before.key_at(j)));
        }
        assert forall|j: int| 0 <= j < self.entries@.len() implies {
            &&& self.sessions@.contains_key(#[trigger] self.key_at(j))
            &&& self.sessions@[self.key_at(j)] == self.record_at(j)
        } by {
            if j < n {
                assert(self.key_at(j) == before.key_at(j));
            }
        }
        assert forall|a: int, b: int|
            0 <= a < self.entries@.len() && 0 <= b < self.entries@.len() && a != b
                implies #[trigger] self.key_at(a) != #[trigger] self.key_at(b) by {
            if a < n {
                assert(self.key_at(a) == before.key_at(a));
            }
            if b < n {
                assert(self.key_at(b) == before.key_at(b));
            }
        }
        assert forall|k: Seq<u8>| #[trigger] self.sessions@.contains_key(k) implies exists|j: int|
            0 <= j < self.entries@.len() && #[trigger] self.key_at(j) == k by {
            if k == token {
                assert(self.key_at(n) == k);
            } else {
                let oj = choose|oj: int| 0 <= oj < before.entries@.len() && #[trigger] before.key_at(oj) == k;
                assert(self.key_at(oj) == k);
            }
        }
    }
}

} // verus!
