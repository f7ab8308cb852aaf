//! The storage core of the cache: a key→entry map and the index of keys that
//! carry a TTL, kept coherent through every operation. Expiry is lazy: an
//! expired entry is dropped by the read that touches it.
//!
//! Every operation that depends on the current time takes it as an explicit
//! argument, so the store's behaviour is specified for every clock value.

use vstd::prelude::*;
use vstd::pervasive::VecAdditionalExecFns;
use crate::domain::{Key, Value};

verus! {

/// What the cache stores under a key: the value and its optional absolute
/// expiry in milliseconds since the Unix epoch.
#[derive(Debug, PartialEq)]
pub struct DbValue {
    pub value: Value,
    pub ttl_since_unix_epoch_in_millis: Option<u128>,
}

impl View for DbValue {
    type V = (Seq<u8>, Option<u128>);

    open spec fn view(&self) -> (Seq<u8>, Option<u128>) {
        (self.value@, self.ttl_since_unix_epoch_in_millis)
    }
}

impl Clone for DbValue {
    fn clone(&self) -> (r: Self)
        ensures
            r@ == self@,
    {
        DbValue {
            value: self.value.clone(),
            ttl_since_unix_epoch_in_millis: self.ttl_since_unix_epoch_in_millis,
        }
    }
}

/// A message to the storage actor.
#[derive(Debug)]
pub enum DbRequest {
    Get(Key),
    Insert { key: Key, value: Value, ttl: Option<u128> },
    Remove(Key),
    ContainsKey(Key),
    Clear,
}

/// The storage actor's answer, where one is owed.
#[derive(Debug)]
pub enum DbResponse {
    Get(DbValue),
    ContainsKey(bool),
}

/// Some entry of `s` holds key `k`.
pub open spec fn spec_has_key(s: Seq<(Key, DbValue)>, k: Seq<u8>) -> bool {
    exists|i: int| 0 <= i < s.len() && s[i].0@ == k
}

/// The index of the entry holding key `k`.
pub open spec fn spec_index_of(s: Seq<(Key, DbValue)>, k: Seq<u8>) -> int {
    choose|i: int| 0 <= i < s.len() && s[i].0@ == k
}

/// No two entries of `s` hold the same key.
pub open spec fn spec_unique_keys(s: Seq<(Key, DbValue)>) -> bool {
    forall|i: int, j: int| 0 <= i < j < s.len() ==> s[i].0@ != s[j].0@
}

/// Some element of `s` is the key `k`.
pub open spec fn spec_has_ttl_key(s: Seq<Key>, k: Seq<u8>) -> bool {
    exists|i: int| 0 <= i < s.len() && s[i]@ == k
}

/// No two elements of `s` are the same key.
pub open spec fn spec_unique_ttl_keys(s: Seq<Key>) -> bool {
    forall|i: int, j: int| 0 <= i < j < s.len() ==> s[i]@ != s[j]@
}

/// The map an entry list denotes.
pub open spec fn spec_entries_map(s: Seq<(Key, DbValue)>) -> Map<Seq<u8>, (Seq<u8>, Option<u128>)> {
    Map::new(|k: Seq<u8>| spec_has_key(s, k), |k: Seq<u8>| s[spec_index_of(s, k)].1@)
}

/// The set a key list denotes.
pub open spec fn spec_keys_set(s: Seq<Key>) -> Set<Seq<u8>> {
    Set::new(|k: Seq<u8>| spec_has_ttl_key(s, k))
}

/// The entry `e` has expired at time `now`: it carries a TTL that lies
/// strictly in the past.
pub open spec fn spec_entry_expired(e: (Seq<u8>, Option<u128>), now_millis: u128) -> bool {
    match e.1 {
        Option::Some(t) => t < now_millis,
        Option::None => false,
    }
}

/// The map owned by the storage actor, with its TTL index.
#[derive(Debug)]
pub struct MainDB {
    db: Vec<(Key, DbValue)>,
    keys_with_ttl: Vec<Key>,
}

impl MainDB {
    /// The key→entry map this store denotes.
    pub closed spec fn spec_main(self) -> Map<Seq<u8>, (Seq<u8>, Option<u128>)> {
        spec_entries_map(self.db@)
    }

    /// The set of keys in the TTL index.
    pub closed spec fn spec_ttl_keys(self) -> Set<Seq<u8>> {
        spec_keys_set(self.keys_with_ttl@)
    }

    /// Well-formedness: keys are unique in both containers, and a key stands
    /// in the TTL index exactly when the map holds an entry for it that
    /// carries a TTL.
    pub closed spec fn wf(self) -> bool {
        &&& spec_unique_keys(self.db@)
        &&& spec_unique_ttl_keys(self.keys_with_ttl@)
        &&& forall|k: Seq<u8>|
            #[trigger] self.spec_ttl_keys().contains(k) <==> (self.spec_main().dom().contains(k)
                && self.spec_main()[k].1 is Some)
    }

    pub fn new() -> (r: Self)
        ensures
            r.wf(),
            r.spec_main() =~= Map::<Seq<u8>, (Seq<u8>, Option<u128>)>::empty(),
            r.spec_ttl_keys() =~= Set::<Seq<u8>>::empty(),
    {
        MainDB { db: Vec::new(), keys_with_ttl: Vec::new() }
    }

    /// The index of the entry holding `key`, if one does.
    fn find_index(&self, key: &Key) -> (r: Option<usize>)
        ensures
            match r {
                Option::Some(i) => i < self.db@.len() && self.db@[i as int].0@ == key@,
                Option::None => !spec_has_key(self.db@, key@),
            },
    {
        let n = self.db.len();
        let mut i: usize = 0;
        while i < n
            invariant
                n == self.db@.len(),
                i <= n,
                forall|j: int| 0 <= j < i ==> self.db@[j].0@ != key@,
            decreases n - i,
        {
            if self.db[i].0 == *key {
                return Option::Some(i);
            }
            i = i + 1;
        }
        Option::None
    }

    /// The position of `key` in the TTL index, if it stands there.
    fn find_ttl_index(&self, key: &Key) -> (r: Option<usize>)
        ensures
            match r {
                Option::Some(i) => i < self.keys_with_ttl@.len() && self.keys_with_ttl@[i as int]@
                    == key@,
                Option::None => !spec_has_ttl_key(self.keys_with_ttl@, key@),
            },
    {
        let n = self.keys_with_ttl.len();
        let mut i: usize = 0;
        while i < n
            invariant
                n == self.keys_with_ttl@.len(),
                i <= n,
                forall|j: int| 0 <= j < i ==> self.keys_with_ttl@[j]@ != key@,
            decreases n - i,
        {
            if self.keys_with_ttl[i] == *key {
                return Option::Some(i);
            }
            i = i + 1;
        }
        Option::None
    }

    /// Existence check. It does not honour expiry: an expired entry that no
    /// read has touched yet still counts as present.
    pub fn contains_key(&self, key: &Key) -> (r: bool)
        ensures
            r == self.spec_main().dom().contains(key@),
    {
        match self.find_index(key) {
            Option::Some(i) => {
                proof {
                    assert(spec_has_key(self.db@, key@));
                }
                true
            },
            Option::None => false,
        }
    }

    /// Look `key` up at time `now_millis`. A hit returns a copy of the
    /// entry; an entry whose TTL has elapsed is removed from both containers
    /// and reported as a miss.
    pub fn get(&mut self, key: &Key, now_millis: u128) -> (r: Option<DbValue>)
        requires
            old(self).wf(),
        ensures
            final(self).wf(),
            ({
                let m = old(self).spec_main();
                if m.dom().contains(key@) {
                    if spec_entry_expired(m[key@], now_millis) {
                        &&& r is None
                        &&& final(self).spec_main() == m.remove(key@)
                        &&& final(self).spec_ttl_keys() == old(self).spec_ttl_keys().remove(key@)
                    } else {
                        &&& r matches Some(v) && v@ == m[key@]
                        &&& final(self).spec_main() == m
                        &&& final(self).spec_ttl_keys() == old(self).spec_ttl_keys()
                    }
                } else {
                    &&& r is None
                    &&& final(self).spec_main() == m
                    &&& final(self).spec_ttl_keys() == old(self).spec_ttl_keys()
                }
            }),
    {
        match self.find_index(key) {
            Option::None => Option::None,
            Option::Some(i) => {
                proof {
                    lemma_entries_map_index(self.db@, i as int);
                }
                let expired = match &self.db[i].1.ttl_since_unix_epoch_in_millis {
                    Option::Some(t) => *t < now_millis,
                    Option::None => false,
                };
                if expired {
                    self.remove(key);
                    Option::None
                } else {
                    Option::Some(self.db[i].1.clone())
                }
            },
        }
    }

    /// Store `value` under `key` with an optional expiry, judged at time
    /// `now_millis`. An expiry that is not in the future stores nothing.
    /// Storing always overwrites at this level; the caller gates on prior
    /// existence where insert-if-absent is wanted. Overwriting also settles
    /// the TTL index, so that the containers stay coherent either way.
    pub fn insert(
        &mut self,
        key: Key,
        value: Value,
        ttl_since_unix_epoch_in_millis: Option<u128>,
        now_millis: u128,
    )
        requires
            old(self).wf(),
        ensures
            final(self).wf(),
            ({
                let m = old(self).spec_main();
                let t = old(self).spec_ttl_keys();
                if ttl_since_unix_epoch_in_millis matches Option::Some(exp) && exp
                    <= now_millis {
                    &&& final(self).spec_main() == m
                    &&& final(self).spec_ttl_keys() == t
                } else {
                    &&& final(self).spec_main() == m.insert(
                        key@,
                        (value@, ttl_since_unix_epoch_in_millis),
                    )
                    &&& final(self).spec_ttl_keys() == (
                    if ttl_since_unix_epoch_in_millis is Some {
                        t.insert(key@)
                    } else {
                        t.remove(key@)
                    })
                }
            }),
    {
        let has_ttl = match ttl_since_unix_epoch_in_millis {
            Option::Some(exp) => {
                if exp <= now_millis {
                    return ;
                }
                true
            },
            Option::None => false,
        };
        if has_ttl {
            match self.find_ttl_index(&key) {
                Option::Some(_) => (),
                Option::None => {
                    let ghost before = self.keys_with_ttl@;
                    self.keys_with_ttl.push(key.clone());
                    proof {
                        lemma_keys_set_push(before, self.keys_with_ttl@[before.len() as int]);
                    }
                },
            }
            proof {
                assert(spec_keys_set(self.keys_with_ttl@) =~= spec_keys_set(
                    old(self).keys_with_ttl@,
                ).insert(key@));
                assert(spec_unique_ttl_keys(self.keys_with_ttl@));
            }
        } else {
            match self.find_ttl_index(&key) {
                Option::Some(i) => {
                    let ghost before = self.keys_with_ttl@;
                    self.keys_with_ttl.remove(i);
                    proof {
                        lemma_keys_set_remove(before, i as int);
                    }
                },
                Option::None => (),
            }
            proof {
                assert(spec_keys_set(self.keys_with_ttl@) =~= spec_keys_set(
                    old(self).keys_with_ttl@,
                ).remove(key@));
                assert(spec_unique_ttl_keys(self.keys_with_ttl@));
            }
        }
        let entry = DbValue { value, ttl_since_unix_epoch_in_millis };
        match self.find_index(&key) {
            Option::Some(i) => {
                let ghost before = self.db@;
                self.db.set(i, (key, entry));
                proof {
                    lemma_entries_map_set(before, i as int, self.db@[i as int]);
                }
            },
            Option::None => {
                let ghost before = self.db@;
                self.db.push((key, entry));
                proof {
                    lemma_entries_map_push(before, self.db@[before.len() as int]);
                }
            },
        }
        proof {
            assert forall|k: Seq<u8>|
                #[trigger] self.spec_ttl_keys().contains(k) <==> (self.spec_main().dom().contains(
                    k,
                ) && self.spec_main()[k].1 is Some) by {
                if k != key@ {
                    assert(self.spec_ttl_keys().contains(k) == old(self).spec_ttl_keys().contains(
                        k,
                    ));
                    assert(self.spec_main().dom().contains(k) == old(
                        self,
                    ).spec_main().dom().contains(k));
                    if self.spec_main().dom().contains(k) {
                        assert(self.spec_main()[k] == old(self).spec_main()[k]);
                    }
                }
            }
        }
    }

    /// Drop `key` from both containers.
    pub fn remove(&mut self, key: &Key)
        requires
            old(self).wf(),
        ensures
            final(self).wf(),
            final(self).spec_main() == old(self).spec_main().remove(key@),
            final(self).spec_ttl_keys() == old(self).spec_ttl_keys().remove(key@),
    {
        match self.find_index(key) {
            Option::Some(i) => {
                let ghost before = self.db@;
                self.db.remove(i);
                proof {
                    lemma_entries_map_remove(before, i as int);
                }
            },
            Option::None => {
                proof {
                    assert(self.spec_main() =~= self.spec_main().remove(key@));
                }
            },
        }
        match self.find_ttl_index(key) {
            Option::Some(i) => {
                let ghost before = self.keys_with_ttl@;
                self.keys_with_ttl.remove(i);
                proof {
                    lemma_keys_set_remove(before, i as int);
                }
            },
            Option::None => {
                proof {
                    assert(self.spec_ttl_keys() =~= self.spec_ttl_keys().remove(key@));
                }
            },
        }
        proof {
            assert forall|k: Seq<u8>|
                #[trigger] self.spec_ttl_keys().contains(k) <==> (self.spec_main().dom().contains(
                    k,
                ) && self.spec_main()[k].1 is Some) by {
                if k != key@ {
                    assert(self.spec_ttl_keys().contains(k) == old(self).spec_ttl_keys().contains(
                        k,
                    ));
                    assert(self.spec_main().dom().contains(k) == old(
                        self,
                    ).spec_main().dom().contains(k));
                    if self.spec_main().dom().contains(k) {
                        assert(self.spec_main()[k] == old(self).spec_main()[k]);
                    }
                }
            }
        }
    }

    /// Empty both containers.
    pub fn clear(&mut self)
        ensures
            final(self).wf(),
            final(self).spec_main() =~= Map::<Seq<u8>, (Seq<u8>, Option<u128>)>::empty(),
            final(self).spec_ttl_keys() =~= Set::<Seq<u8>>::empty(),
    {
        self.db.clear();
        self.keys_with_ttl.clear();
    }

    /// One actor step: apply a message at time `now_millis` and produce the
    /// reply it owes, if any.
    pub fn handle_request(&mut self, request: DbRequest, now_millis: u128) -> (r: Option<
        DbResponse,
    >)
        requires
            old(self).wf(),
        ensures
            final(self).wf(),
            match request {
                DbRequest::Get(key) => ({
                    let m = old(self).spec_main();
                    if m.dom().contains(key@) {
                        if spec_entry_expired(m[key@], now_millis) {
                            &&& r is None
                            &&& final(self).spec_main() == m.remove(key@)
                            &&& final(self).spec_ttl_keys() == old(self).spec_ttl_keys().remove(
                                key@,
                            )
                        } else {
                            &&& r matches Some(DbResponse::Get(v)) && v@ == m[key@]
                            &&& final(self).spec_main() == m
                            &&& final(self).spec_ttl_keys() == old(self).spec_ttl_keys()
                        }
                    } else {
                        &&& r is None
                        &&& final(self).spec_main() == m
                        &&& final(self).spec_ttl_keys() == old(self).spec_ttl_keys()
                    }
                }),
                DbRequest::Insert { key, value, ttl } => ({
                    &&& r is None
                    &&& (if ttl matches Option::Some(exp) && exp <= now_millis {
                        &&& final(self).spec_main() == old(self).spec_main()
                        &&& final(self).spec_ttl_keys() == old(self).spec_ttl_keys()
                    } else {
                        &&& final(self).spec_main() == old(self).spec_main().insert(
                            key@,
                            (value@, ttl),
                        )
                        &&& final(self).spec_ttl_keys() == (
                        if ttl is Some {
                            old(self).spec_ttl_keys().insert(key@)
                        } else {
                            old(self).spec_ttl_keys().remove(key@)
                        })
                    })
                }),
                DbRequest::Remove(key) => {
                    &&& r is None
                    &&& final(self).spec_main() == old(self).spec_main().remove(key@)
                    &&& final(self).spec_ttl_keys() == old(self).spec_ttl_keys().remove(key@)
                },
                DbRequest::ContainsKey(key) => {
                    &&& r matches Some(DbResponse::ContainsKey(b)) && b == old(
                        self,
                    ).spec_main().dom().contains(key@)
                    &&& final(self).spec_main() == old(self).spec_main()
                    &&& final(self).spec_ttl_keys() == old(self).spec_ttl_keys()
                },
                DbRequest::Clear => {
                    &&& r is None
                    &&& final(self).spec_main() =~= Map::<Seq<u8>, (Seq<u8>, Option<u128>)>::empty()
                    &&& final(self).spec_ttl_keys() =~= Set::<Seq<u8>>::empty()
                },
            },
    {
        match request {
            DbRequest::Get(key) => match self.get(&key, now_millis) {
                Option::Some(v) => Option::Some(DbResponse::Get(v)),
                Option::None => Option::None,
            },
            DbRequest::Insert { key, value, ttl } => {
                self.insert(key, value, ttl, now_millis);
                Option::None
            },
            DbRequest::ContainsKey(key) => Option::Some(
                DbResponse::ContainsKey(self.contains_key(&key)),
            ),
            DbRequest::Remove(key) => {
                self.remove(&key);
                Option::None
            },
            DbRequest::Clear => {
                self.clear();
                Option::None
            },
        }
    }
}

/// The entry at index `i` is what the denoted map holds under its key.
proof fn lemma_entries_map_index(s: Seq<(Key, DbValue)>, i: int)
    requires
        spec_unique_keys(s),
        0 <= i < s.len(),
    ensures
        spec_entries_map(s).dom().contains(s[i].0@),
        spec_entries_map(s)[s[i].0@] == s[i].1@,
{
    let k = s[i].0@;
    assert(spec_has_key(s, k));
    let j = spec_index_of(s, k);
    assert(0 <= j < s.len() && s[j].0@ == k);
    assert(j == i);
}

/// Appending an entry under a fresh key inserts it into the denoted map.
proof fn lemma_entries_map_push(s: Seq<(Key, DbValue)>, e: (Key, DbValue))
    requires
        spec_unique_keys(s),
        !spec_has_key(s, e.0@),
    ensures
        spec_unique_keys(s.push(e)),
        spec_entries_map(s.push(e)) =~= spec_entries_map(s).insert(e.0@, e.1@),
{
    let s2 = s.push(e);
    assert forall|x: Seq<u8>| spec_has_key(s2, x) <==> (spec_has_key(s, x) || x == e.0@) by {
        if spec_has_key(s2, x) {
            let i = choose|i: int| 0 <= i < s2.len() && s2[i].0@ == x;
            if i < s.len() {
                assert(s[i].0@ == x);
            }
        }
        if spec_has_key(s, x) {
            let i = choose|i: int| 0 <= i < s.len() && s[i].0@ == x;
            assert(s2[i].0@ == x);
        }
        if x == e.0@ {
            assert(s2[s.len() as int].0@ == x);
        }
    }
    assert forall|x: Seq<u8>| #[trigger] spec_entries_map(s2).dom().contains(x) implies
        spec_entries_map(s2)[x] == spec_entries_map(s).insert(e.0@, e.1@)[x] by {
        let i = spec_index_of(s2, x);
        assert(0 <= i < s2.len() && s2[i].0@ == x);
        if x == e.0@ {
            assert(i == s.len());
        } else {
            assert(i < s.len());
            lemma_entries_map_index(s, i);
        }
    }
}

/// Replacing the entry at index `i` by one with the same key updates the
/// denoted map at that key.
proof fn lemma_entries_map_set(s: Seq<(Key, DbValue)>, i: int, e: (Key, DbValue))
    requires
        spec_unique_keys(s),
        0 <= i < s.len(),
        e.0@ == s[i].0@,
    ensures
        spec_unique_keys(s.update(i, e)),
        spec_entries_map(s.update(i, e)) =~= spec_entries_map(s).insert(e.0@, e.1@),
{
    let s2 = s.update(i, e);
    assert forall|x: Seq<u8>| spec_has_key(s2, x) <==> spec_has_key(s, x) by {
        if spec_has_key(s2, x) {
            let j = choose|j: int| 0 <= j < s2.len() && s2[j].0@ == x;
            assert(s[j].0@ == x);
        }
        if spec_has_key(s, x) {
            let j = choose|j: int| 0 <= j < s.len() && s[j].0@ == x;
            assert(s2[j].0@ == x);
        }
    }
    assert forall|x: Seq<u8>| #[trigger] spec_entries_map(s2).dom().contains(x) implies
        spec_entries_map(s2)[x] == spec_entries_map(s).insert(e.0@, e.1@)[x] by {
        let j = spec_index_of(s2, x);
        assert(0 <= j < s2.len() && s2[j].0@ == x);
        if x == e.0@ {
            assert(j == i);
        } else {
            assert(j != i);
            assert(s[j].0@ == x);
            lemma_entries_map_index(s, j);
        }
    }
}

/// Dropping the entry at index `i` removes its key from the denoted map.
proof fn lemma_entries_map_remove(s: Seq<(Key, DbValue)>, i: int)
    requires
        spec_unique_keys(s),
        0 <= i < s.len(),
    ensures
        spec_unique_keys(s.remove(i)),
        spec_entries_map(s.remove(i)) =~= spec_entries_map(s).remove(s[i].0@),
{
    let s2 = s.remove(i);
    assert forall|x: Seq<u8>| spec_has_key(s2, x) <==> (spec_has_key(s, x) && x != s[i].0@) by {
        if spec_has_key(s2, x) {
            let j = choose|j: int| 0 <= j < s2.len() && s2[j].0@ == x;
            if j < i {
                assert(s[j].0@ == x);
            } else {
                assert(s[j + 1].0@ == x);
            }
        }
        if spec_has_key(s, x) && x != s[i].0@ {
            let j = choose|j: int| 0 <= j < s.len() && s[j].0@ == x;
            if j < i {
                assert(s2[j].0@ == x);
            } else {
                assert(j > i);
                assert(s2[j - 1].0@ == x);
            }
        }
    }
    assert forall|x: Seq<u8>| #[trigger] spec_entries_map(s2).dom().contains(x) implies
        spec_entries_map(s2)[x] == spec_entries_map(s).remove(s[i].0@)[x] by {
        let j = spec_index_of(s2, x);
        assert(0 <= j < s2.len() && s2[j].0@ == x);
        if j < i {
            lemma_entries_map_index(s, j);
        } else {
            assert(s[j + 1].0@ == x);
            lemma_entries_map_index(s, j + 1);
        }
    }
}

/// Appending a fresh key inserts it into the denoted set.
proof fn lemma_keys_set_push(s: Seq<Key>, e: Key)
    requires
        !spec_has_ttl_key(s, e@),
    ensures
        spec_keys_set(s.push(e)) =~= spec_keys_set(s).insert(e@),
        spec_unique_ttl_keys(s) ==> spec_unique_ttl_keys(s.push(e)),
{
    let s2 = s.push(e);
    assert forall|x: Seq<u8>| spec_has_ttl_key(s2, x) <==> (spec_has_ttl_key(s, x) || x == e@) by {
        if spec_has_ttl_key(s2, x) {
            let i = choose|i: int| 0 <= i < s2.len() && s2[i]@ == x;
            if i < s.len() {
                assert(s[i]@ == x);
            }
        }
        if spec_has_ttl_key(s, x) {
            let i = choose|i: int| 0 <= i < s.len() && s[i]@ == x;
            assert(s2[i]@ == x);
        }
        if x == e@ {
            assert(s2[s.len() as int]@ == x);
        }
    }
}

/// Dropping the element at index `i` removes that key from the denoted set.
proof fn lemma_keys_set_remove(s: Seq<Key>, i: int)
    requires
        spec_unique_ttl_keys(s),
        0 <= i < s.len(),
    ensures
        spec_unique_ttl_keys(s.remove(i)),
        spec_keys_set(s.remove(i)) =~= spec_keys_set(s).remove(s[i]@),
{
    let s2 = s.remove(i);
    assert forall|x: Seq<u8>| spec_has_ttl_key(s2, x) <==> (spec_has_ttl_key(s, x) && x != s[i]@)
        by {
        if spec_has_ttl_key(s2, x) {
            let j = choose|j: int| 0 <= j < s2.len() && s2[j]@ == x;
            if j < i {
                assert(s[j]@ == x);
            } else {
                assert(s[j + 1]@ == x);
            }
        }
        if spec_has_ttl_key(s, x) && x != s[i]@ {
            let j = choose|j: int| 0 <= j < s.len() && s[j]@ == x;
            if j < i {
                assert(s2[j]@ == x);
            } else {
                assert(j > i);
                assert(s2[j - 1]@ == x);
            }
        }
    }
}

/// The coherence law of the store: a key stands in the TTL index exactly
/// when the map holds an entry for it that carries a TTL.
pub proof fn lemma_ttl_index_coherent(db: MainDB)
    requires
        db.wf(),
    ensures
        forall|k: Seq<u8>|
            db.spec_ttl_keys().contains(k) <==> (db.spec_main().dom().contains(k)
                && db.spec_main()[k].1 is Some),
{
}

/// A value stored with a future expiry is found by a read before the expiry
/// and judged expired — hence missed and dropped — by a read after it.
pub proof fn lemma_insert_then_get(
    m: Map<Seq<u8>, (Seq<u8>, Option<u128>)>,
    k: Seq<u8>,
    v: Seq<u8>,
    ttl: u128,
    now_insert: u128,
    now_get: u128,
)
    requires
        ttl > now_insert,
    ensures
        m.insert(k, (v, Option::Some(ttl))).dom().contains(k),
        m.insert(k, (v, Option::Some(ttl)))[k] == (v, Option::Some(ttl)),
        now_get <= ttl ==> !spec_entry_expired(m.insert(k, (v, Option::Some(ttl)))[k], now_get),
        now_get > ttl ==> spec_entry_expired(m.insert(k, (v, Option::Some(ttl)))[k], now_get),
{
}

/// After a clear, every read misses: the empty map holds no key.
pub proof fn lemma_clear_then_get(k: Seq<u8>)
    ensures
        !Map::<Seq<u8>, (Seq<u8>, Option<u128>)>::empty().dom().contains(k),
        !Set::<Seq<u8>>::empty().contains(k),
{
}

} // verus!
