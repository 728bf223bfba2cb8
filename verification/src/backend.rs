//! The keyspace: string keys, each holding a set of frames.

use crate::resp::{FrameView, RespFrame};
use vstd::prelude::*;

verus! {

/// A set of frames. Two frames are the same member when their values are equal.
pub struct FrameSet {
    items: Vec<RespFrame>,
}

impl View for FrameSet {
    type V = Set<FrameView>;

    closed spec fn view(&self) -> Set<FrameView> {
        self.values().to_set()
    }
}

impl FrameSet {
    /// The members' values, in the order in which they were added.
    closed spec fn values(&self) -> Seq<FrameView> {
        self.items@.map_values(|f: RespFrame| f@)
    }

    #[verifier::type_invariant]
    spec fn no_member_twice(&self) -> bool {
        self.values().no_duplicates()
    }

    /// A set of frames has finitely many members.
    pub proof fn lemma_finite(self)
        ensures
            self@.finite(),
    {
        vstd::seq_lib::seq_to_set_is_finite(self.values());
    }

    /// The empty set.
    pub fn new() -> (s: FrameSet)
        ensures
            s@ == Set::<FrameView>::empty(),
    {
        let s = FrameSet { items: Vec::new() };
        assert(s@ =~= Set::<FrameView>::empty());
        s
    }

    /// The number of members.
    pub fn len(&self) -> (n: usize)
        ensures
            self@.finite(),
            n == self@.len(),
    {
        proof {
            use_type_invariant(self);
            self.values().unique_seq_to_set();
        }
        self.items.len()
    }

    /// Whether `member` is in the set.
    pub fn contains(&self, member: &RespFrame) -> (found: bool)
        ensures
            found == self@.contains(member@),
    {
        let mut i: usize = 0;
        while i < self.items.len()
            invariant
                i <= self.items.len(),
                forall|j: int| 0 <= j < i ==> self.values()[j] != member@,
            decreases self.items.len() - i,
        {
            if self.items[i].same_as(member) {
                assert(self.values()[i as int] == member@);
                return true;
            }
            i += 1;
        }
        false
    }

    /// Adds `member` unless an equal frame is already there, and says whether
    /// it was added.
    pub fn insert(&mut self, member: RespFrame) -> (added: bool)
        ensures
            final(self)@ == old(self)@.insert(member@),
            added == !old(self)@.contains(member@),
    {
        if self.contains(&member) {
            assert(self@ =~= self@.insert(member@));
            false
        } else {
            proof {
                use_type_invariant(&*self);
            }
            let ghost before = self.values();
            let mut items: Vec<RespFrame> = Vec::new();
            std::mem::swap(&mut items, &mut self.items);
            items.push(member);
            proof {
                let after = items@.map_values(|f: RespFrame| f@);
                assert(after =~= before.push(member@));
                before.lemma_push_to_set_commute(member@);
            }
            self.items = items;
            true
        }
    }
}

/// What a keyspace holds: for each key that exists, its set of frame values.
pub type StoreView = Map<Seq<char>, Set<FrameView>>;

/// The set stored under `key`; empty when the key does not exist.
pub open spec fn members_at(store: StoreView, key: Seq<char>) -> Set<FrameView> {
    if store.dom().contains(key) {
        store[key]
    } else {
        Set::empty()
    }
}

/// Whether some key of `keys` reads `k`.
spec fn has_key(keys: Seq<String>, k: Seq<char>) -> bool {
    exists|i: int| 0 <= i < keys.len() && keys[i]@ == k
}

/// The place of a key that reads `k`.
spec fn index_of(keys: Seq<String>, k: Seq<char>) -> int {
    choose|i: int| 0 <= i < keys.len() && keys[i]@ == k
}

/// No two keys read the same.
spec fn no_key_twice(keys: Seq<String>) -> bool {
    forall|i: int, j: int| 0 <= i < j < keys.len() ==> keys[i]@ != keys[j]@
}

/// The keyspace in which each key holds the set at the key's own place.
spec fn store_of(keys: Seq<String>, sets: Seq<FrameSet>) -> StoreView {
    Map::new(|k: Seq<char>| has_key(keys, k), |k: Seq<char>| sets[index_of(keys, k)]@)
}

/// Where no key occurs twice, a key is found at its own place.
proof fn lemma_index_of(keys: Seq<String>, at: int)
    requires
        no_key_twice(keys),
        0 <= at < keys.len(),
    ensures
        has_key(keys, keys[at]@),
        index_of(keys, keys[at]@) == at,
{
}

/// Replacing the set at one place changes the keyspace at that place's key only.
proof fn lemma_put(keys: Seq<String>, sets: Seq<FrameSet>, at: int, s: FrameSet)
    requires
        no_key_twice(keys),
        0 <= at < keys.len() == sets.len(),
    ensures
        store_of(keys, sets.update(at, s)) == store_of(keys, sets).insert(keys[at]@, s@),
{
    lemma_index_of(keys, at);
    assert forall|k: Seq<char>| has_key(keys, k) && k != keys[at]@ implies index_of(keys, k)
        != at by {}
    assert(store_of(keys, sets.update(at, s)) =~= store_of(keys, sets).insert(keys[at]@, s@));
}

/// Adding a key that is not there, with a set, adds it to the keyspace.
proof fn lemma_push(keys: Seq<String>, sets: Seq<FrameSet>, key: String, s: FrameSet)
    requires
        no_key_twice(keys),
        keys.len() == sets.len(),
        !has_key(keys, key@),
    ensures
        no_key_twice(keys.push(key)),
        store_of(keys.push(key), sets.push(s)) == store_of(keys, sets).insert(key@, s@),
{
    let keys2 = keys.push(key);
    let n = keys.len() as int;
    assert(keys2[n]@ == key@);
    assert forall|k: Seq<char>| has_key(keys2, k) == (has_key(keys, k) || k == key@) by {
        if has_key(keys, k) {
            assert(keys2[index_of(keys, k)]@ == k);
        }
        if has_key(keys2, k) && k != key@ {
            assert(keys[index_of(keys2, k)]@ == k);
        }
    }
    assert forall|k: Seq<char>| has_key(keys, k) implies index_of(keys2, k) == index_of(
        keys,
        k,
    ) by {
        assert(keys2[index_of(keys, k)]@ == k);
    }
    assert(index_of(keys2, key@) == n);
    assert(store_of(keys2, sets.push(s)) =~= store_of(keys, sets).insert(key@, s@));
}

/// The keyspace of sets.
pub struct Backend {
    keys: Vec<String>,
    sets: Vec<FrameSet>,
}

impl View for Backend {
    type V = StoreView;

    closed spec fn view(&self) -> StoreView {
        store_of(self.keys@, self.sets@)
    }
}

impl Backend {
    #[verifier::type_invariant]
    spec fn well_formed(&self) -> bool {
        &&& self.keys.len() == self.sets.len()
        &&& no_key_twice(self.keys@)
    }

    /// Under every key, and under a key that does not exist, a keyspace
    /// holds finitely many members.
    pub proof fn lemma_sets_finite(self, key: Seq<char>)
        ensures
            members_at(self@, key).finite(),
    {
        if self@.dom().contains(key) {
            self.sets@[index_of(self.keys@, key)].lemma_finite();
        }
    }

    /// A keyspace without keys.
    pub fn new() -> (b: Backend)
        ensures
            b@ == Map::<Seq<char>, Set<FrameView>>::empty(),
    {
        let b = Backend { keys: Vec::new(), sets: Vec::new() };
        assert(b@ =~= Map::<Seq<char>, Set<FrameView>>::empty());
        b
    }

    /// The place of `key`, if it exists.
    fn find(&self, key: &String) -> (at: Option<usize>)
        ensures
            match at {
                Some(i) => i < self.keys.len() && self.keys[i as int]@ == key@,
                None => !has_key(self.keys@, key@),
            },
    {
        let mut i: usize = 0;
        while i < self.keys.len()
            invariant
                i <= self.keys.len(),
                forall|j: int| 0 <= j < i ==> self.keys[j]@ != key@,
            decreases self.keys.len() - i,
        {
            if self.keys[i] == *key {
                return Some(i);
            }
            i += 1;
        }
        None
    }

    /// The set under `key`, if the key exists.
    pub fn get(&self, key: &String) -> (found: Option<&FrameSet>)
        ensures
            match found {
                Some(set) => self@.dom().contains(key@) && set@ == self@[key@],
                None => !self@.dom().contains(key@),
            },
    {
        proof {
            use_type_invariant(self);
        }
        match self.find(key) {
            Some(i) => {
                proof {
                    lemma_index_of(self.keys@, i as int);
                }
                Some(&self.sets[i])
            },
            None => None,
        }
    }

    /// The set under `key`, made empty first where the key does not exist.
    pub fn entry_or_default(&mut self, key: String) -> (set: &mut FrameSet)
        ensures
            set@ == members_at(old(self)@, key@),
            final(self)@ == old(self)@.insert(key@, final(set)@),
    {
        proof {
            use_type_invariant(&*self);
        }
        let at = match self.find(&key) {
            Some(i) => i,
            None => {
                let n = self.keys.len();
                let fresh = FrameSet::new();
                proof {
                    lemma_push(self.keys@, self.sets@, key, fresh);
                }
                let mut taken = Backend::new();
                std::mem::swap(self, &mut taken);
                let Backend { mut keys, mut sets } = taken;
                keys.push(key);
                sets.push(fresh);
                *self = Backend { keys, sets };
                n
            },
        };
        proof {
            lemma_index_of(self.keys@, at as int);
            assert(self@ =~= old(self)@.insert(key@, members_at(old(self)@, key@)));
            assert forall|s: FrameSet| #[trigger]
                store_of(self.keys@, self.sets@.update(at as int, s)) == self@.insert(key@, s@) by {
                lemma_put(self.keys@, self.sets@, at as int, s);
            }
        }
        &mut self.sets[at]
    }
}

} // verus!
