//! A key-value store keyed by account identity: one entry per account,
//! entries kept in the order they were first written.
use vstd::prelude::*;
use crate::account::AccountId;

verus! {

/// Entries of type `V` keyed by account, seen as a map from account bytes to entries.
pub struct AccountMap<V> {
    keys: Vec<AccountId>,
    vals: Vec<V>,
    contents: Ghost<Map<Seq<u8>, V>>,
}

impl<V> View for AccountMap<V> {
    type V = Map<Seq<u8>, V>;

    closed spec fn view(&self) -> Map<Seq<u8>, V> {
        self.contents@
    }
}

impl<V: Copy> AccountMap<V> {
    /// Keys are distinct, each key's entry is in the contents, and nothing else is.
    pub closed spec fn wf(&self) -> bool {
        &&& self.keys@.len() == self.vals@.len()
        &&& forall|i: int, j: int|
            0 <= i < j < self.keys@.len() ==> self.keys@[i]@ != self.keys@[j]@
        &&& forall|i: int|
            0 <= i < self.keys@.len() ==> {
                &&& #[trigger] self.contents@.contains_key(self.keys@[i]@)
                &&& self.contents@[self.keys@[i]@] == self.vals@[i]
            }
        &&& forall|k: Seq<u8>|
            #[trigger] self.contents@.contains_key(k) ==> exists|i: int|
                0 <= i < self.keys@.len() && self.keys@[i]@ == k
    }

    pub fn new() -> (r: AccountMap<V>)
        ensures
            r.wf(),
            r@ == Map::<Seq<u8>, V>::empty(),
    {
        AccountMap { keys: Vec::new(), vals: Vec::new(), contents: Ghost(Map::empty()) }
    }

    fn find(&self, k: &AccountId) -> (r: Option<usize>)
        requires
            self.wf(),
        ensures
            match r {
                Some(i) => i < self.keys@.len() && self.keys@[i as int]@ == k@,
                None => !self@.contains_key(k@),
            },
    {
        let mut i: usize = 0;
        while i < self.keys.len()
            invariant
                self.wf(),
                i <= self.keys@.len(),
                forall|j: int| 0 <= j < i ==> self.keys@[j]@ != k@,
            decreases self.keys@.len() - i,
        {
            if self.keys[i].same(k) {
                return Some(i);
            }
            i = i + 1;
        }
        None
    }

    /// The entry stored under `k`, if any.
    pub fn get(&self, k: &AccountId) -> (r: Option<V>)
        requires
            self.wf(),
        ensures
            r == (if self@.contains_key(k@) { Some(self@[k@]) } else { None::<V> }),
    {
        match self.find(k) {
            Some(i) => {
                assert(self.contents@.contains_key(self.keys@[i as int]@));
                Some(self.vals[i])
            },
            None => None,
        }
    }

    /// Whether an entry is stored under `k`.
    pub fn contains_key(&self, k: &AccountId) -> (r: bool)
        requires
            self.wf(),
        ensures
            r == self@.contains_key(k@),
    {
        match self.find(k) {
            Some(i) => {
                assert(self.contents@.contains_key(self.keys@[i as int]@));
                true
            },
            None => false,
        }
    }

    /// Stores `v` under `k`, replacing what was there.
    pub fn set(&mut self, k: &AccountId, v: V)
        requires
            old(self).wf(),
        ensures
            final(self).wf(),
            final(self)@ == old(self)@.insert(k@, v),
    {
        match self.find(k) {
            Some(i) => {
                self.vals.set(i, v);
                self.contents = Ghost(self.contents@.insert(k@, v));
                assert forall|key: Seq<u8>| #[trigger] self.contents@.contains_key(key) implies
                    exists|j: int| 0 <= j < self.keys@.len() && self.keys@[j]@ == key by {
                    if key != k@ {
                        assert(old(self).contents@.contains_key(key));
                        let j = choose|j: int| 0 <= j < old(self).keys@.len() && old(self).keys@[j]@ == key;
                        assert(self.keys@[j]@ == key);
                    } else {
                        assert(self.keys@[i as int]@ == key);
                    }
                }
                assert forall|j: int| 0 <= j < self.keys@.len() implies {
                    &&& #[trigger] self.contents@.contains_key(self.keys@[j]@)
                    &&& self.contents@[self.keys@[j]@] == self.vals@[j]
                } by {
                    if j != i {
                        assert(old(self).contents@.contains_key(old(self).keys@[j]@));
                    }
                }
            },
            None => {
                self.keys.push(k.clone());
                self.vals.push(v);
                self.contents = Ghost(self.contents@.insert(k@, v));
                let ghost n = self.keys@.len() - 1;
                assert forall|key: Seq<u8>| #[trigger] self.contents@.contains_key(key) implies
                    exists|j: int| 0 <= j < self.keys@.len() && self.keys@[j]@ == key by {
                    if key != k@ {
                        assert(old(self).contents@.contains_key(key));
                        let j = choose|j: int| 0 <= j < old(self).keys@.len() && old(self).keys@[j]@ == key;
                        assert(self.keys@[j]@ == key);
                    } else {
                        assert(self.keys@[n]@ == key);
                    }
                }
                assert forall|i: int| 0 <= i < self.keys@.len() implies {
                    &&& #[trigger] self.contents@.contains_key(self.keys@[i]@)
                    &&& self.contents@[self.keys@[i]@] == self.vals@[i]
                } by {
                    if i < n {
                        assert(old(self).contents@.contains_key(old(self).keys@[i]@));
                    }
                }
            },
        }
    }

    /// Removes the entry stored under `k`, if any.
    pub fn remove(&mut self, k: &AccountId)
        requires
            old(self).wf(),
        ensures
            final(self).wf(),
            final(self)@ == old(self)@.remove(k@),
    {
        match self.find(k) {
            Some(i) => {
                let ghost ok = self.keys@;
                self.keys.remove(i);
                self.vals.remove(i);
                self.contents = Ghost(self.contents@.remove(k@));
                assert forall|a: int, b: int|
                    0 <= a < b < self.keys@.len() implies self.keys@[a]@ != self.keys@[b]@ by {
                    let oa = if a < i { a } else { a + 1 };
                    let ob = if b < i { b } else { b + 1 };
                    assert(ok[oa]@ != ok[ob]@);
                }
                assert forall|a: int| 0 <= a < self.keys@.len() implies {
                    &&& #[trigger] self.contents@.contains_key(self.keys@[a]@)
                    &&& self.contents@[self.keys@[a]@] == self.vals@[a]
                } by {
                    let oa = if a < i { a } else { a + 1 };
                    assert(ok[oa]@ != ok[i as int]@);
                    assert(old(self).contents@.contains_key(ok[oa]@));
                }
                assert forall|key: Seq<u8>| #[trigger] self.contents@.contains_key(key) implies
                    exists|j: int| 0 <= j < self.keys@.len() && self.keys@[j]@ == key by {
                    assert(old(self).contents@.contains_key(key));
                    let j = choose|j: int| 0 <= j < ok.len() && ok[j]@ == key;
                    assert(j != i);
                    if j < i {
                        assert(self.keys@[j]@ == key);
                    } else {
                        assert(self.keys@[j - 1]@ == key);
                    }
                }
            },
            None => {
                assert(self.contents@.remove(k@) =~= self.contents@);
            },
        }
    }
}

} // verus!
