use vstd::prelude::*;

use crate::matcher::same_text;

verus! {

/// A map from text keys to positions, kept as two parallel vectors with unique keys.
pub struct KeyIndex {
    keys: Vec<String>,
    vals: Vec<usize>,
    map: Ghost<Map<Seq<char>, usize>>,
}

impl KeyIndex {
    pub closed spec fn view(&self) -> Map<Seq<char>, usize> {
        self.map@
    }

    pub closed spec fn wf(&self) -> bool {
        &&& self.keys.len() == self.vals.len()
        &&& forall|i: int|
            0 <= i < self.keys.len() ==> self.map@.contains_key(#[trigger] self.keys@[i]@)
                && self.map@[self.keys@[i]@] == self.vals@[i]
        &&& forall|k: Seq<char>|
            #[trigger] self.map@.contains_key(k) ==> exists|i: int|
                0 <= i < self.keys.len() && self.keys@[i]@ == k
        &&& forall|i: int, j: int|
            0 <= i < j < self.keys.len() ==> self.keys@[i]@ != self.keys@[j]@
    }

    pub fn new() -> (r: Self)
        ensures
            r.wf(),
            r.view() == Map::<Seq<char>, usize>::empty(),
    {
        let ghost m = Map::<Seq<char>, usize>::empty();
        KeyIndex { keys: Vec::new(), vals: Vec::new(), map: Ghost(m) }
    }

    fn position(&self, key: &str) -> (r: Option<usize>)
        requires
            self.wf(),
        ensures
            match r {
                Some(i) => i < self.keys.len() && self.keys@[i as int]@ == key@,
                None => !self.view().contains_key(key@),
            },
    {
        let mut i: usize = 0;
        while i < self.keys.len()
            invariant
                self.wf(),
                i <= self.keys.len(),
                forall|j: int| 0 <= j < i ==> self.keys@[j]@ != key@,
            decreases self.keys.len() - i,
        {
            if same_text(self.keys[i].as_str(), key) {
                return Some(i);
            }
            i = i + 1;
        }
        None
    }

    pub fn get(&self, key: &str) -> (r: Option<usize>)
        requires
            self.wf(),
        ensures
            r == (if self.view().contains_key(key@) {
                Some(self.view()[key@])
            } else {
                None
            }),
    {
        match self.position(key) {
            Some(i) => Some(self.vals[i]),
            None => None,
        }
    }

    pub fn insert(&mut self, key: &str, value: usize)
        requires
            old(self).wf(),
        ensures
            final(self).wf(),
            final(self).view() == old(self).view().insert(key@, value),
    {
        let ghost m = self.map@.insert(key@, value);
        let pos = self.position(key);
        match pos {
            Some(i) => {
                self.vals.set(i, value);
            },
            None => {
                self.keys.push(key.to_owned());
                self.vals.push(value);
            },
        }
        self.map = Ghost(m);
        proof {
            assert forall|k: Seq<char>| #[trigger] self.map@.contains_key(k) implies exists|i: int|
                0 <= i < self.keys.len() && self.keys@[i]@ == k by {
                if k == key@ {
                    match pos {
                        Some(i) => {
                            assert(self.keys@[i as int]@ == k);
                        },
                        None => {
                            assert(self.keys@[self.keys.len() - 1]@ == k);
                        },
                    }
                } else {
                    assert(old(self).map@.contains_key(k));
                    let i = choose|i: int| 0 <= i < old(self).keys.len() && old(self).keys@[i]@ == k;
                    assert(self.keys@[i]@ == k);
                }
            }
        }
    }

    pub fn remove(&mut self, key: &str)
        requires
            old(self).wf(),
        ensures
            final(self).wf(),
            final(self).view() == old(self).view().remove(key@),
    {
        let ghost m = self.map@.remove(key@);
        match self.position(key) {
            Some(i) => {
                self.keys.remove(i);
                self.vals.remove(i);
            },
            None => {},
        }
        self.map = Ghost(m);
        proof {
            assert forall|k: Seq<char>| #[trigger] self.map@.contains_key(k) implies exists|i: int|
                0 <= i < self.keys.len() && self.keys@[i]@ == k by {
                assert(old(self).map@.contains_key(k));
                let j = choose|j: int| 0 <= j < old(self).keys.len() && old(self).keys@[j]@ == k;
                if self.keys.len() < old(self).keys.len() {
                    let p = choose|p: int| 0 <= p < old(self).keys.len() && old(self).keys@[p]@ == key@;
                    if j < p {
                        assert(self.keys@[j]@ == k);
                    } else {
                        assert(j != p);
                        assert(self.keys@[j - 1]@ == k);
                    }
                } else {
                    assert(self.keys@[j]@ == k);
                }
            }
        }
    }
}

} // verus!
