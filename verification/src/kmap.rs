use vstd::prelude::*;

use crate::key::{key_eq, Key};

verus! {

/// Whether `k` occurs among the keys of the entry list `s`.
pub open spec fn has_key<T>(s: Seq<(Key, T)>, k: Seq<u8>) -> bool {
    exists|i: int| 0 <= i < s.len() && (#[trigger] s[i]).0@ == k
}

/// No two entries of `s` share a key.
pub open spec fn entries_distinct<T>(s: Seq<(Key, T)>) -> bool {
    forall|i: int, j: int| 0 <= i < j < s.len() ==> (#[trigger] s[i]).0@ != (#[trigger] s[j]).0@
}

/// An association map from 32-byte addresses to records: the arena in which
/// ledger records live, viewed as a `Map` from address bytes to records.
pub struct KeyMap<T> {
    entries: Vec<(Key, T)>,
}

impl<T> View for KeyMap<T> {
    type V = Map<Seq<u8>, T>;

    closed spec fn view(&self) -> Map<Seq<u8>, T> {
        Map::new(
            |k: Seq<u8>| has_key(self.entries@, k),
            |k: Seq<u8>|
                {
                    let i = choose|i: int|
                        0 <= i < self.entries@.len() && (#[trigger] self.entries@[i]).0@ == k;
                    self.entries@[i].1
                },
        )
    }
}

impl<T> KeyMap<T> {
    /// The internal entry list carries each key at most once.
    pub closed spec fn wf(&self) -> bool {
        entries_distinct(self.entries@)
    }

    /// The empty arena.
    pub fn new() -> (r: KeyMap<T>)
        ensures
            r.wf(),
            r@ == Map::<Seq<u8>, T>::empty(),
    {
        let r = KeyMap::<T> { entries: Vec::new() };
        proof {
            assert(r@ =~= Map::<Seq<u8>, T>::empty());
        }
        r
    }

    fn index_of(&self, k: &Key) -> (r: Option<usize>)
        ensures
            match r {
                Some(i) => 0 <= i < self.entries@.len() && self.entries@[i as int].0@ == k@,
                None => !has_key(self.entries@, k@),
            },
    {
        let mut i: usize = 0;
        while i < self.entries.len()
            invariant
                0 <= i <= self.entries@.len(),
                forall|j: int| 0 <= j < i ==> (#[trigger] self.entries@[j]).0@ != k@,
            decreases self.entries@.len() - i,
        {
            if key_eq(&self.entries[i].0, k) {
                return Some(i);
            }
            i += 1;
        }
        None
    }

    /// Whether a record lives at address `k`.
    pub fn contains_key(&self, k: &Key) -> (r: bool)
        ensures
            r == self@.dom().contains(k@),
    {
        match self.index_of(k) {
            Some(i) => {
                proof {
                    assert(has_key(self.entries@, k@));
                }
                true
            },
            None => false,
        }
    }

    /// The record at address `k`, if one lives there.
    pub fn get(&self, k: &Key) -> (r: Option<&T>)
        requires
            self.wf(),
        ensures
            match r {
                Some(v) => self@.dom().contains(k@) && *v == self@[k@],
                None => !self@.dom().contains(k@),
            },
    {
        match self.index_of(k) {
            Some(i) => {
                proof {
                    assert(has_key(self.entries@, k@));
                    let j = choose|j: int|
                        0 <= j < self.entries@.len() && (#[trigger] self.entries@[j]).0@ == k@;
                    assert(self.entries@[j].0@ == k@);
                    assert(j == i as int);
                }
                Some(&self.entries[i].1)
            },
            None => None,
        }
    }

    /// Stores `v` at the fresh address `k`.
    pub fn insert(&mut self, k: Key, v: T)
        requires
            old(self).wf(),
            !old(self)@.dom().contains(k@),
        ensures
            final(self).wf(),
            final(self)@ == old(self)@.insert(k@, v),
    {
        self.entries.push((k, v));
        proof {
            let olde = old(self).entries@;
            let newe = self.entries@;
            assert forall|i: int, j: int| 0 <= i < j < newe.len() implies (#[trigger] newe[i]).0@
                != (#[trigger] newe[j]).0@ by {
                if j < olde.len() {
                    assert(newe[i] == olde[i] && newe[j] == olde[j]);
                } else {
                    assert(newe[j].0@ == k@);
                    assert(newe[i] == olde[i]);
                    if olde[i].0@ == k@ {
                        assert(has_key(olde, k@));
                        assert(false);
                    }
                }
            }
            assert forall|k2: Seq<u8>| true implies #[trigger] self@.dom().contains(k2) == old(
                self,
            )@.insert(k@, v).dom().contains(k2) by {
                if k2 == k@ {
                    assert(newe[olde.len() as int].0@ == k@);
                    assert(has_key(newe, k2));
                } else {
                    if has_key(newe, k2) {
                        let i = choose|i: int|
                            0 <= i < newe.len() && (#[trigger] newe[i]).0@ == k2;
                        assert(i < olde.len());
                        assert(olde[i] == newe[i]);
                        assert(has_key(olde, k2));
                    }
                    if has_key(olde, k2) {
                        let i = choose|i: int|
                            0 <= i < olde.len() && (#[trigger] olde[i]).0@ == k2;
                        assert(newe[i] == olde[i]);
                        assert(has_key(newe, k2));
                    }
                }
            }
            assert forall|k2: Seq<u8>| self@.dom().contains(k2) implies #[trigger] self@[k2]
                == old(self)@.insert(k@, v)[k2] by {
                let i = choose|i: int| 0 <= i < newe.len() && (#[trigger] newe[i]).0@ == k2;
                if k2 == k@ {
                    if i < olde.len() {
                        assert(olde[i] == newe[i]);
                        assert(has_key(olde, k@));
                        assert(false);
                    }
                    assert(self@[k2] == v);
                } else {
                    assert(i < olde.len());
                    assert(olde[i] == newe[i]);
                    let j = choose|j: int| 0 <= j < olde.len() && (#[trigger] olde[j]).0@ == k2;
                    assert(olde[j].0@ == k2);
                    if i < j {
                        assert(olde[i].0@ != olde[j].0@);
                    } else if j < i {
                        assert(olde[j].0@ != olde[i].0@);
                    }
                    assert(i == j);
                    assert(old(self)@[k2] == olde[j].1);
                }
            }
            assert(self@ =~= old(self)@.insert(k@, v));
        }
    }

    /// Replaces the record at address `k`, returning the old one.
    pub fn replace(&mut self, k: &Key, v: T) -> (r: T)
        requires
            old(self).wf(),
            old(self)@.dom().contains(k@),
        ensures
            final(self).wf(),
            final(self)@ == old(self)@.insert(k@, v),
            r == old(self)@[k@],
    {
        let r = self.remove_take(k);
        self.insert(*k, v);
        proof {
            assert(self@ =~= old(self)@.insert(k@, v));
        }
        r
    }

    /// Removes and returns the record at address `k`.
    pub fn remove_take(&mut self, k: &Key) -> (r: T)
        requires
            old(self).wf(),
            old(self)@.dom().contains(k@),
        ensures
            final(self).wf(),
            final(self)@ == old(self)@.remove(k@),
            r == old(self)@[k@],
    {
        let i = match self.index_of(k) {
            Some(i) => i,
            None => {
                proof {
                    assert(false);
                }
                0
            },
        };
        let entry = self.entries.remove(i);
        proof {
            let olde = old(self).entries@;
            let newe = self.entries@;
            let iv = i as int;
            assert(newe =~= olde.subrange(0, iv).add(
                olde.subrange(iv + 1, olde.len() as int),
            ));
            assert forall|j: int| 0 <= j < newe.len() implies #[trigger] newe[j] == (if j < iv {
                olde[j]
            } else {
                olde[j + 1]
            }) by {}
            assert forall|p: int, q: int| 0 <= p < q < newe.len() implies (#[trigger] newe[p]).0@
                != (#[trigger] newe[q]).0@ by {}
            // r is the value stored at k
            assert(olde[iv].0@ == k@);
            let j = choose|j: int| 0 <= j < olde.len() && (#[trigger] olde[j]).0@ == k@;
            if j < iv {
                assert(olde[j].0@ != olde[iv].0@);
            } else if iv < j {
                assert(olde[iv].0@ != olde[j].0@);
            }
            assert(j == iv);
            assert(entry == olde[iv]);
            // the view lost exactly k
            assert forall|k2: Seq<u8>| true implies #[trigger] self@.dom().contains(k2) == old(
                self,
            )@.remove(k@).dom().contains(k2) by {
                if k2 == k@ {
                    if has_key(newe, k2) {
                        let p = choose|p: int|
                            0 <= p < newe.len() && (#[trigger] newe[p]).0@ == k2;
                        if p < iv {
                            assert(olde[p].0@ == k@);
                            assert(olde[p].0@ != olde[iv].0@);
                        } else {
                            assert(olde[p + 1].0@ == k@);
                            assert(olde[iv].0@ != olde[p + 1].0@);
                        }
                        assert(false);
                    }
                } else {
                    if has_key(newe, k2) {
                        let p = choose|p: int|
                            0 <= p < newe.len() && (#[trigger] newe[p]).0@ == k2;
                        if p < iv {
                            assert(has_key(olde, k2));
                        } else {
                            assert(olde[p + 1].0@ == k2);
                            assert(has_key(olde, k2));
                        }
                    }
                    if has_key(olde, k2) {
                        let p = choose|p: int|
                            0 <= p < olde.len() && (#[trigger] olde[p]).0@ == k2;
                        assert(p != iv);
                        if p < iv {
                            assert(newe[p].0@ == k2);
                        } else {
                            assert(newe[p - 1] == olde[p]);
                        }
                        assert(has_key(newe, k2));
                    }
                }
            }
            assert forall|k2: Seq<u8>| self@.dom().contains(k2) implies #[trigger] self@[k2]
                == old(self)@.remove(k@)[k2] by {
                let p = choose|p: int| 0 <= p < newe.len() && (#[trigger] newe[p]).0@ == k2;
                let po = if p < iv {
                    p
                } else {
                    p + 1
                };
                assert(olde[po] == newe[p]);
                let q = choose|q: int| 0 <= q < olde.len() && (#[trigger] olde[q]).0@ == k2;
                assert(olde[q].0@ == k2);
                if po < q {
                    assert(olde[po].0@ != olde[q].0@);
                } else if q < po {
                    assert(olde[q].0@ != olde[po].0@);
                }
                assert(po == q);
                assert(old(self)@[k2] == olde[q].1);
            }
            assert(self@ =~= old(self)@.remove(k@));
        }
        entry.1
    }
}

} // verus!
