//! A map from texts to values, kept in the order of its keys.

use vstd::prelude::*;
use crate::text::{before, same_text};

verus! {

/// Values under texts, each text once, in the order of the texts.
#[derive(Debug, PartialEq, Eq)]
pub struct TextMap<V> {
    entries: Vec<(String, V)>,
}

impl<V> View for TextMap<V> {
    type V = Map<Seq<char>, V>;

    closed spec fn view(&self) -> Map<Seq<char>, V> {
        Map::new(
            |k: Seq<char>| has_key(self.entries@, k),
            |k: Seq<char>| self.entries@[key_index(self.entries@, k)].1,
        )
    }
}

spec fn key_at<V>(s: Seq<(String, V)>, i: int) -> Seq<char> {
    s[i].0@
}

spec fn has_key<V>(s: Seq<(String, V)>, k: Seq<char>) -> bool {
    exists|i: int| 0 <= i < s.len() && #[trigger] key_at(s, i) == k
}

spec fn key_index<V>(s: Seq<(String, V)>, k: Seq<char>) -> int {
    choose|i: int| 0 <= i < s.len() && #[trigger] key_at(s, i) == k
}

spec fn ordered<V>(s: Seq<(String, V)>) -> bool {
    forall|i: int, j: int|
        0 <= i < j < s.len() ==> crate::text::text_before(
            #[trigger] key_at(s, i),
            #[trigger] key_at(s, j),
        )
}

proof fn lemma_key_index<V>(s: Seq<(String, V)>, i: int)
    requires
        ordered(s),
        0 <= i < s.len(),
    ensures
        has_key(s, key_at(s, i)),
        key_index(s, key_at(s, i)) == i,
{
    let j = key_index(s, key_at(s, i));
    assert(0 <= j < s.len() && key_at(s, j) == key_at(s, i));
    crate::text::lemma_text_order_total(key_at(s, i), key_at(s, j));
}

impl<V> TextMap<V> {
    /// The keys are in order, each once.
    pub closed spec fn wf(&self) -> bool {
        ordered(self.entries@)
    }

    /// The keys in their order.
    pub closed spec fn keys(&self) -> Seq<Seq<char>> {
        Seq::new(self.entries@.len(), |i: int| key_at(self.entries@, i))
    }

    /// The keys are in the order of texts and are those of the map.
    pub proof fn lemma_keys(&self)
        requires
            self.wf(),
        ensures
            forall|i: int, j: int|
                0 <= i < j < self.keys().len() ==> crate::text::text_before(
                    #[trigger] self.keys()[i],
                    #[trigger] self.keys()[j],
                ),
            forall|i: int|
                0 <= i < self.keys().len() ==> self@.dom().contains(#[trigger] self.keys()[i]),
            forall|k: Seq<char>| #[trigger] self@.dom().contains(k) ==> self.keys().contains(k),
    {
        assert forall|i: int, j: int|
            0 <= i < j < self.keys().len() implies crate::text::text_before(
            #[trigger] self.keys()[i],
            #[trigger] self.keys()[j],
        ) by {
            assert(crate::text::text_before(key_at(self.entries@, i), key_at(self.entries@, j)));
        }
        assert forall|i: int| 0 <= i < self.keys().len() implies self@.dom().contains(
            #[trigger] self.keys()[i],
        ) by {
            assert(has_key(self.entries@, key_at(self.entries@, i)));
        }
        assert forall|k: Seq<char>| #[trigger] self@.dom().contains(k) implies self.keys().contains(
            k,
        ) by {
            let i = key_index(self.entries@, k);
            assert(self.keys()[i] == k);
        }
    }

    /// There are as many keys as entries in the map.
    pub proof fn lemma_len(&self)
        requires
            self.wf(),
        ensures
            self@.dom().finite(),
            self@.dom().len() == self.keys().len(),
    {
        self.lemma_keys();
        let keys = self.keys();
        assert forall|i: int, j: int| 0 <= i < j < keys.len() implies keys[i] != keys[j] by {
            crate::text::lemma_text_order_total(keys[i], keys[j]);
        }
        keys.unique_seq_to_set();
        assert(keys.to_set() =~= self@.dom());
    }

    /// A map with nothing in it.
    pub fn new() -> (r: Self)
        ensures
            r.wf(),
            r@ == Map::<Seq<char>, V>::empty(),
            r.keys() == Seq::<Seq<char>>::empty(),
    {
        let r = TextMap { entries: Vec::new() };
        assert(r@ =~= Map::<Seq<char>, V>::empty());
        assert(r.keys() =~= Seq::<Seq<char>>::empty());
        r
    }

    /// How many entries there are.
    pub fn len(&self) -> (r: usize)
        ensures
            r == self.keys().len(),
    {
        self.entries.len()
    }

    /// The key at a place.
    pub fn key(&self, i: usize) -> (r: &String)
        requires
            i < self.keys().len(),
        ensures
            r@ == self.keys()[i as int],
    {
        &self.entries[i].0
    }

    /// The value at a place.
    pub fn value(&self, i: usize) -> (r: &V)
        requires
            self.wf(),
            i < self.keys().len(),
        ensures
            *r == self@[self.keys()[i as int]],
            self@.dom().contains(self.keys()[i as int]),
    {
        proof {
            lemma_key_index(self.entries@, i as int);
        }
        &self.entries[i].1
    }

    /// The place of a key, or the place where it would stand.
    fn place(&self, key: &str) -> (r: (usize, bool))
        requires
            self.wf(),
        ensures
            r.0 <= self.entries@.len(),
            forall|i: int|
                0 <= i < r.0 ==> crate::text::text_before(
                    #[trigger] key_at(self.entries@, i),
                    key@,
                ),
            r.1 ==> r.0 < self.entries@.len() && key_at(self.entries@, r.0 as int) == key@,
            !r.1 ==> forall|i: int|
                r.0 <= i < self.entries@.len() ==> crate::text::text_before(
                    key@,
                    #[trigger] key_at(self.entries@, i),
                ),
    {
        let mut i: usize = 0;
        while i < self.entries.len() && before(self.entries[i].0.as_str(), key)
            invariant
                i <= self.entries@.len(),
                forall|j: int|
                    0 <= j < i ==> crate::text::text_before(
                        #[trigger] key_at(self.entries@, j),
                        key@,
                    ),
            decreases self.entries.len() - i,
        {
            i = i + 1;
        }
        if i < self.entries.len() {
            let found = same_text(self.entries[i].0.as_str(), key);
            proof {
                let here = key_at(self.entries@, i as int);
                crate::text::lemma_text_order_total(here, key@);
                if !found {
                    assert forall|j: int| i <= j < self.entries@.len() implies crate::text::text_before(
                        key@,
                        #[trigger] key_at(self.entries@, j),
                    ) by {
                        if j > i {
                            crate::text::lemma_text_order_transitive(
                                key@,
                                here,
                                key_at(self.entries@, j),
                            );
                        }
                    }
                }
            }
            (i, found)
        } else {
            (i, false)
        }
    }

    proof fn lemma_absent(&self, p: int, key: Seq<char>)
        requires
            0 <= p <= self.entries@.len(),
            forall|i: int|
                0 <= i < p ==> crate::text::text_before(#[trigger] key_at(self.entries@, i), key),
            forall|i: int|
                p <= i < self.entries@.len() ==> crate::text::text_before(
                    key,
                    #[trigger] key_at(self.entries@, i),
                ),
        ensures
            !has_key(self.entries@, key),
            !self@.dom().contains(key),
    {
        if has_key(self.entries@, key) {
            crate::text::lemma_text_order_total(key, key);
        }
    }

    /// The value under a key.
    pub fn get(&self, key: &str) -> (r: Option<&V>)
        requires
            self.wf(),
        ensures
            match r {
                Some(v) => self@.dom().contains(key@) && *v == self@[key@],
                None => !self@.dom().contains(key@),
            },
    {
        let (p, found) = self.place(key);
        if found {
            proof {
                lemma_key_index(self.entries@, p as int);
            }
            Some(&self.entries[p].1)
        } else {
            proof {
                self.lemma_absent(p as int, key@);
            }
            None
        }
    }

    /// Whether there is a value under a key.
    pub fn contains(&self, key: &str) -> (r: bool)
        requires
            self.wf(),
        ensures
            r == self@.dom().contains(key@),
    {
        self.get(key).is_some()
    }

    /// Puts a value under a key, in place of any other there.
    pub fn insert(&mut self, key: String, value: V)
        requires
            old(self).wf(),
        ensures
            final(self).wf(),
            final(self)@ == old(self)@.insert(key@, value),
            old(self)@.dom().contains(key@) ==> final(self).keys() == old(self).keys(),
    {
        let ghost before_it = *self;
        let ghost s = self.entries@;
        let ghost k = key@;
        let (p, found) = self.place(key.as_str());
        if found {
            self.entries.remove(p);
            self.entries.insert(p, (key, value));
            let ghost t = self.entries@;
            proof {
                lemma_key_index(s, p as int);
                assert forall|i: int| 0 <= i < t.len() implies #[trigger] key_at(t, i) == key_at(
                    s,
                    i,
                ) by {}
                assert(ordered(t));
                assert forall|j: Seq<char>| has_key(t, j) == has_key(s, j) by {
                    if has_key(s, j) {
                        assert(key_at(t, key_index(s, j)) == j);
                    }
                    if has_key(t, j) {
                        assert(key_at(s, key_index(t, j)) == j);
                    }
                }
                assert forall|j: Seq<char>| #[trigger] self@.dom().contains(j) implies self@[j]
                    == before_it@.insert(k, value)[j] by {
                    let i = key_index(s, j);
                    lemma_key_index(t, i);
                    lemma_key_index(t, p as int);
                }
                assert(self@ =~= before_it@.insert(k, value));
                assert(self.keys() =~= before_it.keys());
            }
        } else {
            proof {
                before_it.lemma_absent(p as int, k);
            }
            self.entries.insert(p, (key, value));
            let ghost t = self.entries@;
            proof {
                assert forall|i: int| 0 <= i < t.len() implies #[trigger] key_at(t, i) == (if i
                    < p {
                    key_at(s, i)
                } else if i == p {
                    k
                } else {
                    key_at(s, i - 1)
                }) by {}
                assert(ordered(t));
                assert forall|j: Seq<char>| has_key(t, j) == (has_key(s, j) || j == k) by {
                    if has_key(s, j) {
                        let i = key_index(s, j);
                        assert(key_at(t, if i < p {
                            i
                        } else {
                            i + 1
                        }) == j);
                    }
                    if j == k {
                        assert(key_at(t, p as int) == j);
                    }
                    if has_key(t, j) {
                        let i = key_index(t, j);
                        if i < p {
                            assert(key_at(s, i) == j);
                        } else if i > p {
                            assert(key_at(s, i - 1) == j);
                        }
                    }
                }
                assert forall|j: Seq<char>| #[trigger] self@.dom().contains(j) implies self@[j]
                    == before_it@.insert(k, value)[j] by {
                    lemma_key_index(t, p as int);
                    if j != k {
                        let i = key_index(s, j);
                        lemma_key_index(t, if i < p {
                            i
                        } else {
                            i + 1
                        });
                    }
                }
                assert(self@ =~= before_it@.insert(k, value));
            }
        }
    }

    /// Takes away the value under a key, if there is one.
    pub fn remove(&mut self, key: &str)
        requires
            old(self).wf(),
        ensures
            final(self).wf(),
            final(self)@ == old(self)@.remove(key@),
    {
        let ghost before_it = *self;
        let ghost s = self.entries@;
        let ghost k = key@;
        let (p, found) = self.place(key);
        if found {
            self.entries.remove(p);
            let ghost t = self.entries@;
            proof {
                assert forall|i: int| 0 <= i < t.len() implies #[trigger] key_at(t, i) == (if i
                    < p {
                    key_at(s, i)
                } else {
                    key_at(s, i + 1)
                }) by {}
                assert(ordered(t));
                lemma_key_index(s, p as int);
                assert forall|j: Seq<char>| has_key(t, j) == (has_key(s, j) && j != k) by {
                    if has_key(s, j) && j != k {
                        let i = key_index(s, j);
                        assert(key_at(t, if i < p {
                            i
                        } else {
                            i - 1
                        }) == j);
                    }
                    if has_key(t, j) {
                        let i = key_index(t, j);
                        let o = if i < p {
                            i
                        } else {
                            i + 1
                        };
                        assert(key_at(s, o) == j);
                        lemma_key_index(s, o);
                    }
                }
                assert forall|j: Seq<char>| #[trigger] self@.dom().contains(j) implies self@[j]
                    == before_it@.remove(k)[j] by {
                    let i = key_index(s, j);
                    lemma_key_index(t, if i < p {
                        i
                    } else {
                        i - 1
                    });
                }
                assert(self@ =~= before_it@.remove(k));
            }
        } else {
            proof {
                before_it.lemma_absent(p as int, k);
                assert(self@ =~= before_it@.remove(k));
            }
        }
    }
}

} // verus!
