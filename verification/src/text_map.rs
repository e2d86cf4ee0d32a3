//! A map from texts to texts, held as a list of pairs with distinct keys.
use vstd::prelude::*;
use crate::keyed::{
    has_key_at, keys_distinct, lemma_push_distinct, lemma_table_of, lemma_table_push,
    lemma_table_remove, lemma_table_update, table_of,
};
use crate::text::{chars_eq, chars_of};

verus! {

/// Texts keyed by text.
pub struct TextMap {
    entries: Vec<(String, String)>,
}

/// The views of text pairs.
pub open spec fn pair_views(v: Seq<(String, String)>) -> Seq<(Seq<char>, Seq<char>)> {
    v.map_values(|p: (String, String)| (p.0@, p.1@))
}

/// The text stored under `key`, or the empty text.
pub open spec fn text_or_empty(m: Map<Seq<char>, Seq<char>>, key: Seq<char>) -> Seq<char> {
    if m.contains_key(key) {
        m[key]
    } else {
        seq![]
    }
}

impl TextMap {
    /// What the map holds.
    pub closed spec fn view(&self) -> Map<Seq<char>, Seq<char>> {
        table_of(pair_views(self.entries@))
    }

    /// No key is held twice.
    pub closed spec fn wf(&self) -> bool {
        keys_distinct(pair_views(self.entries@))
    }

    /// The empty map.
    pub fn new() -> (r: Self)
        ensures
            r.wf(),
            r.view() == Map::<Seq<char>, Seq<char>>::empty(),
    {
        let r = TextMap { entries: Vec::new() };
        assert(pair_views(r.entries@) =~= Seq::<(Seq<char>, Seq<char>)>::empty());
        r
    }

    /// Where `key` is held, if it is.
    fn position(&self, key: &str) -> (r: Option<usize>)
        requires
            self.wf(),
        ensures
            match r {
                Some(i) => i < self.entries@.len() && self.entries@[i as int].0@ == key@
                    && self.view().contains_key(key@) && self.view()[key@]
                    == self.entries@[i as int].1@,
                None => !self.view().contains_key(key@),
            },
    {
        let k = chars_of(key);
        let ghost pairs = pair_views(self.entries@);
        proof {
            lemma_table_of(pairs);
        }
        let n = self.entries.len();
        let mut i: usize = 0;
        while i < n
            invariant
                n == self.entries@.len(),
                pairs == pair_views(self.entries@),
                keys_distinct(pairs),
                k@ == key@,
                i <= n,
                forall|j: int| 0 <= j < i ==> self.entries@[j].0@ != key@,
                forall|kk: Seq<char>|
                    #[trigger] table_of(pairs).contains_key(kk) <==> exists|j: int|
                        has_key_at(pairs, kk, j),
                forall|j: int| 0 <= j < pairs.len() ==> #[trigger] table_of(pairs)[pairs[j].0]
                    == pairs[j].1,
            decreases n - i,
        {
            let e = chars_of(self.entries[i].0.as_str());
            if chars_eq(e.as_slice(), k.as_slice()) {
                proof {
                    assert(pairs[i as int] == (self.entries@[i as int].0@, self.entries@[i as int].1@));
                    assert(has_key_at(pairs, key@, i as int));
                }
                return Some(i);
            }
            i = i + 1;
        }
        proof {
            if table_of(pairs).contains_key(key@) {
                let j = choose|j: int| has_key_at(pairs, key@, j);
                assert(pairs[j] == (self.entries@[j].0@, self.entries@[j].1@));
            }
        }
        None
    }

    /// The text held under `key`.
    pub fn get(&self, key: &str) -> (r: Option<String>)
        requires
            self.wf(),
        ensures
            match r {
                Some(v) => self.view().contains_key(key@) && self.view()[key@] == v@,
                None => !self.view().contains_key(key@),
            },
    {
        match self.position(key) {
            Some(i) => Some(self.entries[i].1.clone()),
            None => None,
        }
    }

    /// The text held under `key`, or the empty text.
    pub fn get_or_empty(&self, key: &str) -> (r: String)
        requires
            self.wf(),
        ensures
            r@ == text_or_empty(self.view(), key@),
    {
        match self.get(key) {
            Some(v) => v,
            None => String::new(),
        }
    }

    /// Holds `value` under `key`, in place of what was there.
    pub fn insert(&mut self, key: &str, value: &str)
        requires
            old(self).wf(),
        ensures
            final(self).wf(),
            final(self).view() == old(self).view().insert(key@, value@),
    {
        let ghost pairs = pair_views(self.entries@);
        match self.position(key) {
            Some(i) => {
                proof {
                    assert(pairs[i as int] == (self.entries@[i as int].0@, self.entries@[i as int].1@));
                    lemma_table_update(pairs, i as int, value@);
                }
                self.entries.set(i, (key.to_string(), value.to_string()));
                proof {
                    assert(pair_views(self.entries@) =~= pairs.update(i as int, (pairs[i as int].0, value@)));
                }
            },
            None => {
                proof {
                    lemma_push_distinct(pairs, (key@, value@));
                    lemma_table_push(pairs, (key@, value@));
                }
                self.entries.push((key.to_string(), value.to_string()));
                proof {
                    assert(pair_views(self.entries@) =~= pairs.push((key@, value@)));
                }
            },
        }
    }

    /// Drops what is held under `key`.
    pub fn remove(&mut self, key: &str)
        requires
            old(self).wf(),
        ensures
            final(self).wf(),
            final(self).view() == old(self).view().remove(key@),
    {
        let ghost pairs = pair_views(self.entries@);
        match self.position(key) {
            Some(i) => {
                proof {
                    assert(pairs[i as int] == (self.entries@[i as int].0@, self.entries@[i as int].1@));
                    lemma_table_remove(pairs, i as int);
                }
                self.entries.remove(i);
                proof {
                    assert(pair_views(self.entries@) =~= pairs.remove(i as int));
                }
            },
            None => {
                assert(self.view().remove(key@) =~= self.view());
            },
        }
    }
}

} // verus!
