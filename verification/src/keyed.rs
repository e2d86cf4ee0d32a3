//! Text-keyed tables held as sequences of `(key, value)` pairs.
//!
//! A table is a sequence of pairs whose keys are pairwise distinct; it stands
//! for the map from each key to its value.
use vstd::prelude::*;

verus! {

/// No key occurs twice.
pub open spec fn keys_distinct<E>(rs: Seq<(Seq<char>, E)>) -> bool {
    forall|i: int, j: int|
        0 <= i < rs.len() && 0 <= j < rs.len() && i != j ==> #[trigger] rs[i].0 != #[trigger] rs[j].0
}

/// The map that a sequence of pairs stands for (a later pair wins).
pub open spec fn table_of<E>(rs: Seq<(Seq<char>, E)>) -> Map<Seq<char>, E>
    decreases rs.len(),
{
    if rs.len() == 0 {
        Map::empty()
    } else {
        table_of(rs.drop_last()).insert(rs.last().0, rs.last().1)
    }
}

/// Position of `k` among the keys, if any.
pub open spec fn has_key_at<E>(rs: Seq<(Seq<char>, E)>, k: Seq<char>, i: int) -> bool {
    0 <= i < rs.len() && rs[i].0 == k
}

pub proof fn lemma_table_push<E>(rs: Seq<(Seq<char>, E)>, p: (Seq<char>, E))
    ensures
        table_of(rs.push(p)) == table_of(rs).insert(p.0, p.1),
{
    assert(rs.push(p).drop_last() =~= rs);
}

pub proof fn lemma_table_of<E>(rs: Seq<(Seq<char>, E)>)
    requires
        keys_distinct(rs),
    ensures
        forall|k: Seq<char>|
            #[trigger] table_of(rs).contains_key(k) <==> exists|i: int| has_key_at(rs, k, i),
        forall|i: int| 0 <= i < rs.len() ==> #[trigger] table_of(rs)[rs[i].0] == rs[i].1,
    decreases rs.len(),
{
    if rs.len() > 0 {
        let init = rs.drop_last();
        assert(keys_distinct(init)) by {
            assert forall|i: int, j: int|
                0 <= i < init.len() && 0 <= j < init.len() && i != j implies #[trigger] init[i].0
                != #[trigger] init[j].0 by {
                assert(init[i] == rs[i] && init[j] == rs[j]);
            }
        }
        lemma_table_of(init);
        let last = rs.len() - 1;
        assert(table_of(rs) == table_of(init).insert(rs[last].0, rs[last].1));
        assert forall|k: Seq<char>| #[trigger]
            table_of(rs).contains_key(k) <==> exists|i: int| has_key_at(rs, k, i) by {
            if table_of(rs).contains_key(k) {
                if k == rs[last].0 {
                    assert(has_key_at(rs, k, last));
                } else {
                    assert(table_of(init).contains_key(k));
                    let i = choose|i: int| has_key_at(init, k, i);
                    assert(init[i] == rs[i]);
                    assert(has_key_at(rs, k, i));
                }
            }
            if exists|i: int| has_key_at(rs, k, i) {
                let i = choose|i: int| has_key_at(rs, k, i);
                if i < last {
                    assert(init[i] == rs[i]);
                    assert(has_key_at(init, k, i));
                    assert(table_of(init).contains_key(k));
                }
            }
        }
        assert forall|i: int| 0 <= i < rs.len() implies #[trigger] table_of(rs)[rs[i].0]
            == rs[i].1 by {
            if i < last {
                assert(rs[i].0 != rs[last].0);
                assert(init[i] == rs[i]);
                assert(table_of(init)[init[i].0] == init[i].1);
            }
        }
    }
}

/// Replacing the value stored under an existing key.
pub proof fn lemma_table_update<E>(rs: Seq<(Seq<char>, E)>, i: int, v: E)
    requires
        keys_distinct(rs),
        0 <= i < rs.len(),
    ensures
        keys_distinct(rs.update(i, (rs[i].0, v))),
        table_of(rs.update(i, (rs[i].0, v))) == table_of(rs).insert(rs[i].0, v),
{
    let rs2 = rs.update(i, (rs[i].0, v));
    assert(keys_distinct(rs2)) by {
        assert forall|a: int, b: int|
            0 <= a < rs2.len() && 0 <= b < rs2.len() && a != b implies #[trigger] rs2[a].0
            != #[trigger] rs2[b].0 by {
            assert(rs2[a].0 == rs[a].0 && rs2[b].0 == rs[b].0);
        }
    }
    lemma_table_of(rs);
    lemma_table_of(rs2);
    let m = table_of(rs).insert(rs[i].0, v);
    assert forall|k: Seq<char>| #[trigger] table_of(rs2).contains_key(k) == m.contains_key(k) by {
        if table_of(rs2).contains_key(k) {
            let j = choose|j: int| has_key_at(rs2, k, j);
            assert(has_key_at(rs, k, j));
        }
        if m.contains_key(k) && k != rs[i].0 {
            let j = choose|j: int| has_key_at(rs, k, j);
            assert(has_key_at(rs2, k, j));
        }
        if k == rs[i].0 {
            assert(has_key_at(rs2, k, i));
        }
    }
    assert forall|k: Seq<char>| #[trigger] table_of(rs2).contains_key(k) implies table_of(rs2)[k]
        == m[k] by {
        let j = choose|j: int| has_key_at(rs2, k, j);
        assert(table_of(rs2)[rs2[j].0] == rs2[j].1);
        if j != i {
            assert(table_of(rs)[rs[j].0] == rs[j].1);
        }
    }
    assert(table_of(rs2) =~= m);
}

/// Removing the pair at position `i`.
pub proof fn lemma_table_remove<E>(rs: Seq<(Seq<char>, E)>, i: int)
    requires
        keys_distinct(rs),
        0 <= i < rs.len(),
    ensures
        keys_distinct(rs.remove(i)),
        table_of(rs.remove(i)) == table_of(rs).remove(rs[i].0),
{
    let rs2 = rs.remove(i);
    assert forall|a: int| 0 <= a < rs2.len() implies #[trigger] rs2[a] == (if a < i {
        rs[a]
    } else {
        rs[a + 1]
    }) by {}
    assert(keys_distinct(rs2)) by {
        assert forall|a: int, b: int|
            0 <= a < rs2.len() && 0 <= b < rs2.len() && a != b implies #[trigger] rs2[a].0
            != #[trigger] rs2[b].0 by {
            let a1 = if a < i {
                a
            } else {
                a + 1
            };
            let b1 = if b < i {
                b
            } else {
                b + 1
            };
            assert(rs2[a] == rs[a1] && rs2[b] == rs[b1]);
        }
    }
    lemma_table_of(rs);
    lemma_table_of(rs2);
    let m = table_of(rs).remove(rs[i].0);
    assert forall|k: Seq<char>| #[trigger] table_of(rs2).contains_key(k) == m.contains_key(k) by {
        if table_of(rs2).contains_key(k) {
            let j = choose|j: int| has_key_at(rs2, k, j);
            let j1 = if j < i {
                j
            } else {
                j + 1
            };
            assert(rs2[j] == rs[j1]);
            assert(has_key_at(rs, k, j1));
        }
        if m.contains_key(k) {
            let j = choose|j: int| has_key_at(rs, k, j);
            assert(j != i);
            let j2 = if j < i {
                j
            } else {
                j - 1
            };
            assert(rs2[j2] == rs[j]);
            assert(has_key_at(rs2, k, j2));
        }
    }
    assert forall|k: Seq<char>| #[trigger] table_of(rs2).contains_key(k) implies table_of(rs2)[k]
        == m[k] by {
        let j = choose|j: int| has_key_at(rs2, k, j);
        let j1 = if j < i {
            j
        } else {
            j + 1
        };
        assert(rs2[j] == rs[j1]);
        assert(table_of(rs2)[rs2[j].0] == rs2[j].1);
        assert(table_of(rs)[rs[j1].0] == rs[j1].1);
    }
    assert(table_of(rs2) =~= m);
}

/// Appending a pair whose key is new keeps the keys distinct.
pub proof fn lemma_push_distinct<E>(rs: Seq<(Seq<char>, E)>, p: (Seq<char>, E))
    requires
        keys_distinct(rs),
        !table_of(rs).contains_key(p.0),
    ensures
        keys_distinct(rs.push(p)),
{
    lemma_table_of(rs);
    let rs2 = rs.push(p);
    assert forall|a: int, b: int|
        0 <= a < rs2.len() && 0 <= b < rs2.len() && a != b implies #[trigger] rs2[a].0
        != #[trigger] rs2[b].0 by {
        if a == rs.len() {
            assert(!has_key_at(rs, p.0, b));
        } else if b == rs.len() {
            assert(!has_key_at(rs, p.0, a));
        } else {
            assert(rs2[a] == rs[a] && rs2[b] == rs[b]);
        }
    }
}

} // verus!
