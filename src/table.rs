//! Rows held in a vector with unique keys, seen as a map from key to row.
use vstd::prelude::*;

verus! {

/// A row that has a key.
pub trait Keyed<K> {
    spec fn key(&self) -> K;
}

/// No two rows share a key.
pub open spec fn unique_keys<K, T: Keyed<K>>(rows: Seq<T>) -> bool {
    forall|i: int, j: int|
        0 <= i < rows.len() && 0 <= j < rows.len() && i != j ==> #[trigger] rows[i].key()
            != #[trigger] rows[j].key()
}

/// Some row has key `k`.
pub open spec fn has_key<K, T: Keyed<K>>(rows: Seq<T>, k: K) -> bool {
    exists|i: int| 0 <= i < rows.len() && #[trigger] rows[i].key() == k
}

/// The rows as a map from key to row.
pub open spec fn table_map<K, T: Keyed<K>>(rows: Seq<T>) -> Map<K, T> {
    Map::new(
        |k: K| has_key(rows, k),
        |k: K| rows[choose|i: int| 0 <= i < rows.len() && #[trigger] rows[i].key() == k],
    )
}

/// Each row of the map sits under its own key.
pub proof fn lemma_table_keys<K, T: Keyed<K>>(rows: Seq<T>)
    ensures
        forall|k: K| #[trigger] table_map(rows).contains_key(k) ==> table_map(rows)[k].key() == k,
{
}

/// With unique keys, each row is the map's value under its key.
pub proof fn lemma_table_index<K, T: Keyed<K>>(rows: Seq<T>, i: int)
    requires
        unique_keys(rows),
        0 <= i < rows.len(),
    ensures
        table_map(rows).contains_key(rows[i].key()),
        table_map(rows)[rows[i].key()] == rows[i],
{
    let k = rows[i].key();
    assert(has_key(rows, k));
    let j = choose|j: int| 0 <= j < rows.len() && #[trigger] rows[j].key() == k;
    assert(i == j);
}

/// Appending a row with a new key inserts it into the map.
pub proof fn lemma_table_push<K, T: Keyed<K>>(rows: Seq<T>, x: T)
    requires
        unique_keys(rows),
        !table_map(rows).contains_key(x.key()),
    ensures
        unique_keys(rows.push(x)),
        table_map(rows.push(x)) == table_map(rows).insert(x.key(), x),
{
    let v = rows.push(x);
    assert forall|i: int, j: int|
        0 <= i < v.len() && 0 <= j < v.len() && i != j implies #[trigger] v[i].key()
        != #[trigger] v[j].key() by {
        if i < rows.len() && j < rows.len() {
            assert(v[i] == rows[i] && v[j] == rows[j]);
        } else if i < rows.len() {
            assert(v[i] == rows[i]);
            if v[i].key() == x.key() {
                assert(has_key(rows, x.key()));
            }
        } else if j < rows.len() {
            assert(v[j] == rows[j]);
            if v[j].key() == x.key() {
                assert(has_key(rows, x.key()));
            }
        }
    }
    let a = table_map(v);
    let b = table_map(rows).insert(x.key(), x);
    assert forall|k: K| a.contains_key(k) <==> b.contains_key(k) by {
        if has_key(v, k) {
            let i = choose|i: int| 0 <= i < v.len() && #[trigger] v[i].key() == k;
            if i < rows.len() {
                assert(rows[i] == v[i]);
                assert(has_key(rows, k));
            }
        }
        if has_key(rows, k) {
            let i = choose|i: int| 0 <= i < rows.len() && #[trigger] rows[i].key() == k;
            assert(v[i] == rows[i]);
            assert(has_key(v, k));
        }
        if k == x.key() {
            assert(v[rows.len() as int] == x);
            assert(has_key(v, k));
        }
    }
    assert forall|k: K| #[trigger] a.contains_key(k) implies a[k] == b[k] by {
        let i = choose|i: int| 0 <= i < v.len() && #[trigger] v[i].key() == k;
        lemma_table_index(v, i);
        if i < rows.len() {
            assert(v[i] == rows[i]);
            lemma_table_index(rows, i);
        } else {
            assert(v[i] == x);
        }
    }
    assert(a =~= b);
}

/// Replacing a row by one with the same key overwrites the map's value there.
pub proof fn lemma_table_update<K, T: Keyed<K>>(rows: Seq<T>, i: int, x: T)
    requires
        unique_keys(rows),
        0 <= i < rows.len(),
        x.key() == rows[i].key(),
    ensures
        unique_keys(rows.update(i, x)),
        table_map(rows.update(i, x)) == table_map(rows).insert(x.key(), x),
{
    let v = rows.update(i, x);
    assert forall|a: int, b: int|
        0 <= a < v.len() && 0 <= b < v.len() && a != b implies #[trigger] v[a].key()
        != #[trigger] v[b].key() by {
        assert(v[a].key() == rows[a].key());
        assert(v[b].key() == rows[b].key());
    }
    let m1 = table_map(v);
    let m2 = table_map(rows).insert(x.key(), x);
    assert forall|k: K| m1.contains_key(k) <==> m2.contains_key(k) by {
        if has_key(v, k) {
            let j = choose|j: int| 0 <= j < v.len() && #[trigger] v[j].key() == k;
            assert(rows[j].key() == k);
            assert(has_key(rows, k));
        }
        if has_key(rows, k) {
            let j = choose|j: int| 0 <= j < rows.len() && #[trigger] rows[j].key() == k;
            assert(v[j].key() == k);
            assert(has_key(v, k));
        }
        if k == x.key() {
            assert(v[i] == x);
            assert(has_key(v, k));
        }
    }
    assert forall|k: K| #[trigger] m1.contains_key(k) implies m1[k] == m2[k] by {
        let j = choose|j: int| 0 <= j < v.len() && #[trigger] v[j].key() == k;
        lemma_table_index(v, j);
        if j != i {
            assert(v[j] == rows[j]);
            lemma_table_index(rows, j);
        }
    }
    assert(m1 =~= m2);
}

/// Removing a row removes its key from the map.
pub proof fn lemma_table_remove<K, T: Keyed<K>>(rows: Seq<T>, i: int)
    requires
        unique_keys(rows),
        0 <= i < rows.len(),
    ensures
        unique_keys(rows.remove(i)),
        table_map(rows.remove(i)) == table_map(rows).remove(rows[i].key()),
{
    let v = rows.remove(i);
    let gone = rows[i].key();
    assert forall|a: int, b: int|
        0 <= a < v.len() && 0 <= b < v.len() && a != b implies #[trigger] v[a].key()
        != #[trigger] v[b].key() by {
        let a2 = if a < i { a } else { a + 1 };
        let b2 = if b < i { b } else { b + 1 };
        assert(v[a] == rows[a2] && v[b] == rows[b2]);
    }
    let m1 = table_map(v);
    let m2 = table_map(rows).remove(gone);
    assert forall|k: K| m1.contains_key(k) <==> m2.contains_key(k) by {
        if has_key(v, k) {
            let j = choose|j: int| 0 <= j < v.len() && #[trigger] v[j].key() == k;
            let j2 = if j < i { j } else { j + 1 };
            assert(v[j] == rows[j2]);
            assert(has_key(rows, k));
            assert(j2 != i);
        }
        if has_key(rows, k) && k != gone {
            let j = choose|j: int| 0 <= j < rows.len() && #[trigger] rows[j].key() == k;
            assert(j != i);
            let j2 = if j < i { j } else { j - 1 };
            assert(v[j2] == rows[j]);
            assert(has_key(v, k));
        }
    }
    assert forall|k: K| #[trigger] m1.contains_key(k) implies m1[k] == m2[k] by {
        let j = choose|j: int| 0 <= j < v.len() && #[trigger] v[j].key() == k;
        let j2 = if j < i { j } else { j + 1 };
        assert(v[j] == rows[j2]);
        lemma_table_index(v, j);
        lemma_table_index(rows, j2);
    }
    assert(m1 =~= m2);
}

/// With unique keys, the map has as many entries as there are rows.
pub proof fn lemma_table_len<K, T: Keyed<K>>(rows: Seq<T>)
    requires
        unique_keys(rows),
    ensures
        table_map(rows).dom().finite(),
        table_map(rows).len() == rows.len(),
    decreases rows.len(),
{
    if rows.len() == 0 {
        assert(table_map(rows).dom() =~= Set::<K>::empty());
    } else {
        let p = rows.drop_last();
        let x = rows.last();
        assert forall|i: int, j: int|
            0 <= i < p.len() && 0 <= j < p.len() && i != j implies #[trigger] p[i].key()
            != #[trigger] p[j].key() by {
            assert(p[i] == rows[i] && p[j] == rows[j]);
        }
        lemma_table_len(p);
        if table_map(p).contains_key(x.key()) {
            let i = choose|i: int| 0 <= i < p.len() && #[trigger] p[i].key() == x.key();
            assert(rows[i] == p[i]);
            assert(rows[rows.len() - 1] == x);
        }
        lemma_table_push(p, x);
        assert(p.push(x) =~= rows);
        assert(table_map(rows).dom() =~= table_map(p).dom().insert(x.key()));
    }
}

} // verus!
