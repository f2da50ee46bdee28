//! Rows of key and value pairs, seen as maps.

use vstd::prelude::*;

verus! {

/// No key occurs twice.
pub open spec fn unique_keys<K, V>(row: Seq<(K, V)>) -> bool {
    forall|i: int, j: int|
        0 <= i < row.len() && 0 <= j < row.len() && i != j ==> (#[trigger] row[i]).0 != (
        #[trigger] row[j]).0
}

/// Whether a key occurs.
pub open spec fn has_key<K, V>(row: Seq<(K, V)>, k: K) -> bool {
    exists|i: int| 0 <= i < row.len() && (#[trigger] row[i]).0 == k
}

/// The map from each key to the value that stands beside it.
pub open spec fn pairs_map<K, V>(row: Seq<(K, V)>) -> Map<K, V> {
    Map::new(
        |k: K| has_key(row, k),
        |k: K| row[choose|i: int| 0 <= i < row.len() && (#[trigger] row[i]).0 == k].1,
    )
}

/// Each pair of a row with unique keys is in its map.
pub proof fn lemma_pair_in_map<K, V>(row: Seq<(K, V)>, i: int)
    requires
        unique_keys(row),
        0 <= i < row.len(),
    ensures
        pairs_map(row).contains_key(row[i].0),
        pairs_map(row)[row[i].0] == row[i].1,
{
    let k = row[i].0;
    assert(has_key(row, k));
    let j = choose|j: int| 0 <= j < row.len() && (#[trigger] row[j]).0 == k;
    assert(j == i);
}

/// The map of a row with unique keys has as many entries as the row has pairs.
pub proof fn lemma_pairs_map_len<K, V>(row: Seq<(K, V)>)
    requires
        unique_keys(row),
    ensures
        pairs_map(row).dom().finite(),
        pairs_map(row).len() == row.len(),
{
    let keys = row.map_values(|p: (K, V)| p.0);
    assert(keys.no_duplicates());
    keys.unique_seq_to_set();
    assert(pairs_map(row).dom() =~= keys.to_set()) by {
        assert forall|k: K| has_key(row, k) implies keys.contains(k) by {
            let i = choose|i: int| 0 <= i < row.len() && (#[trigger] row[i]).0 == k;
            assert(keys[i] == k);
        }
        assert forall|k: K| keys.contains(k) implies has_key(row, k) by {
            let i = choose|i: int| 0 <= i < keys.len() && keys[i] == k;
            assert(row[i].0 == k);
        }
    }
    vstd::seq_lib::seq_to_set_is_finite(keys);
}

/// A map is that of a row with unique keys, if it has the keys of the row and
/// beside each the value that the row has.
pub proof fn lemma_pairs_map_is<K, V>(row: Seq<(K, V)>, m: Map<K, V>)
    requires
        unique_keys(row),
        forall|i: int|
            0 <= i < row.len() ==> m.contains_key((#[trigger] row[i]).0) && m[row[i].0] == row[i].1,
        forall|k: K| #[trigger] m.contains_key(k) ==> has_key(row, k),
    ensures
        pairs_map(row) == m,
{
    assert forall|k: K| has_key(row, k) implies m.contains_key(k) && pairs_map(row)[k]
        == m[k] by {
        let i = choose|i: int| 0 <= i < row.len() && (#[trigger] row[i]).0 == k;
        lemma_pair_in_map(row, i);
        assert(m.contains_key(row[i].0));
    }
    assert(pairs_map(row) =~= m);
}

} // verus!
