//! Text-keyed tables held as a list of `(key, value)` rows with distinct keys,
//! and the map such a list stands for.

use vstd::prelude::*;

verus! {

/// The rows as a map from key to value (a later row overrides an earlier one).
pub open spec fn keyed_map<V>(s: Seq<(Seq<char>, V)>) -> Map<Seq<char>, V>
    decreases s.len(),
{
    if s.len() == 0 {
        Map::empty()
    } else {
        keyed_map(s.drop_last()).insert(s.last().0, s.last().1)
    }
}

/// No key occurs in two rows.
pub open spec fn keys_unique<V>(s: Seq<(Seq<char>, V)>) -> bool {
    forall|i: int, j: int| 0 <= i < s.len() && 0 <= j < s.len() && i != j ==> #[trigger] s[i].0 != #[trigger] s[j].0
}

proof fn lemma_prefix_unique<V>(s: Seq<(Seq<char>, V)>)
    requires
        keys_unique(s),
        s.len() > 0,
    ensures
        keys_unique(s.drop_last()),
{
    let p = s.drop_last();
    assert forall|a: int, b: int| 0 <= a < p.len() && 0 <= b < p.len() && a != b implies p[a].0 != p[b].0 by {
        assert(p[a] == s[a] && p[b] == s[b]);
    }
}

/// With distinct keys, row `i` is what the map holds for its key.
pub proof fn lemma_keyed_has<V>(s: Seq<(Seq<char>, V)>, i: int)
    requires
        keys_unique(s),
        0 <= i < s.len(),
    ensures
        keyed_map(s).contains_key(s[i].0),
        keyed_map(s)[s[i].0] == s[i].1,
    decreases s.len(),
{
    if i < s.len() - 1 {
        let p = s.drop_last();
        lemma_prefix_unique(s);
        lemma_keyed_has(p, i);
        assert(p[i] == s[i]);
        assert(s[s.len() - 1].0 != s[i].0);
    }
}

/// The map's keys are exactly the rows' keys.
pub proof fn lemma_keyed_keys<V>(s: Seq<(Seq<char>, V)>, k: Seq<char>)
    ensures
        keyed_map(s).contains_key(k) <==> exists|i: int| 0 <= i < s.len() && s[i].0 == k,
    decreases s.len(),
{
    if s.len() > 0 {
        let p = s.drop_last();
        lemma_keyed_keys(p, k);
        if keyed_map(s).contains_key(k) {
            if k == s.last().0 {
                assert(s[s.len() - 1].0 == k);
            } else {
                let i = choose|i: int| 0 <= i < p.len() && p[i].0 == k;
                assert(s[i] == p[i]);
            }
        }
        if exists|i: int| 0 <= i < s.len() && s[i].0 == k {
            let i = choose|i: int| 0 <= i < s.len() && s[i].0 == k;
            if i < s.len() - 1 {
                assert(p[i] == s[i]);
            }
        }
    }
}

/// Replacing the value of row `i` replaces the value of its key.
pub proof fn lemma_keyed_update<V>(s: Seq<(Seq<char>, V)>, i: int, v: V)
    requires
        keys_unique(s),
        0 <= i < s.len(),
    ensures
        keyed_map(s.update(i, (s[i].0, v))) == keyed_map(s).insert(s[i].0, v),
        keys_unique(s.update(i, (s[i].0, v))),
    decreases s.len(),
{
    let t = s.update(i, (s[i].0, v));
    let p = s.drop_last();
    assert forall|a: int, b: int| 0 <= a < t.len() && 0 <= b < t.len() && a != b implies t[a].0 != t[b].0 by {
        assert(t[a].0 == s[a].0 && t[b].0 == s[b].0);
    }
    if i == s.len() - 1 {
        assert(t.drop_last() =~= p);
        assert(keyed_map(t) =~= keyed_map(s).insert(s[i].0, v));
    } else {
        lemma_prefix_unique(s);
        lemma_keyed_update(p, i, v);
        assert(t.drop_last() =~= p.update(i, (p[i].0, v)));
        assert(s[s.len() - 1].0 != s[i].0);
        assert(keyed_map(t) =~= keyed_map(s).insert(s[i].0, v));
    }
}

/// Appending a row with a fresh key keeps the keys distinct.
pub proof fn lemma_keyed_push<V>(s: Seq<(Seq<char>, V)>, k: Seq<char>, v: V)
    requires
        keys_unique(s),
        !keyed_map(s).contains_key(k),
    ensures
        keys_unique(s.push((k, v))),
        keyed_map(s.push((k, v))) == keyed_map(s).insert(k, v),
{
    let t = s.push((k, v));
    lemma_keyed_keys(s, k);
    assert forall|a: int, b: int| 0 <= a < t.len() && 0 <= b < t.len() && a != b implies t[a].0 != t[b].0 by {
        if a < s.len() && b < s.len() {
            assert(t[a] == s[a] && t[b] == s[b]);
        } else if a < s.len() {
            assert(t[a] == s[a]);
        } else {
            assert(t[b] == s[b]);
        }
    }
    assert(t.drop_last() =~= s);
}

/// With distinct keys, the map has one key per row.
pub proof fn lemma_keyed_len<V>(s: Seq<(Seq<char>, V)>)
    requires
        keys_unique(s),
    ensures
        keyed_map(s).dom().finite(),
        keyed_map(s).dom().len() == s.len(),
    decreases s.len(),
{
    if s.len() > 0 {
        let p = s.drop_last();
        assert(keys_unique(p)) by {
            assert forall|a: int, b: int| 0 <= a < p.len() && 0 <= b < p.len() && a != b implies p[a].0 != p[b].0 by {
                assert(p[a] == s[a] && p[b] == s[b]);
            }
        }
        lemma_keyed_len(p);
        lemma_keyed_keys(p, s.last().0);
        if keyed_map(p).contains_key(s.last().0) {
            let i = choose|i: int| 0 <= i < p.len() && p[i].0 == s.last().0;
            assert(s[i].0 != s[s.len() - 1].0);
            assert(p[i] == s[i]);
        }
    }
}

} // verus!
