//! Association lists with unique keys, read as finite maps.
use vstd::prelude::*;

verus! {

/// No key occurs twice.
pub open spec fn unique_keys<K, V>(s: Seq<(K, V)>) -> bool {
    forall|i: int, j: int| 0 <= i < s.len() && 0 <= j < s.len() && i != j ==> s[i].0 != s[j].0
}

pub open spec fn has_key<K, V>(s: Seq<(K, V)>, k: K) -> bool {
    exists|i: int| 0 <= i < s.len() && s[i].0 == k
}

/// The map that an association list stands for.
pub open spec fn to_map<K, V>(s: Seq<(K, V)>) -> Map<K, V> {
    Map::new(
        |k: K| has_key(s, k),
        |k: K| s[choose|i: int| 0 <= i < s.len() && s[i].0 == k].1,
    )
}

pub proof fn lemma_to_map_index<K, V>(s: Seq<(K, V)>, i: int)
    requires
        unique_keys(s),
        0 <= i < s.len(),
    ensures
        to_map(s).contains_key(s[i].0),
        to_map(s)[s[i].0] == s[i].1,
{
    assert(has_key(s, s[i].0));
    let w = choose|w: int| 0 <= w < s.len() && s[w].0 == s[i].0;
    if w != i {
        assert(s[w].0 != s[i].0);
    }
}

pub proof fn lemma_to_map_push<K, V>(s: Seq<(K, V)>, k: K, v: V)
    requires
        unique_keys(s),
        !has_key(s, k),
    ensures
        unique_keys(s.push((k, v))),
        to_map(s.push((k, v))) == to_map(s).insert(k, v),
{
    let t = s.push((k, v));
    assert forall|i: int, j: int| 0 <= i < t.len() && 0 <= j < t.len() && i != j implies t[i].0 != t[j].0 by {
        if i < s.len() && j < s.len() {
            assert(t[i] == s[i] && t[j] == s[j]);
        } else if i < s.len() {
            assert(t[i] == s[i]);
        } else {
            assert(t[j] == s[j]);
        }
    }
    assert forall|x: K| #[trigger] has_key(t, x) == (has_key(s, x) || x == k) by {
        if has_key(s, x) {
            let i = choose|i: int| 0 <= i < s.len() && s[i].0 == x;
            assert(t[i] == s[i]);
        }
        if x == k {
            assert(t[s.len() as int].0 == k);
        }
        if has_key(t, x) && x != k {
            let i = choose|i: int| 0 <= i < t.len() && t[i].0 == x;
            assert(i < s.len());
            assert(s[i].0 == x);
        }
    }
    assert forall|x: K| to_map(t).contains_key(x) implies to_map(t)[x] == to_map(s).insert(k, v)[x] by {
        if x == k {
            lemma_to_map_index(t, s.len() as int);
        } else {
            let i = choose|i: int| 0 <= i < s.len() && s[i].0 == x;
            lemma_to_map_index(s, i);
            assert(t[i] == s[i]);
            lemma_to_map_index(t, i);
        }
    }
    assert(to_map(t) =~= to_map(s).insert(k, v));
}

pub proof fn lemma_to_map_remove<K, V>(s: Seq<(K, V)>, i: int)
    requires
        unique_keys(s),
        0 <= i < s.len(),
    ensures
        unique_keys(s.remove(i)),
        to_map(s.remove(i)) == to_map(s).remove(s[i].0),
{
    let t = s.remove(i);
    let k = s[i].0;
    assert forall|a: int, b: int| 0 <= a < t.len() && 0 <= b < t.len() && a != b implies t[a].0 != t[b].0 by {
        let a2 = if a < i { a } else { a + 1 };
        let b2 = if b < i { b } else { b + 1 };
        assert(t[a] == s[a2] && t[b] == s[b2]);
    }
    assert forall|x: K| #[trigger] has_key(t, x) == (has_key(s, x) && x != k) by {
        if has_key(t, x) {
            let a = choose|a: int| 0 <= a < t.len() && t[a].0 == x;
            let a2 = if a < i { a } else { a + 1 };
            assert(t[a] == s[a2]);
            assert(a2 != i);
        }
        if has_key(s, x) && x != k {
            let a = choose|a: int| 0 <= a < s.len() && s[a].0 == x;
            assert(a != i);
            if a < i {
                assert(t[a] == s[a]);
            } else {
                assert(t[a - 1] == s[a]);
            }
        }
    }
    assert forall|x: K| to_map(t).contains_key(x) implies to_map(t)[x] == to_map(s).remove(k)[x] by {
        let a = choose|a: int| 0 <= a < t.len() && t[a].0 == x;
        let a2 = if a < i { a } else { a + 1 };
        assert(t[a] == s[a2]);
        lemma_to_map_index(t, a);
        lemma_to_map_index(s, a2);
    }
    assert(to_map(t) =~= to_map(s).remove(k));
}

pub proof fn lemma_to_map_update<K, V>(s: Seq<(K, V)>, i: int, v: V)
    requires
        unique_keys(s),
        0 <= i < s.len(),
    ensures
        unique_keys(s.update(i, (s[i].0, v))),
        to_map(s.update(i, (s[i].0, v))) == to_map(s).insert(s[i].0, v),
{
    let t = s.update(i, (s[i].0, v));
    let k = s[i].0;
    assert forall|a: int, b: int| 0 <= a < t.len() && 0 <= b < t.len() && a != b implies t[a].0 != t[b].0 by {
        assert(t[a].0 == s[a].0 && t[b].0 == s[b].0);
    }
    assert forall|x: K| #[trigger] has_key(t, x) == has_key(s, x) by {
        if has_key(t, x) {
            let a = choose|a: int| 0 <= a < t.len() && t[a].0 == x;
            assert(s[a].0 == x);
        }
        if has_key(s, x) {
            let a = choose|a: int| 0 <= a < s.len() && s[a].0 == x;
            assert(t[a].0 == x);
        }
    }
    assert(has_key(s, k)) by {
        assert(s[i].0 == k);
    }
    assert forall|x: K| to_map(t).contains_key(x) implies to_map(t)[x] == to_map(s).insert(k, v)[x] by {
        let a = choose|a: int| 0 <= a < t.len() && t[a].0 == x;
        lemma_to_map_index(t, a);
        if a != i {
            assert(t[a] == s[a]);
            lemma_to_map_index(s, a);
        }
    }
    assert(to_map(t) =~= to_map(s).insert(k, v));
}

pub proof fn lemma_to_map_empty<K, V>()
    ensures
        unique_keys(Seq::<(K, V)>::empty()),
        to_map(Seq::<(K, V)>::empty()) == Map::<K, V>::empty(),
{
    assert(to_map(Seq::<(K, V)>::empty()) =~= Map::<K, V>::empty());
}

} // verus!
