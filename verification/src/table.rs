//! Association sequences keyed by text: lookup, replacement and extension
//! lemmas shared by the output collection and the alias table.

use vstd::prelude::*;

verus! {

/// Look a key up in an association sequence, front to back.
pub open spec fn assoc_get<V>(s: Seq<(Seq<char>, V)>, k: Seq<char>) -> Option<V>
    decreases s.len(),
{
    if s.len() == 0 {
        Option::None
    } else if s[0].0 == k {
        Option::Some(s[0].1)
    } else {
        assoc_get(s.drop_first(), k)
    }
}

/// A key that no entry carries is not found.
pub proof fn lemma_assoc_get_none<V>(s: Seq<(Seq<char>, V)>, k: Seq<char>)
    requires
        forall|j: int| 0 <= j < s.len() ==> #[trigger] s[j].0 != k,
    ensures
        assoc_get(s, k) is None,
    decreases s.len(),
{
    if s.len() > 0 {
        assert(s[0].0 != k);
        assert(forall|j: int| 0 <= j < s.drop_first().len() ==> #[trigger] s.drop_first()[j].0 != k);
        lemma_assoc_get_none(s.drop_first(), k);
    }
}

/// The first entry carrying a key decides the lookup.
pub proof fn lemma_assoc_get_found<V>(s: Seq<(Seq<char>, V)>, k: Seq<char>, i: int)
    requires
        0 <= i < s.len(),
        s[i].0 == k,
        forall|j: int| 0 <= j < i ==> #[trigger] s[j].0 != k,
    ensures
        assoc_get(s, k) == Option::Some(s[i].1),
    decreases s.len(),
{
    if i == 0 {
    } else {
        assert(s[0].0 != k);
        let t = s.drop_first();
        assert(t[i - 1] == s[i]);
        assert forall|j: int| 0 <= j < i - 1 implies #[trigger] t[j].0 != k by {
            assert(t[j] == s[j + 1]);
        }
        lemma_assoc_get_found(t, k, i - 1);
    }
}

/// Replacing the value at the first entry of a key changes that key's lookup
/// and nothing else.
pub proof fn lemma_assoc_get_update<V>(s: Seq<(Seq<char>, V)>, i: int, v: V)
    requires
        0 <= i < s.len(),
        forall|j: int| 0 <= j < i ==> #[trigger] s[j].0 != s[i].0,
    ensures
        assoc_get(s.update(i, (s[i].0, v)), s[i].0) == Option::Some(v),
        forall|k: Seq<char>|
            k != s[i].0 ==> #[trigger] assoc_get(s.update(i, (s[i].0, v)), k) == assoc_get(s, k),
    decreases s.len(),
{
    let u = s.update(i, (s[i].0, v));
    if i == 0 {
        assert(u[0] == (s[0].0, v));
        assert(u.drop_first() =~= s.drop_first());
        assert forall|k: Seq<char>| k != s[0].0 implies #[trigger] assoc_get(u, k) == assoc_get(
            s,
            k,
        ) by {
            assert(assoc_get(u, k) == assoc_get(u.drop_first(), k));
            assert(assoc_get(s, k) == assoc_get(s.drop_first(), k));
        }
    } else {
        assert(u[0] == s[0]);
        assert(s[0].0 != s[i].0);
        let t = s.drop_first();
        assert(t[i - 1] == s[i]);
        assert forall|j: int| 0 <= j < i - 1 implies #[trigger] t[j].0 != t[i - 1].0 by {
            assert(t[j] == s[j + 1]);
        }
        lemma_assoc_get_update(t, i - 1, v);
        assert(u.drop_first() =~= t.update(i - 1, (t[i - 1].0, v)));
        assert(assoc_get(u, s[i].0) == assoc_get(u.drop_first(), s[i].0));
        assert forall|k: Seq<char>| k != s[i].0 implies #[trigger] assoc_get(u, k) == assoc_get(
            s,
            k,
        ) by {
            if k == s[0].0 {
                assert(assoc_get(u, k) == Option::Some(u[0].1));
                assert(assoc_get(s, k) == Option::Some(s[0].1));
            } else {
                assert(assoc_get(u, k) == assoc_get(u.drop_first(), k));
                assert(assoc_get(s, k) == assoc_get(t, k));
            }
        }
    }
}

/// Appending an entry for an absent key adds that key's lookup and changes
/// nothing else.
pub proof fn lemma_assoc_get_push<V>(s: Seq<(Seq<char>, V)>, k: Seq<char>, v: V)
    requires
        assoc_get(s, k) is None,
    ensures
        assoc_get(s.push((k, v)), k) == Option::Some(v),
        forall|k2: Seq<char>|
            k2 != k ==> #[trigger] assoc_get(s.push((k, v)), k2) == assoc_get(s, k2),
        forall|j: int| 0 <= j < s.len() ==> #[trigger] s[j].0 != k,
    decreases s.len(),
{
    let u = s.push((k, v));
    if s.len() == 0 {
        assert(u[0] == (k, v));
        assert(u.drop_first() =~= Seq::<(Seq<char>, V)>::empty());
        assert forall|k2: Seq<char>| k2 != k implies #[trigger] assoc_get(u, k2) == assoc_get(
            s,
            k2,
        ) by {
            assert(assoc_get(u, k2) == assoc_get(u.drop_first(), k2));
            assert(assoc_get(u.drop_first(), k2) is None);
        }
    } else {
        assert(s[0].0 != k);
        assert(u[0] == s[0]);
        lemma_assoc_get_push(s.drop_first(), k, v);
        assert(u.drop_first() =~= s.drop_first().push((k, v)));
        assert(assoc_get(u, k) == assoc_get(u.drop_first(), k));
        assert forall|k2: Seq<char>| k2 != k implies #[trigger] assoc_get(u, k2) == assoc_get(
            s,
            k2,
        ) by {
            if k2 == s[0].0 {
                assert(assoc_get(u, k2) == Option::Some(u[0].1));
                assert(assoc_get(s, k2) == Option::Some(s[0].1));
            } else {
                assert(assoc_get(u, k2) == assoc_get(u.drop_first(), k2));
                assert(assoc_get(s, k2) == assoc_get(s.drop_first(), k2));
            }
        }
        assert forall|j: int| 0 <= j < s.len() implies #[trigger] s[j].0 != k by {
            if j > 0 {
                assert(s.drop_first()[j - 1] == s[j]);
            }
        }
    }
}

} // verus!
