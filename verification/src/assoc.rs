//! Byte-keyed association vectors. The storage engine keeps each of its maps
//! as a vector of `(key, value)` pairs with pairwise-distinct keys; its
//! mathematical value is the finite `Map` built here, and the lemmas relate
//! the vector operations to `Map` operations.

use vstd::prelude::*;
use crate::messages::eq_bytes;

verus! {

/// No two pairs carry the same key.
pub open spec fn keys_unique<V>(s: Seq<(Vec<u8>, V)>) -> bool {
    forall|i: int, j: int| 0 <= i < j < s.len() ==> s[i].0@ != s[j].0@
}

/// Some pair carries the key `k`.
pub open spec fn has_key<V>(s: Seq<(Vec<u8>, V)>, k: Seq<u8>) -> bool {
    exists|i: int| 0 <= i < s.len() && s[i].0@ == k
}

/// The map an association vector stands for: each key bound to the deep view
/// of the value beside it (a later pair wins, which cannot arise while keys
/// stay unique).
pub open spec fn assoc_view<V: DeepView>(s: Seq<(Vec<u8>, V)>) -> Map<Seq<u8>, V::V>
    decreases s.len(),
{
    if s.len() == 0 {
        Map::empty()
    } else {
        assoc_view(s.drop_last()).insert(s.last().0@, s.last().1.deep_view())
    }
}

/// A key is in the map's domain exactly when some pair carries it.
pub proof fn lemma_assoc_view_dom<V: DeepView>(s: Seq<(Vec<u8>, V)>)
    ensures
        forall|k: Seq<u8>| #[trigger] assoc_view(s).dom().contains(k) <==> has_key(s, k),
    decreases s.len(),
{
    if s.len() > 0 {
        lemma_assoc_view_dom(s.drop_last());
        assert forall|k: Seq<u8>| #[trigger] assoc_view(s).dom().contains(k) implies has_key(
            s,
            k,
        ) by {
            if k == s.last().0@ {
                assert(s[s.len() - 1].0@ == k);
            } else {
                assert(assoc_view(s.drop_last()).dom().contains(k));
                assert(has_key(s.drop_last(), k));
                let i = choose|i: int| 0 <= i < s.drop_last().len() && s.drop_last()[i].0@ == k;
                assert(s[i].0@ == k);
            }
        }
        assert forall|k: Seq<u8>| has_key(s, k) implies #[trigger] assoc_view(s).dom().contains(
            k,
        ) by {
            let i = choose|i: int| 0 <= i < s.len() && s[i].0@ == k;
            if i < s.len() - 1 {
                assert(s.drop_last()[i].0@ == k);
                assert(has_key(s.drop_last(), k));
                assert(assoc_view(s.drop_last()).dom().contains(k));
            } else {
                assert(k == s.last().0@);
            }
        }
    }
}

/// With unique keys, looking a pair's key up in the map gives the deep view of
/// the value beside it.
pub proof fn lemma_assoc_view_at<V: DeepView>(s: Seq<(Vec<u8>, V)>, i: int)
    requires
        keys_unique(s),
        0 <= i < s.len(),
    ensures
        assoc_view(s).dom().contains(s[i].0@),
        assoc_view(s)[s[i].0@] == s[i].1.deep_view(),
    decreases s.len(),
{
    if i == s.len() - 1 {
    } else {
        assert(s.drop_last()[i] == s[i]);
        lemma_assoc_view_at(s.drop_last(), i);
        assert(s[i].0@ != s.last().0@);
    }
}

/// Appending a pair inserts its binding.
pub proof fn lemma_assoc_view_push<V: DeepView>(s: Seq<(Vec<u8>, V)>, p: (Vec<u8>, V))
    ensures
        assoc_view(s.push(p)) == assoc_view(s).insert(p.0@, p.1.deep_view()),
        !has_key(s, p.0@) && keys_unique(s) ==> keys_unique(s.push(p)),
{
    assert(s.push(p).drop_last() =~= s);
    assert(s.push(p).last() == p);
    if !has_key(s, p.0@) && keys_unique(s) {
        assert forall|i: int, j: int| 0 <= i < j < s.push(p).len() implies s.push(p)[i].0@ != s.push(
            p,
        )[j].0@ by {
            if j == s.len() {
                assert(s[i].0@ != p.0@);
            }
        }
    }
}

/// Removing the pair at `i` removes its key's binding.
pub proof fn lemma_assoc_view_remove<V: DeepView>(s: Seq<(Vec<u8>, V)>, i: int)
    requires
        keys_unique(s),
        0 <= i < s.len(),
    ensures
        assoc_view(s.remove(i)) == assoc_view(s).remove(s[i].0@),
        keys_unique(s.remove(i)),
        forall|k: Seq<u8>| #[trigger] has_key(s.remove(i), k) <==> has_key(s, k) && k != s[i].0@,
    decreases s.len(),
{
    lemma_assoc_view_dom::<V>(s);
    lemma_assoc_view_dom::<V>(s.remove(i));
    assert forall|x: int, y: int| 0 <= x < y < s.remove(i).len() implies s.remove(i)[x].0@
        != s.remove(i)[y].0@ by {
        assert(s.remove(i)[x] == if x < i {
            s[x]
        } else {
            s[x + 1]
        });
        assert(s.remove(i)[y] == if y < i {
            s[y]
        } else {
            s[y + 1]
        });
    }
    if i == s.len() - 1 {
        assert(s.remove(i) =~= s.drop_last());
        assert(!has_key(s.drop_last(), s[i].0@)) by {
            if has_key(s.drop_last(), s[i].0@) {
                let j = choose|j: int|
                    0 <= j < s.drop_last().len() && s.drop_last()[j].0@ == s[i].0@;
                assert(s[j].0@ == s[i].0@);
            }
        }
        lemma_assoc_view_dom::<V>(s.drop_last());
        assert(assoc_view(s.drop_last()) =~= assoc_view(s).remove(s[i].0@));
    } else {
        assert(s.remove(i).drop_last() =~= s.drop_last().remove(i));
        assert(s.remove(i).last() == s.last());
        assert(s.drop_last()[i] == s[i]);
        lemma_assoc_view_remove(s.drop_last(), i);
        assert(s[i].0@ != s.last().0@);
        assert(assoc_view(s.drop_last()).remove(s[i].0@).insert(s.last().0@, s.last().1.deep_view())
            =~= assoc_view(s.drop_last()).insert(
            s.last().0@,
            s.last().1.deep_view(),
        ).remove(s[i].0@));
    }
    assert forall|k: Seq<u8>| #[trigger] has_key(s.remove(i), k) implies has_key(s, k) && k
        != s[i].0@ by {
        assert(assoc_view(s.remove(i)).dom().contains(k));
    }
    assert forall|k: Seq<u8>| has_key(s, k) && k != s[i].0@ implies #[trigger] has_key(
        s.remove(i),
        k,
    ) by {
        assert(assoc_view(s).remove(s[i].0@).dom().contains(k));
        assert(assoc_view(s.remove(i)).dom().contains(k));
    }
}

/// Finds the index of the pair carrying `key`, if any pair does.
pub fn assoc_find<V: DeepView>(v: &Vec<(Vec<u8>, V)>, key: &Vec<u8>) -> (r: Option<usize>)
    ensures
        match r {
            Some(i) => i < v@.len() && v@[i as int].0@ == key@,
            None => !has_key(v@, key@),
        },
{
    let mut i: usize = 0;
    while i < v.len()
        invariant
            i <= v@.len(),
            forall|j: int| 0 <= j < i ==> v@[j].0@ != key@,
        decreases v@.len() - i,
    {
        if eq_bytes(&v[i].0, key) {
            return Some(i);
        }
        i = i + 1;
    }
    None
}

/// Binds `key` to `value`, replacing any pair already carrying the key.
pub fn assoc_put<V: DeepView>(v: &mut Vec<(Vec<u8>, V)>, key: &Vec<u8>, value: V)
    requires
        keys_unique(old(v)@),
    ensures
        keys_unique(final(v)@),
        assoc_view(final(v)@) == assoc_view(old(v)@).insert(key@, value.deep_view()),
{
    let owned_key = crate::messages::clone_bytes(key);
    match assoc_find(v, key) {
        Some(i) => {
            proof {
                lemma_assoc_view_remove(old(v)@, i as int);
            }
            let _ = v.remove(i);
            proof {
                lemma_assoc_view_push(v@, (owned_key, value));
            }
            let ghost mid = v@;
            v.push((owned_key, value));
            proof {
                assert(assoc_view(v@) == assoc_view(mid).insert(key@, value.deep_view()));
                assert(assoc_view(old(v)@).remove(key@).insert(key@, value.deep_view())
                    =~= assoc_view(old(v)@).insert(key@, value.deep_view()));
            }
        },
        None => {
            proof {
                lemma_assoc_view_dom::<V>(old(v)@);
                lemma_assoc_view_push(old(v)@, (owned_key, value));
            }
            v.push((owned_key, value));
        },
    }
}

/// Unbinds `key`, handing back the pair that carried it, if any did.
pub fn assoc_remove<V: DeepView>(v: &mut Vec<(Vec<u8>, V)>, key: &Vec<u8>) -> (r: Option<
    (Vec<u8>, V),
>)
    requires
        keys_unique(old(v)@),
    ensures
        keys_unique(final(v)@),
        match r {
            Some(p) => {
                &&& p.0@ == key@
                &&& assoc_view(old(v)@).dom().contains(key@)
                &&& p.1.deep_view() == assoc_view(old(v)@)[key@]
                &&& assoc_view(final(v)@) == assoc_view(old(v)@).remove(key@)
            },
            None => {
                &&& final(v)@ == old(v)@
                &&& !assoc_view(old(v)@).dom().contains(key@)
            },
        },
{
    match assoc_find(v, key) {
        Some(i) => {
            proof {
                lemma_assoc_view_at(old(v)@, i as int);
                lemma_assoc_view_remove(old(v)@, i as int);
            }
            Some(v.remove(i))
        },
        None => {
            proof {
                lemma_assoc_view_dom::<V>(old(v)@);
            }
            None
        },
    }
}

} // verus!
