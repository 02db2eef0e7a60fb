use vstd::prelude::*;

use crate::types::{same_key, PublicKeyBytes};

verus! {

/// The map that a list of keyed entries denotes: each key's bytes map to the
/// value of the last entry that carries it.
pub open spec fn keyed_view<V>(s: Seq<(PublicKeyBytes, V)>) -> Map<Seq<u8>, V>
    decreases s.len(),
{
    if s.len() == 0 {
        Map::empty()
    } else {
        keyed_view(s.drop_last()).insert(s.last().0.0@, s.last().1)
    }
}

/// No two entries carry the same key.
pub open spec fn unique_keys<V>(s: Seq<(PublicKeyBytes, V)>) -> bool {
    forall|i: int, j: int| 0 <= i < j < s.len() ==> s[i].0.0@ != s[j].0.0@
}

/// Overwriting the value of the last entry that carries a key updates the
/// denoted map at that key.
proof fn lemma_keyed_view_update<V>(s: Seq<(PublicKeyBytes, V)>, j: int, e: (PublicKeyBytes, V))
    requires
        0 <= j < s.len(),
        s[j].0.0@ == e.0.0@,
        forall|i: int| j < i < s.len() ==> s[i].0.0@ != e.0.0@,
    ensures
        keyed_view(s.update(j, e)) == keyed_view(s).insert(e.0.0@, e.1),
    decreases s.len(),
{
    let t = s.update(j, e);
    if j == s.len() - 1 {
        assert(t.drop_last() =~= s.drop_last());
        assert(keyed_view(t) =~= keyed_view(s).insert(e.0.0@, e.1));
    } else {
        let d = s.drop_last();
        assert(t.drop_last() =~= d.update(j, e));
        lemma_keyed_view_update(d, j, e);
        assert(s.last().0.0@ != e.0.0@);
        assert(keyed_view(t) =~= keyed_view(s).insert(e.0.0@, e.1));
    }
}

/// Appending an entry updates the denoted map at its key.
proof fn lemma_keyed_view_push<V>(s: Seq<(PublicKeyBytes, V)>, e: (PublicKeyBytes, V))
    ensures
        keyed_view(s.push(e)) == keyed_view(s).insert(e.0.0@, e.1),
{
    assert(s.push(e).drop_last() =~= s);
}

/// Sets the value under `key` to `value`: the last entry with that key is
/// overwritten, or a new entry is appended.
pub fn upsert<V>(entries: &mut Vec<(PublicKeyBytes, V)>, key: PublicKeyBytes, value: V)
    ensures
        unique_keys(old(entries)@) ==> unique_keys(final(entries)@),
        keyed_view(final(entries)@) == keyed_view(old(entries)@).insert(key.0@, value),
{
    let mut i: usize = entries.len();
    while i > 0
        invariant
            i <= entries@.len(),
            entries@ == old(entries)@,
            forall|j: int| i <= j < entries@.len() ==> entries@[j].0.0@ != key.0@,
        decreases i,
    {
        if same_key(&entries[i - 1].0, &key) {
            proof {
                lemma_keyed_view_update(entries@, i - 1, (key, value));
            }
            entries.set(i - 1, (key, value));
            proof {
                if unique_keys(old(entries)@) {
                    assert forall|a: int, b: int| 0 <= a < b < entries@.len() implies entries@[a].0.0@
                        != entries@[b].0.0@ by {
                        assert(old(entries)@[a].0.0@ != old(entries)@[b].0.0@);
                    }
                }
            }
            return;
        }
        i = i - 1;
    }
    proof {
        lemma_keyed_view_push(entries@, (key, value));
    }
    entries.push((key, value));
    proof {
        if unique_keys(old(entries)@) {
            assert forall|a: int, b: int| 0 <= a < b < entries@.len() implies entries@[a].0.0@
                != entries@[b].0.0@ by {
                if b == entries@.len() - 1 {
                    assert(entries@[b].0.0@ == key.0@);
                }
            }
        }
    }
}

} // verus!
