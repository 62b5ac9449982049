//! Lists of values under keys, in the order in which the keys first came.

use crate::text::same;
use vstd::prelude::*;

verus! {

/// A value under a key.
#[derive(Debug)]
pub struct Keyed<T> {
    pub key: String,
    pub value: T,
}

impl<T: View> View for Keyed<T> {
    type V = (Seq<char>, T::V);

    open spec fn view(&self) -> (Seq<char>, T::V) {
        (self.key@, self.value@)
    }
}

/// The keys and values of a list.
pub open spec fn entries<T: View>(v: Seq<Keyed<T>>) -> Seq<(Seq<char>, T::V)> {
    v.map_values(|k: Keyed<T>| k@)
}

/// The value under a key.
pub open spec fn entry<V>(s: Seq<(Seq<char>, V)>, key: Seq<char>) -> Option<V>
    decreases s.len(),
{
    if s.len() == 0 {
        None
    } else if s.first().0 == key {
        Some(s.first().1)
    } else {
        entry(s.drop_first(), key)
    }
}

/// The list with a value under a key: in the place of the one that was there, else
/// at the end.
pub open spec fn with_entry<V>(s: Seq<(Seq<char>, V)>, key: Seq<char>, value: V) -> Seq<
    (Seq<char>, V),
>
    decreases s.len(),
{
    if s.len() == 0 {
        seq![(key, value)]
    } else if s.first().0 == key {
        seq![(key, value)] + s.drop_first()
    } else {
        seq![s.first()] + with_entry(s.drop_first(), key, value)
    }
}

/// What is put under a key is read back under it, and nothing else changes.
pub proof fn law_entry_reads_what_was_put<V>(
    s: Seq<(Seq<char>, V)>,
    key: Seq<char>,
    value: V,
    other: Seq<char>,
)
    ensures
        entry(with_entry(s, key, value), key) == Some(value),
        other != key ==> entry(with_entry(s, key, value), other) == entry(s, other),
    decreases s.len(),
{
    reveal_with_fuel(entry, 2);
    let r = with_entry(s, key, value);
    if s.len() == 0 {
        assert(r.drop_first() =~= Seq::<(Seq<char>, V)>::empty());
    } else if s.first().0 == key {
        assert(r.drop_first() =~= s.drop_first());
    } else {
        law_entry_reads_what_was_put(s.drop_first(), key, value, other);
        assert(r.drop_first() =~= with_entry(s.drop_first(), key, value));
    }
}

/// The place of a key.
pub fn find_entry<T: View>(v: &Vec<Keyed<T>>, key: &str) -> (r: Option<usize>)
    ensures
        match r {
            Some(i) => {
                &&& i < v@.len()
                &&& v@[i as int].key@ == key@
                &&& entry(entries(v@), key@) == Some(v@[i as int].value@)
                &&& forall|k: int| 0 <= k < i ==> (#[trigger] v@[k]).key@ != key@
            },
            None => {
                &&& entry(entries(v@), key@) is None
                &&& forall|k: int| 0 <= k < v@.len() ==> (#[trigger] v@[k]).key@ != key@
            },
        },
{
    let ghost all = entries(v@);
    let mut i: usize = 0;
    assert(all.skip(0) =~= all);
    while i < v.len()
        invariant
            i <= v@.len(),
            all == entries(v@),
            entry(all, key@) == entry(all.skip(i as int), key@),
            forall|k: int| 0 <= k < i ==> (#[trigger] v@[k]).key@ != key@,
        decreases v@.len() - i,
    {
        proof {
            assert(all.skip(i as int).drop_first() =~= all.skip(i + 1));
            assert(all.skip(i as int).first() == v@[i as int]@);
        }
        if same(v[i].key.as_str(), key) {
            return Some(i);
        }
        i += 1;
    }
    None
}

proof fn lemma_with_entry<V>(s: Seq<(Seq<char>, V)>, key: Seq<char>, value: V, i: int)
    requires
        0 <= i <= s.len(),
        forall|k: int| 0 <= k < i ==> (#[trigger] s[k]).0 != key,
    ensures
        i < s.len() && s[i].0 == key ==> with_entry(s, key, value) == s.update(i, (key, value)),
        i == s.len() ==> with_entry(s, key, value) == s.push((key, value)),
    decreases s.len(),
{
    if s.len() == 0 {
        assert(with_entry(s, key, value) =~= s.push((key, value)));
    } else if i == 0 {
        if s[0].0 == key {
            assert(seq![(key, value)] + s.drop_first() =~= s.update(0, (key, value)));
        }
    } else {
        let t = s.drop_first();
        assert(s[0].0 != key);
        assert forall|k: int| 0 <= k < i - 1 implies (#[trigger] t[k]).0 != key by {
            assert(t[k] == s[k + 1]);
        }
        lemma_with_entry(t, key, value, i - 1);
        if i < s.len() && s[i].0 == key {
            assert(t[i - 1] == s[i]);
            assert(seq![s.first()] + t.update(i - 1, (key, value)) =~= s.update(
                i,
                (key, value),
            ));
        }
        if i == s.len() {
            assert(seq![s.first()] + t.push((key, value)) =~= s.push((key, value)));
        }
    }
}

/// Puts a value under a key.
pub fn put_entry<T: View>(v: &mut Vec<Keyed<T>>, key: &str, value: T)
    ensures
        entries(final(v)@) == with_entry(entries(old(v)@), key@, value@),
{
    let ghost all = entries(v@);
    match find_entry(v, key) {
        Some(i) => {
            proof {
                assert forall|k: int| 0 <= k < i implies (#[trigger] all[k]).0 != key@ by {
                    assert(v@[k].key@ != key@);
                }
                lemma_with_entry(all, key@, value@, i as int);
            }
            v.set(i, Keyed { key: key.to_owned(), value });
            assert(entries(v@) =~= all.update(i as int, (key@, value@)));
        },
        None => {
            proof {
                assert forall|k: int| 0 <= k < all.len() implies (#[trigger] all[k]).0
                    != key@ by {
                    assert(v@[k].key@ != key@);
                }
                lemma_with_entry(all, key@, value@, all.len() as int);
            }
            v.push(Keyed { key: key.to_owned(), value });
            assert(entries(v@) =~= all.push((key@, value@)));
        },
    }
}

} // verus!
