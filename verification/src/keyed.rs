//! Entries kept in ascending key order, as in an ordered map with string keys.

use vstd::prelude::*;

use crate::text::{first_str_at, lemma_first_str_at, position, str_eq};

verus! {

/// The keys of `entries`, in order.
pub open spec fn keys_of<V>(entries: Seq<(String, V)>) -> Seq<Seq<char>> {
    entries.map_values(|e: (String, V)| e.0@)
}

/// `a` sorts before `b`, character by character (the order of `String`,
/// since UTF-8 keeps the order of scalar values).
pub open spec fn str_less(a: Seq<char>, b: Seq<char>) -> bool
    decreases a.len(),
{
    if b.len() == 0 {
        false
    } else if a.len() == 0 {
        true
    } else if (a[0] as u32) < (b[0] as u32) {
        true
    } else if a[0] == b[0] {
        str_less(a.drop_first(), b.drop_first())
    } else {
        false
    }
}

/// Keys strictly ascending: each key once, in map order.
pub open spec fn ascending(keys: Seq<Seq<char>>) -> bool {
    forall|i: int, j: int| 0 <= i < j < keys.len() ==> str_less(#[trigger] keys[i], #[trigger] keys[j])
}

/// A key never sorts before itself.
pub proof fn lemma_str_less_irreflexive(a: Seq<char>)
    ensures
        !str_less(a, a),
    decreases a.len(),
{
    if a.len() > 0 {
        lemma_str_less_irreflexive(a.drop_first());
    }
}

/// In ascending keys each key occurs once.
pub proof fn lemma_ascending_distinct(keys: Seq<Seq<char>>, i: int, j: int)
    requires
        ascending(keys),
        0 <= i < keys.len(),
        0 <= j < keys.len(),
        i != j,
    ensures
        keys[i] != keys[j],
{
    if i < j {
        lemma_str_less_irreflexive(keys[i]);
        assert(str_less(keys[i], keys[j]));
    } else {
        lemma_str_less_irreflexive(keys[j]);
        assert(str_less(keys[j], keys[i]));
    }
}

/// Position of the entry with key `name`.
pub fn find_key<V>(entries: &Vec<(String, V)>, name: &str) -> (r: Option<usize>)
    ensures
        r matches Some(i) ==> position(keys_of(entries@), name@) == Some(i as int) && i < entries@.len(),
        r is None ==> position(keys_of(entries@), name@) is None,
{
    let mut i: usize = 0;
    while i < entries.len()
        invariant
            i <= entries@.len(),
            forall|j: int| 0 <= j < i ==> keys_of(entries@)[j] != name@,
        decreases entries@.len() - i,
    {
        if str_eq(entries[i].0.as_str(), name) {
            proof {
                lemma_first_str_at(keys_of(entries@), name@, i as int);
            }
            return Some(i);
        }
        i = i + 1;
    }
    assert(!keys_of(entries@).contains(name@)) by {
        if keys_of(entries@).contains(name@) {
            let k = choose|k: int| 0 <= k < keys_of(entries@).len() && keys_of(entries@)[k] == name@;
            assert(keys_of(entries@)[k] != name@);
        }
    }
    None
}

} // verus!
