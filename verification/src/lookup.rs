//! Finding a record by its id in a list of records, as a keyed table lookup
//! does.
use vstd::prelude::*;

verus! {

/// A record with an id.
pub trait Keyed {
    /// The record's id.
    spec fn key(&self) -> u128;

    /// Reads the record's id.
    fn id_of(&self) -> (r: u128)
        ensures
            r == self.key(),
    ;
}

/// The index of the first record of `s` whose id is `id`, if any.
pub open spec fn position_of<T: Keyed>(s: Seq<T>, id: u128) -> Option<int>
    decreases s.len(),
{
    if s.len() == 0 {
        None
    } else {
        match position_of(s.drop_last(), id) {
            Some(i) => Some(i),
            None => if s.last().key() == id {
                Some(s.len() - 1)
            } else {
                None
            },
        }
    }
}

/// The first record of `s` whose id is `id`, if any.
pub open spec fn find_by_key<T: Keyed>(s: Seq<T>, id: u128) -> Option<T> {
    match position_of(s, id) {
        Some(i) => Some(s[i]),
        None => None,
    }
}

/// What `position_of` gives: the first index with the id, or none when no
/// record has it.
pub proof fn lemma_position_of<T: Keyed>(s: Seq<T>, id: u128)
    ensures
        match position_of(s, id) {
            Some(i) => 0 <= i < s.len() && s[i].key() == id && forall|j: int|
                0 <= j < i ==> (#[trigger] s[j]).key() != id,
            None => forall|j: int| 0 <= j < s.len() ==> (#[trigger] s[j]).key() != id,
        },
    decreases s.len(),
{
    if s.len() > 0 {
        lemma_position_of(s.drop_last(), id);
        assert forall|j: int| 0 <= j < s.len() - 1 implies #[trigger] s[j] == s.drop_last()[j] by {}
    }
}

/// The index of the first record in `items` with id `id`.
pub fn index_of_id<T: Keyed>(items: &Vec<T>, id: u128) -> (r: Option<usize>)
    ensures
        match r {
            Some(i) => position_of(items@, id) == Some(i as int),
            None => position_of(items@, id) is None,
        },
{
    let mut i: usize = 0;
    while i < items.len()
        invariant
            i <= items.len(),
            position_of(items@.take(i as int), id) is None,
        decreases items.len() - i,
    {
        proof {
            assert(items@.take(i + 1).drop_last() =~= items@.take(i as int));
        }
        if items[i].id_of() == id {
            proof {
                assert(position_of(items@.take(i + 1), id) == Some(i as int));
                lemma_position_prefix(items@, i + 1, id);
            }
            return Some(i);
        }
        i = i + 1;
    }
    proof {
        assert(items@.take(items@.len() as int) =~= items@);
    }
    None
}

/// A match found in a prefix is the match of the whole sequence.
proof fn lemma_position_prefix<T: Keyed>(s: Seq<T>, n: int, id: u128)
    requires
        0 <= n <= s.len(),
        position_of(s.take(n), id) is Some,
    ensures
        position_of(s, id) == position_of(s.take(n), id),
    decreases s.len() - n,
{
    if n < s.len() {
        assert(s.take(n + 1).drop_last() =~= s.take(n));
        lemma_position_prefix(s, n + 1, id);
    } else {
        assert(s.take(n) =~= s);
    }
}

} // verus!
