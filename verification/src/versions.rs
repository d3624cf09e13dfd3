//! Version numbering of records that belong to an owner (a project's
//! quotations, a design asset's revisions): a new record is numbered one
//! above the owner's highest version, starting at 1.
use vstd::prelude::*;

verus! {

/// A record numbered within its owner.
pub trait Versioned {
    /// The id of the record's owner.
    spec fn owner(&self) -> u128;

    /// The record's version number.
    spec fn version_number(&self) -> i32;

    /// Reads the owner's id.
    fn owner_of(&self) -> (r: u128)
        ensures
            r == self.owner(),
    ;

    /// Reads the version number.
    fn version_of(&self) -> (r: i32)
        ensures
            r == self.version_number(),
    ;
}

/// The highest version among the owner's records, if it has any.
pub open spec fn max_version<T: Versioned>(items: Seq<T>, owner: u128) -> Option<int>
    decreases items.len(),
{
    if items.len() == 0 {
        None
    } else {
        let prev = max_version(items.drop_last(), owner);
        let x = items.last();
        if x.owner() != owner {
            prev
        } else {
            match prev {
                Some(v) => if v >= x.version_number() {
                    Some(v)
                } else {
                    Some(x.version_number() as int)
                },
                None => Some(x.version_number() as int),
            }
        }
    }
}

/// The version the owner's next record gets: one above the highest, or 1
/// for the first.
pub open spec fn next_version<T: Versioned>(items: Seq<T>, owner: u128) -> int {
    match max_version(items, owner) {
        Some(v) => v + 1,
        None => 1,
    }
}

/// No record of the owner is at the largest version number.
pub open spec fn versions_below_max<T: Versioned>(items: Seq<T>, owner: u128) -> bool {
    forall|i: int| 0 <= i < items.len() && (#[trigger] items[i]).owner() == owner ==> items[i].version_number() < i32::MAX
}

/// What `max_version` gives: a version some record of the owner has, and
/// no record of the owner above it; none when the owner has no record.
pub proof fn lemma_max_version_bounds<T: Versioned>(items: Seq<T>, owner: u128)
    ensures
        match max_version(items, owner) {
            Some(v) => (exists|i: int|
                0 <= i < items.len() && (#[trigger] items[i]).owner() == owner && items[i].version_number() == v)
                && forall|i: int|
                0 <= i < items.len() && (#[trigger] items[i]).owner() == owner ==> items[i].version_number() <= v,
            None => forall|i: int| 0 <= i < items.len() ==> (#[trigger] items[i]).owner() != owner,
        },
    decreases items.len(),
{
    if items.len() > 0 {
        let prev = items.drop_last();
        lemma_max_version_bounds(prev, owner);
        let last = items.len() - 1;
        let x = items[last];
        assert(x == items.last());
        assert forall|i: int| 0 <= i < prev.len() implies #[trigger] prev[i] == items[i] by {}
        match max_version(prev, owner) {
            Some(v) => {
                let w = choose|i: int|
                    0 <= i < prev.len() && (#[trigger] prev[i]).owner() == owner && prev[i].version_number() == v;
                assert(items[w] == prev[w]);
                if x.owner() == owner && x.version_number() > v {
                    assert(max_version(items, owner) == Some(x.version_number() as int));
                    assert forall|i: int|
                        0 <= i < items.len() && (#[trigger] items[i]).owner() == owner implies items[i].version_number()
                        <= x.version_number() by {
                        if i < last {
                            assert(prev[i] == items[i]);
                        }
                    }
                } else {
                    assert(max_version(items, owner) == Some(v));
                    assert forall|i: int|
                        0 <= i < items.len() && (#[trigger] items[i]).owner() == owner implies items[i].version_number()
                        <= v by {
                        if i < last {
                            assert(prev[i] == items[i]);
                        }
                    }
                }
            },
            None => {
                if x.owner() == owner {
                    assert(max_version(items, owner) == Some(x.version_number() as int));
                    assert forall|i: int|
                        0 <= i < items.len() && (#[trigger] items[i]).owner() == owner implies items[i].version_number()
                        <= x.version_number() by {
                        if i < last {
                            assert(prev[i] == items[i]);
                        }
                    }
                } else {
                    assert(max_version(items, owner) is None);
                    assert forall|i: int| 0 <= i < items.len() implies (#[trigger] items[i]).owner() != owner by {
                        if i < last {
                            assert(prev[i] == items[i]);
                        }
                    }
                }
            },
        }
    }
}

/// Law: a new record's version is above every version its owner already
/// has, so no earlier version is overwritten.
pub proof fn lemma_next_version_is_fresh<T: Versioned>(items: Seq<T>, owner: u128)
    ensures
        forall|i: int|
            0 <= i < items.len() && (#[trigger] items[i]).owner() == owner ==> items[i].version_number() < next_version(
                items,
                owner,
            ),
{
    lemma_max_version_bounds(items, owner);
}

/// The version for the owner's next record.
pub fn compute_next_version<T: Versioned>(items: &Vec<T>, owner: u128) -> (r: i32)
    requires
        versions_below_max(items@, owner),
    ensures
        r == next_version(items@, owner),
{
    let mut best: Option<i32> = None;
    let mut i: usize = 0;
    while i < items.len()
        invariant
            i <= items.len(),
            versions_below_max(items@, owner),
            match best {
                Some(v) => max_version(items@.take(i as int), owner) == Some(v as int),
                None => max_version(items@.take(i as int), owner) is None,
            },
            best matches Some(v) ==> v < i32::MAX,
        decreases items.len() - i,
    {
        proof {
            assert(items@.take(i + 1).drop_last() =~= items@.take(i as int));
        }
        if items[i].owner_of() == owner {
            let version = items[i].version_of();
            best = match best {
                Some(v) => if v >= version {
                    Some(v)
                } else {
                    Some(version)
                },
                None => Some(version),
            };
        }
        i = i + 1;
    }
    proof {
        assert(items@.take(items@.len() as int) =~= items@);
    }
    match best {
        Some(v) => v + 1,
        None => 1,
    }
}

} // verus!
