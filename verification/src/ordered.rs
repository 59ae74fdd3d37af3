//! Searching a list that is kept in ascending order.
//!
//! The directory of devices and the table of requests both keep their
//! entries in a vector, in ascending order of what they are found by. This
//! is the search that they share.

use vstd::prelude::*;

verus! {

/// An entry that has a place in an order, and is found by a key that has
/// one.
pub trait Ranked {
    /// What entries are found by.
    type Key;

    /// The place of the entry in the order.
    spec fn rank(&self) -> int;

    /// The place in the order of an entry that is found by `key`.
    spec fn key_rank(key: &Self::Key) -> int;

    /// Does the entry come before every entry that is found by `key`?
    fn is_below(&self, key: &Self::Key) -> (b: bool)
        ensures
            b == (self.rank() < Self::key_rank(key)),
    ;
}

/// Are these entries in strictly ascending order?
pub open spec fn ranked_ascending<T: Ranked>(s: Seq<T>) -> bool {
    forall|i: int, j: int| #![trigger s[i], s[j]] 0 <= i < j < s.len() ==> s[i].rank() < s[j].rank()
}

/// Is `lo` where the entries found by `key` begin: behind every entry that
/// comes before them, and not behind any other?
pub open spec fn is_lower_bound<T: Ranked>(s: Seq<T>, key: &T::Key, lo: int) -> bool {
    &&& 0 <= lo <= s.len()
    &&& forall|i: int| 0 <= i < lo ==> (#[trigger] s[i]).rank() < T::key_rank(key)
    &&& forall|i: int| lo <= i < s.len() ==> T::key_rank(key) <= (#[trigger] s[i]).rank()
}

/// The index of the first entry that does not come before the entries found
/// by `key`, by bisection. Entries that are not in ascending order are
/// searched all the same, and the index says nothing of them.
pub fn lower_bound<T: Ranked>(entries: &Vec<T>, key: &T::Key) -> (lo: usize)
    ensures
        lo <= entries@.len(),
        ranked_ascending(entries@) ==> is_lower_bound(entries@, key, lo as int),
{
    let mut lo: usize = 0;
    let mut hi: usize = entries.len();
    while lo < hi
        invariant
            lo <= hi <= entries@.len(),
            ranked_ascending(entries@) ==> {
                &&& forall|i: int| 0 <= i < lo ==> (#[trigger] entries@[i]).rank() < T::key_rank(key)
                &&& forall|i: int|
                    hi <= i < entries@.len() ==> T::key_rank(key) <= (#[trigger] entries@[i]).rank()
            },
        decreases hi - lo,
    {
        let mid = lo + (hi - lo) / 2;
        if entries[mid].is_below(key) {
            proof {
                if ranked_ascending(entries@) {
                    assert forall|i: int| 0 <= i < mid + 1 implies (#[trigger] entries@[i]).rank()
                        < T::key_rank(key) by {
                        if i < mid {
                            assert(entries@[i].rank() < entries@[mid as int].rank());
                        }
                    }
                }
            }
            lo = mid + 1;
        } else {
            proof {
                if ranked_ascending(entries@) {
                    assert forall|i: int| mid <= i < entries@.len() implies T::key_rank(key) <= (
                    #[trigger] entries@[i]).rank() by {
                        if mid < i {
                            assert(entries@[mid as int].rank() < entries@[i].rank());
                        }
                    }
                }
            }
            hi = mid;
        }
    }
    lo
}

} // verus!
