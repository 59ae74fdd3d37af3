//! The directory of connected devices.
//!
//! A [`Registry`] maps the address of each connected device to what is known
//! of it. It keeps its entries in ascending order of address, so that the
//! order in which they are listed, and which of them is first, depends on
//! which devices are connected and not on when each of them arrived.

use crate::error::Empty;
use crate::ordered::{lower_bound, ranked_ascending, Ranked};
use vstd::prelude::*;

verus! {

/// The network address of a device.
#[derive(Clone, Copy, Debug, PartialEq, Eq, Structural)]
pub enum Address {
    /// An IPv4 address, its four bytes read as one big-endian number.
    V4(u32),
    /// An IPv6 address, its sixteen bytes read as one big-endian number.
    V6(u128),
}

impl Address {
    /// The place of an address in the order of all addresses: every IPv4
    /// address before every IPv6 address, and each kind by its number.
    pub open spec fn key(self) -> int {
        match self {
            Address::V4(a) => a as int,
            Address::V6(a) => 0x1_0000_0000 + a as int,
        }
    }

    /// Does `self` come before `other`?
    pub fn precedes(&self, other: &Address) -> (b: bool)
        ensures
            b == (self.key() < other.key()),
    {
        match (*self, *other) {
            (Address::V4(a), Address::V4(b)) => a < b,
            (Address::V4(_), Address::V6(_)) => true,
            (Address::V6(_), Address::V4(_)) => false,
            (Address::V6(a), Address::V6(b)) => a < b,
        }
    }
}

/// Two addresses with the same key are the same address.
pub proof fn lemma_key_is_injective(a: Address, b: Address)
    requires
        a.key() == b.key(),
    ensures
        a == b,
{
}

/// What the directory knows of one connected device. `H` is whatever the
/// caller uses to reach the device's connection.
pub struct DeviceInfo<H> {
    pub address: Address,
    pub nickname: String,
    pub pending_update: Option<String>,
    pub handle: H,
}

impl<H> Ranked for DeviceInfo<H> {
    type Key = Address;

    open spec fn rank(&self) -> int {
        self.address.key()
    }

    open spec fn key_rank(key: &Address) -> int {
        key.key()
    }

    fn is_below(&self, key: &Address) -> (b: bool) {
        self.address.precedes(key)
    }
}

/// Are these entries in strictly ascending order of address?
pub open spec fn ascending<H>(s: Seq<DeviceInfo<H>>) -> bool {
    forall|i: int, j: int| 0 <= i < j < s.len() ==> s[i].address.key() < s[j].address.key()
}

/// Is there an entry for `a`?
pub open spec fn registered<H>(s: Seq<DeviceInfo<H>>, a: Address) -> bool {
    exists|i: int| 0 <= i < s.len() && (#[trigger] s[i]).address == a
}

/// The index of an entry for `a`, where there is one.
pub open spec fn find<H>(s: Seq<DeviceInfo<H>>, a: Address) -> int {
    choose|i: int| 0 <= i < s.len() && (#[trigger] s[i]).address == a
}

/// The entries as a map from address to entry.
pub open spec fn as_map<H>(s: Seq<DeviceInfo<H>>) -> Map<Address, DeviceInfo<H>> {
    Map::new(|a: Address| registered(s, a), |a: Address| s[find(s, a)])
}

/// The entry a caller is served by: the one at the preferred address where
/// there is one, else the first, and none where there is no entry at all.
pub open spec fn resolve_spec<H>(s: Seq<DeviceInfo<H>>, preferred: Option<Address>) -> Option<
    DeviceInfo<H>,
> {
    if s.len() == 0 {
        None
    } else if preferred is Some && registered(s, preferred->0) {
        Some(s[find(s, preferred->0)])
    } else {
        Some(s[0])
    }
}

/// In an ascending sequence the entry at index `i` is the only one with its
/// address.
pub proof fn lemma_find_is_exact<H>(s: Seq<DeviceInfo<H>>, i: int)
    requires
        ascending(s),
        0 <= i < s.len(),
    ensures
        registered(s, s[i].address),
        find(s, s[i].address) == i,
{
    let a = s[i].address;
    let j = find(s, a);
    assert(0 <= j < s.len() && s[j].address == a);
    if j < i {
        assert(s[j].address.key() < s[i].address.key());
    } else if i < j {
        assert(s[i].address.key() < s[j].address.key());
    }
}

/// What is left of the map when the last entry of an ascending sequence is
/// taken away: the map without the address of that entry.
proof fn lemma_map_of_front<H>(s: Seq<DeviceInfo<H>>)
    requires
        ascending(s),
        s.len() > 0,
    ensures
        ascending(s.drop_last()),
        as_map(s.drop_last()) == as_map(s).remove(s.last().address),
{
    let front = s.drop_last();
    let a = s.last().address;
    lemma_find_is_exact(s, s.len() - 1);
    assert forall|b: Address| registered(front, b) <==> (b != a && registered(s, b)) by {
        if registered(front, b) {
            let x = find(front, b);
            assert(front[x] == s[x]);
            lemma_find_is_exact(s, x);
        }
        if registered(s, b) && b != a {
            let x = find(s, b);
            assert(s[x] == front[x]);
        }
    }
    assert forall|b: Address| registered(front, b) implies front[find(front, b)] == s[find(s, b)] by {
        let x = find(front, b);
        assert(front[x] == s[x]);
        lemma_find_is_exact(s, x);
    }
    assert(as_map(front) =~= as_map(s).remove(a));
}

/// The order of the directory does not depend on the order in which devices
/// arrived: two ascending sequences that hold the same devices under the
/// same addresses are the same sequence.
pub proof fn lemma_order_is_canonical<H>(s: Seq<DeviceInfo<H>>, t: Seq<DeviceInfo<H>>)
    requires
        ascending(s),
        ascending(t),
        as_map(s) == as_map(t),
    ensures
        s == t,
    decreases s.len(),
{
    if s.len() == 0 {
        if t.len() > 0 {
            lemma_find_is_exact(t, 0);
            assert(as_map(t).dom().contains(t[0].address));
            assert(registered(s, t[0].address));
        }
        assert(s =~= t);
    } else {
        let x = s.last();
        lemma_find_is_exact(s, s.len() - 1);
        assert(as_map(s).dom().contains(x.address));
        assert(registered(t, x.address));
        let k = find(t, x.address);
        assert(0 <= k < t.len() && t[k].address == x.address);
        let y = t.last();
        lemma_find_is_exact(t, t.len() - 1);
        assert(as_map(t).dom().contains(y.address));
        assert(registered(s, y.address));
        let j = find(s, y.address);
        assert(0 <= j < s.len() && s[j].address == y.address);
        if j < s.len() - 1 {
            assert(s[j].address.key() < x.address.key());
        }
        if k < t.len() - 1 {
            assert(t[k].address.key() < y.address.key());
        }
        lemma_key_is_injective(x.address, y.address);
        assert(as_map(s)[x.address] == x);
        assert(as_map(t)[x.address] == y);
        lemma_map_of_front(s);
        lemma_map_of_front(t);
        lemma_order_is_canonical(s.drop_last(), t.drop_last());
        assert(s =~= s.drop_last().push(x));
        assert(t =~= t.drop_last().push(y));
    }
}

/// A device that has just been registered is the one that a caller who
/// prefers its address is served by.
pub proof fn lemma_resolve_after_register<H>(
    before: Seq<DeviceInfo<H>>,
    after: Seq<DeviceInfo<H>>,
    info: DeviceInfo<H>,
)
    requires
        as_map(after) == as_map(before).insert(info.address, info),
    ensures
        resolve_spec(after, Some(info.address)) == Some(info),
{
    assert(as_map(after).dom().contains(info.address));
    assert(registered(after, info.address));
    assert(as_map(after)[info.address] == info);
}

/// Once a device has been deregistered, a caller who prefers its address is
/// served by the first device that is left, and by none where none is left.
pub proof fn lemma_resolve_after_deregister<H>(
    before: Seq<DeviceInfo<H>>,
    after: Seq<DeviceInfo<H>>,
    a: Address,
)
    requires
        as_map(after) == as_map(before).remove(a),
    ensures
        resolve_spec(after, Some(a)) == if after.len() == 0 {
            None
        } else {
            Some(after[0])
        },
{
    assert(!as_map(after).dom().contains(a));
    assert(!registered(after, a));
}

/// Does `info` fit into the ascending sequence `s` at index `i`: behind
/// every entry with a lesser address and before every entry with a greater
/// one, with no entry at its own address?
pub open spec fn fits<H>(s: Seq<DeviceInfo<H>>, i: int, info: DeviceInfo<H>) -> bool {
    &&& 0 <= i <= s.len()
    &&& forall|j: int| 0 <= j < i ==> (#[trigger] s[j]).address.key() < info.address.key()
    &&& forall|j: int| i <= j < s.len() ==> info.address.key() < (#[trigger] s[j]).address.key()
}

/// Taking an entry out of an ascending sequence leaves it ascending.
proof fn lemma_removal_keeps_order<H>(before: Seq<DeviceInfo<H>>, i: int)
    requires
        ascending(before),
        0 <= i < before.len(),
    ensures
        ascending(before.remove(i)),
{
    let after = before.remove(i);
    assert forall|x: int, y: int| 0 <= x < y < after.len() implies after[x].address.key()
        < after[y].address.key() by {
        let bx = if x < i { x } else { x + 1 };
        let by_ = if y < i { y } else { y + 1 };
        assert(after[x] == before[bx]);
        assert(after[y] == before[by_]);
    }
}

/// Taking an entry out of an ascending sequence leaves every other address
/// registered, and its own no longer.
proof fn lemma_removal_registered<H>(before: Seq<DeviceInfo<H>>, i: int, b: Address)
    requires
        ascending(before),
        0 <= i < before.len(),
    ensures
        registered(before.remove(i), b) == (b != before[i].address && registered(before, b)),
        registered(before.remove(i), b) ==> before.remove(i)[find(before.remove(i), b)]
            == before[find(before, b)],
{
    let after = before.remove(i);
    let a = before[i].address;
    lemma_find_is_exact(before, i);
    if registered(after, b) {
        let x = find(after, b);
        let bx = if x < i { x } else { x + 1 };
        assert(after[x] == before[bx]);
        lemma_find_is_exact(before, bx);
    }
    if registered(before, b) && b != a {
        let x = find(before, b);
        let ax = if x < i { x } else { x - 1 };
        assert(before[x] == after[ax]);
    }
}

/// Taking an entry out of an ascending sequence takes its address out of the
/// map, and nothing else.
proof fn lemma_removal_map<H>(before: Seq<DeviceInfo<H>>, i: int)
    requires
        ascending(before),
        0 <= i < before.len(),
    ensures
        as_map(before.remove(i)) == as_map(before).remove(before[i].address),
{
    let after = before.remove(i);
    assert forall|b: Address|
        registered(after, b) == (b != before[i].address && registered(before, b)) && (registered(
            after,
            b,
        ) ==> after[find(after, b)] == before[find(before, b)]) by {
        lemma_removal_registered(before, i, b);
    }
    assert(as_map(after) =~= as_map(before).remove(before[i].address));
}

/// Putting an entry where it fits leaves an ascending sequence ascending.
proof fn lemma_insertion_keeps_order<H>(before: Seq<DeviceInfo<H>>, i: int, info: DeviceInfo<H>)
    requires
        ascending(before),
        fits(before, i, info),
    ensures
        ascending(before.insert(i, info)),
{
    let after = before.insert(i, info);
    assert forall|x: int, y: int| 0 <= x < y < after.len() implies after[x].address.key()
        < after[y].address.key() by {
        if x != i {
            let bx = if x < i { x } else { x - 1 };
            assert(after[x] == before[bx]);
        }
        if y != i {
            let by_ = if y < i { y } else { y - 1 };
            assert(after[y] == before[by_]);
        }
    }
}

/// Putting an entry where it fits registers its address and leaves every
/// other address as it was.
proof fn lemma_insertion_registered<H>(
    before: Seq<DeviceInfo<H>>,
    i: int,
    info: DeviceInfo<H>,
    b: Address,
)
    requires
        ascending(before),
        fits(before, i, info),
    ensures
        registered(before.insert(i, info), b) == (b == info.address || registered(before, b)),
        !registered(before, info.address),
        b != info.address && registered(before, b) ==> before.insert(i, info)[find(
            before.insert(i, info),
            b,
        )] == before[find(before, b)],
{
    let after = before.insert(i, info);
    lemma_insertion_keeps_order(before, i, info);
    assert(after[i] == info);
    lemma_find_is_exact(after, i);
    if registered(before, info.address) {
        let x = find(before, info.address);
        assert(before[x].address.key() == info.address.key());
    }
    if registered(after, b) && b != info.address {
        let x = find(after, b);
        let bx = if x < i { x } else { x - 1 };
        assert(after[x] == before[bx]);
        lemma_find_is_exact(before, bx);
    }
    if registered(before, b) && b != info.address {
        let x = find(before, b);
        let ax = if x < i { x } else { x + 1 };
        assert(before[x] == after[ax]);
        lemma_find_is_exact(after, ax);
    }
}

/// Putting an entry where it fits puts it into the map under its address,
/// and changes nothing else.
proof fn lemma_insertion_map<H>(before: Seq<DeviceInfo<H>>, i: int, info: DeviceInfo<H>)
    requires
        ascending(before),
        fits(before, i, info),
    ensures
        as_map(before.insert(i, info)) == as_map(before).insert(info.address, info),
{
    let after = before.insert(i, info);
    lemma_insertion_keeps_order(before, i, info);
    assert(after[i] == info);
    lemma_find_is_exact(after, i);
    assert forall|b: Address|
        registered(after, b) == (b == info.address || registered(before, b)) && (b != info.address
            && registered(before, b) ==> after[find(after, b)] == before[find(before, b)]) by {
        lemma_insertion_registered(before, i, info, b);
    }
    assert(as_map(after) =~= as_map(before).insert(info.address, info));
}

/// The directory of connected devices.
pub struct Registry<H> {
    entries: Vec<DeviceInfo<H>>,
}

impl<H> View for Registry<H> {
    type V = Seq<DeviceInfo<H>>;

    /// The entries in the order in which they are listed.
    closed spec fn view(&self) -> Seq<DeviceInfo<H>> {
        self.entries@
    }
}

impl<H> Registry<H> {
    /// The entries are in strictly ascending order of address: no address
    /// occurs twice.
    #[verifier::type_invariant]
    pub open spec fn wf(&self) -> bool {
        ascending(self@)
    }

    /// Is a device registered at `a`?
    pub open spec fn contains(&self, a: Address) -> bool {
        registered(self@, a)
    }

    /// The entries as a map from address to entry.
    pub open spec fn devices(&self) -> Map<Address, DeviceInfo<H>> {
        as_map(self@)
    }

    /// A directory with no device in it.
    pub fn new() -> (r: Registry<H>)
        ensures
            r@.len() == 0,
            r.wf(),
    {
        Registry { entries: Vec::new() }
    }

    /// The number of registered devices.
    pub fn len(&self) -> (n: usize)
        ensures
            n == self@.len(),
    {
        self.entries.len()
    }

    /// Is no device registered?
    pub fn is_empty(&self) -> (b: bool)
        ensures
            b == (self@.len() == 0),
    {
        self.entries.len() == 0
    }

    /// The index of the first entry whose address does not come before `a`,
    /// and whether that entry is at `a`.
    fn search(&self, a: &Address) -> (r: (usize, bool))
        ensures
            self.wf(),
            r.0 <= self@.len(),
            forall|i: int| 0 <= i < r.0 ==> (#[trigger] self@[i]).address.key() < a.key(),
            forall|i: int| r.0 <= i < self@.len() ==> a.key() <= (#[trigger] self@[i]).address.key(),
            r.1 == (r.0 < self@.len() && self@[r.0 as int].address == *a),
            r.1 == self.contains(*a),
    {
        proof {
            use_type_invariant(self);
            assert(ranked_ascending(self.entries@));
        }
        let lo = lower_bound(&self.entries, a);
        let found = lo < self.entries.len() && !a.precedes(&self.entries[lo].address);
        proof {
            if found {
                lemma_key_is_injective(self@[lo as int].address, *a);
            }
            if self.contains(*a) {
                let j = find(self@, *a);
                assert(self@[j].address == *a);
                if j < lo {
                    assert(self@[j].address.key() < a.key());
                }
                if j > lo {
                    assert(self@[lo as int].address.key() < self@[j].address.key());
                }
            }
        }
        (lo, found)
    }

    /// The entry at `a`, if a device is registered there.
    pub fn get(&self, a: Address) -> (r: Option<&DeviceInfo<H>>)
        ensures
            self.wf(),
            r is Some == self.contains(a),
            r matches Some(info) ==> *info == self.devices()[a] && info.address == a,
    {
        let (i, found) = self.search(&a);
        if found {
            proof {
                lemma_find_is_exact(self@, i as int);
            }
            Some(&self.entries[i])
        } else {
            None
        }
    }

    /// The first entry in the order of addresses, if there is any entry.
    pub fn first(&self) -> (r: Option<&DeviceInfo<H>>)
        ensures
            r is Some == (self@.len() > 0),
            r matches Some(info) ==> *info == self@[0],
    {
        if self.entries.len() > 0 {
            Some(&self.entries[0])
        } else {
            None
        }
    }

    /// The device that serves a caller who would like the one at `preferred`:
    /// that device if it is registered, else the first registered device.
    /// Fails exactly when no device is registered.
    pub fn resolve(&self, preferred: Option<Address>) -> (r: Result<&DeviceInfo<H>, Empty>)
        ensures
            self.wf(),
            r is Err == (self@.len() == 0),
            match r {
                Ok(info) => Some(*info) == resolve_spec(self@, preferred),
                Err(_) => resolve_spec(self@, preferred) is None,
            },
            r matches Ok(info) ==> (preferred is Some && self.contains(preferred->0)
                ==> info.address == preferred->0),
    {
        proof {
            use_type_invariant(self);
        }
        if self.entries.len() == 0 {
            return Err(Empty);
        }
        if let Some(a) = preferred {
            let (i, found) = self.search(&a);
            if found {
                proof {
                    lemma_find_is_exact(self@, i as int);
                }
                return Ok(&self.entries[i]);
            }
        }
        Ok(&self.entries[0])
    }

    /// Address and nickname of every registered device, in ascending order
    /// of address. Fails exactly when no device is registered.
    pub fn list(&self) -> (r: Result<Vec<(Address, String)>, Empty>)
        ensures
            self.wf(),
            r is Err == (self@.len() == 0),
            r matches Ok(rows) ==> {
                &&& rows@.len() == self@.len()
                &&& forall|i: int|
                    0 <= i < rows@.len() ==> (#[trigger] rows@[i]).0 == self@[i].address
                        && rows@[i].1@ == self@[i].nickname@
            },
    {
        proof {
            use_type_invariant(self);
        }
        if self.entries.len() == 0 {
            return Err(Empty);
        }
        let mut rows: Vec<(Address, String)> = Vec::new();
        let mut i: usize = 0;
        while i < self.entries.len()
            invariant
                self@ == self.entries@,
                i <= self@.len(),
                rows@.len() == i,
                forall|k: int|
                    0 <= k < i ==> (#[trigger] rows@[k]).0 == self@[k].address && rows@[k].1@
                        == self@[k].nickname@,
            decreases self@.len() - i,
        {
            let entry = &self.entries[i];
            rows.push((entry.address, entry.nickname.clone()));
            i += 1;
        }
        Ok(rows)
    }

    /// Registers a device under its address. A device already registered at
    /// that address is replaced and handed back.
    pub fn register(&mut self, info: DeviceInfo<H>) -> (previous: Option<DeviceInfo<H>>)
        ensures
            final(self).wf(),
            final(self).devices() == old(self).devices().insert(info.address, info),
            forall|b: Address|
                #[trigger] final(self).contains(b) == (b == info.address || old(self).contains(b)),
            previous is Some == old(self).contains(info.address),
            previous matches Some(p) ==> p == old(self).devices()[info.address],
            final(self)@.len() == old(self)@.len() + if previous is Some {
                0int
            } else {
                1int
            },
    {
        let ghost before = self@;
        let (i, found) = self.search(&info.address);
        let mut entries: Vec<DeviceInfo<H>> = Vec::new();
        core::mem::swap(&mut self.entries, &mut entries);
        let previous = if found {
            proof {
                lemma_find_is_exact(before, i as int);
                lemma_removal_keeps_order(before, i as int);
                lemma_removal_map(before, i as int);
                assert forall|b: Address|
                    registered(before.remove(i as int), b) == (b != info.address && registered(
                        before,
                        b,
                    )) by {
                    lemma_removal_registered(before, i as int, b);
                }
            }
            Some(entries.remove(i))
        } else {
            None
        };
        let ghost mid = entries@;
        proof {
            assert(fits(mid, i as int, info)) by {
                assert forall|j: int| 0 <= j < i implies (#[trigger] mid[j]).address.key()
                    < info.address.key() by {
                    assert(mid[j] == before[j]);
                }
                assert forall|j: int| i <= j < mid.len() implies info.address.key() < (
                #[trigger] mid[j]).address.key() by {
                    if found {
                        assert(mid[j] == before[j + 1]);
                        assert(before[i as int].address.key() < before[j + 1].address.key());
                    } else {
                        assert(mid[j] == before[j]);
                        if before[j].address.key() == info.address.key() {
                            lemma_key_is_injective(before[j].address, info.address);
                            lemma_find_is_exact(before, j);
                        }
                    }
                }
            }
            lemma_insertion_keeps_order(mid, i as int, info);
            lemma_insertion_map(mid, i as int, info);
            assert forall|b: Address|
                registered(mid.insert(i as int, info), b) == (b == info.address || registered(
                    before,
                    b,
                )) by {
                lemma_insertion_registered(mid, i as int, info, b);
            }
            assert(as_map(mid).insert(info.address, info) =~= as_map(before).insert(
                info.address,
                info,
            ));
        }
        entries.insert(i, info);
        core::mem::swap(&mut self.entries, &mut entries);
        previous
    }

    /// Removes the device registered at `a`, if there is one, and hands it
    /// back.
    pub fn deregister(&mut self, a: Address) -> (removed: Option<DeviceInfo<H>>)
        ensures
            final(self).wf(),
            final(self).devices() == old(self).devices().remove(a),
            forall|b: Address| #[trigger] final(self).contains(b) == (b != a && old(self).contains(b)),
            removed is Some == old(self).contains(a),
            removed matches Some(p) ==> p == old(self).devices()[a],
            final(self)@.len() == old(self)@.len() - if removed is Some {
                1int
            } else {
                0int
            },
    {
        let ghost before = self@;
        let (i, found) = self.search(&a);
        if !found {
            assert(as_map(before) =~= as_map(before).remove(a));
            return None;
        }
        proof {
            lemma_find_is_exact(before, i as int);
            lemma_removal_keeps_order(before, i as int);
            lemma_removal_map(before, i as int);
            assert forall|b: Address|
                registered(before.remove(i as int), b) == (b != a && registered(before, b)) by {
                lemma_removal_registered(before, i as int, b);
            }
        }
        let mut entries: Vec<DeviceInfo<H>> = Vec::new();
        core::mem::swap(&mut self.entries, &mut entries);
        let gone = entries.remove(i);
        core::mem::swap(&mut self.entries, &mut entries);
        Some(gone)
    }
}

} // verus!
