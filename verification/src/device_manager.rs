//! The group server's registry: for each device of a group, the spec it
//! registered and the file system it shares, each keyed by the device's
//! id (the 128 bits of its UUID).

use vstd::prelude::*;
use crate::device::{DeviceSpec, FileSystem};
use vstd::std_specs::iter::IteratorSpec;
use vstd::std_specs::cmp::OrdSpec;

verus! {

broadcast use vstd::std_specs::btree::group_btree_axioms;

/// Ids in strictly increasing order.
pub open spec fn strictly_increasing(s: Seq<u128>) -> bool {
    forall|i: int, j: int| 0 <= i < j < s.len() ==> s[i] < s[j]
}

/// The number of ids of `ids` smaller than `k`: `k`'s position when `ids`
/// is listed smallest first.
pub open spec fn rank(ids: Set<u128>, k: u128) -> nat {
    ids.filter(|j: u128| j < k).len()
}

/// The id at position `n` when `ids` is listed smallest first (meaningful
/// for `0 <= n < ids.len()`).
pub open spec fn nth_id(ids: Set<u128>, n: int) -> u128 {
    choose|k: u128| ids.contains(k) && rank(ids, k) == n
}

/// The keys of `m`, smallest first.
fn sorted_keys<V>(m: &std::collections::BTreeMap<u128, V>) -> (ids: Vec<u128>)
    ensures
        ids@.to_set() == m@.dom(),
        ids@.no_duplicates(),
        strictly_increasing(ids@),
{
    broadcast use vstd::laws_cmp::group_laws_cmp;
    let ghost ks = vstd::std_specs::btree::spec_keys_iter(m).remaining();
    let mut ids: Vec<u128> = Vec::new();
    for k in it: m.keys()
        invariant
            it.seq() == ks,
            ids@.len() == it.index(),
            forall|i: int| 0 <= i < it.index() ==> ids@[i] == *ks[i],
    {
        ids.push(*k);
    }
    proof {
        vstd::std_specs::btree::axiom_spec_keys_iter(m);
        assert(ids@ =~= ks.unref());
        vstd::std_specs::btree::axiom_increasing_seq_meaning(ks);
        assert forall|i: int, j: int| 0 <= i < j < ids@.len() implies ids@[i] < ids@[j] by {
            assert(OrdSpec::cmp_spec(&ks[i], &ks[j]) is Less);
        }
    }
    ids
}

/// In a sequence listed smallest first without repeats, the id at position
/// `n` has exactly `n` smaller ids in the sequence.
pub proof fn lemma_rank_of_sorted(s: Seq<u128>, n: int)
    requires
        s.no_duplicates(),
        strictly_increasing(s),
        0 <= n < s.len(),
    ensures
        rank(s.to_set(), s[n]) == n,
        s.to_set().len() == s.len(),
{
    let below = s.to_set().filter(|j: u128| j < s[n]);
    let prefix = s.take(n);
    assert(below =~= prefix.to_set()) by {
        assert forall|x: u128| below.contains(x) implies prefix.to_set().contains(x) by {
            let i = choose|i: int| 0 <= i < s.len() && s[i] == x;
            if i >= n {
                assert(s[n] <= s[i]);
            }
            assert(prefix[i] == x);
        }
        assert forall|x: u128| prefix.to_set().contains(x) implies below.contains(x) by {
            let i = choose|i: int| 0 <= i < prefix.len() && prefix[i] == x;
            assert(s[i] == x);
        }
    }
    assert(prefix.no_duplicates());
    prefix.unique_seq_to_set();
    s.unique_seq_to_set();
}

/// In a sequence listed smallest first without repeats, position `n` holds
/// the `n`-th smallest id of the sequence.
pub proof fn lemma_nth_of_sorted(s: Seq<u128>, n: int)
    requires
        s.no_duplicates(),
        strictly_increasing(s),
        0 <= n < s.len(),
    ensures
        nth_id(s.to_set(), n) == s[n],
{
    lemma_rank_of_sorted(s, n);
    assert(s.to_set().contains(s[n]));
    let k = nth_id(s.to_set(), n);
    let j = choose|j: int| 0 <= j < s.len() && s[j] == k;
    lemma_rank_of_sorted(s, j);
}

/// The value stored under the `n`-th smallest key of `m` (`m` has more than
/// `n` keys).
fn nth_value<V>(m: &std::collections::BTreeMap<u128, V>, n: usize) -> (v: &V)
    requires
        n < m@.dom().len(),
    ensures
        m@.contains_key(nth_id(m@.dom(), n as int)),
        *v == m@[nth_id(m@.dom(), n as int)],
{
    let ids = sorted_keys(m);
    proof {
        ids@.unique_seq_to_set();
    }
    let k = ids[n];
    proof {
        lemma_nth_of_sorted(ids@, n as int);
        assert(ids@.to_set().contains(k));
    }
    m.get(&k).unwrap()
}

/// The registry of one group. Specs and file systems are kept apart: a
/// device may have registered one without the other.
#[derive(Clone, Debug)]
pub struct DeviceManager {
    id_spec_map: std::collections::BTreeMap<u128, DeviceSpec>,
    id_fs_map: std::collections::BTreeMap<u128, FileSystem>,
}

impl DeviceManager {
    /// The registered specs, by device id.
    pub closed spec fn specs(&self) -> Map<u128, DeviceSpec> {
        self.id_spec_map@
    }

    /// The registered file systems, by device id.
    pub closed spec fn file_systems(&self) -> Map<u128, FileSystem> {
        self.id_fs_map@
    }

    /// An empty registry.
    pub fn new() -> (dm: DeviceManager)
        ensures
            dm.specs() == Map::<u128, DeviceSpec>::empty(),
            dm.file_systems() == Map::<u128, FileSystem>::empty(),
    {
        DeviceManager {
            id_spec_map: std::collections::BTreeMap::new(),
            id_fs_map: std::collections::BTreeMap::new(),
        }
    }

    /// Registers (or replaces) the spec of device `id`.
    pub fn add_device_spec(&mut self, id: u128, device_spec: DeviceSpec)
        ensures
            final(self).specs() == old(self).specs().insert(id, device_spec),
            final(self).file_systems() == old(self).file_systems(),
    {
        self.id_spec_map.insert(id, device_spec);
    }

    /// Registers (or replaces) the file system of device `id`.
    pub fn add_device_fs(&mut self, id: u128, file_system: FileSystem)
        ensures
            final(self).file_systems() == old(self).file_systems().insert(id, file_system),
            final(self).specs() == old(self).specs(),
    {
        self.id_fs_map.insert(id, file_system);
    }

    /// The spec registered for device `id`, if any.
    pub fn get_device_spec(&self, id: u128) -> (r: Option<&DeviceSpec>)
        ensures
            r matches Some(s) ==> self.specs().contains_key(id) && *s == self.specs()[id],
            r is None <==> !self.specs().contains_key(id),
    {
        self.id_spec_map.get(&id)
    }

    /// The file system registered for device `id`, if any.
    pub fn get_device_fs(&self, id: u128) -> (r: Option<&FileSystem>)
        ensures
            r matches Some(f) ==> self.file_systems().contains_key(id) && *f == self.file_systems()[id],
            r is None <==> !self.file_systems().contains_key(id),
    {
        self.id_fs_map.get(&id)
    }

    /// The ids of the devices that registered a spec, smallest first: the
    /// order in which the client lists and numbers the devices of its group.
    pub fn spec_ids(&self) -> (ids: Vec<u128>)
        ensures
            ids@.to_set() == self.specs().dom(),
            ids@.no_duplicates(),
            strictly_increasing(ids@),
    {
        sorted_keys(&self.id_spec_map)
    }

    /// The ids of the devices that registered a file system, smallest first.
    pub fn fs_ids(&self) -> (ids: Vec<u128>)
        ensures
            ids@.to_set() == self.file_systems().dom(),
            ids@.no_duplicates(),
            strictly_increasing(ids@),
    {
        sorted_keys(&self.id_fs_map)
    }

    /// How many devices registered a spec.
    pub fn spec_count(&self) -> (n: usize)
        ensures
            n == self.specs().dom().len(),
    {
        broadcast use vstd::laws_cmp::group_laws_cmp;
        self.id_spec_map.len()
    }

    /// How many devices registered a file system.
    pub fn fs_count(&self) -> (n: usize)
        ensures
            n == self.file_systems().dom().len(),
    {
        broadcast use vstd::laws_cmp::group_laws_cmp;
        self.id_fs_map.len()
    }

    /// The spec of the device numbered `n` in the client's listing (the
    /// device with the `n`-th smallest id among those with a spec); there
    /// must be more than `n` such devices.
    pub fn nth_device_spec(&self, n: usize) -> (s: &DeviceSpec)
        requires
            n < self.specs().dom().len(),
        ensures
            self.specs().contains_key(nth_id(self.specs().dom(), n as int)),
            *s == self.specs()[nth_id(self.specs().dom(), n as int)],
    {
        nth_value(&self.id_spec_map, n)
    }

    /// The file system of the device with the `n`-th smallest id among those
    /// with a file system; there must be more than `n` such devices.
    pub fn nth_device_fs(&self, n: usize) -> (f: &FileSystem)
        requires
            n < self.file_systems().dom().len(),
        ensures
            self.file_systems().contains_key(nth_id(self.file_systems().dom(), n as int)),
            *f == self.file_systems()[nth_id(self.file_systems().dom(), n as int)],
    {
        nth_value(&self.id_fs_map, n)
    }

    /// Removes the spec of device `id`; tells whether there was one.
    pub fn delete_device_spec(&mut self, id: u128) -> (removed: bool)
        ensures
            removed == old(self).specs().contains_key(id),
            final(self).specs() == old(self).specs().remove(id),
            final(self).file_systems() == old(self).file_systems(),
    {
        match self.id_spec_map.remove(&id) {
            Some(_) => true,
            None => false,
        }
    }

    /// Removes the file system of device `id`; tells whether there was one.
    pub fn delete_device_fs(&mut self, id: u128) -> (removed: bool)
        ensures
            removed == old(self).file_systems().contains_key(id),
            final(self).file_systems() == old(self).file_systems().remove(id),
            final(self).specs() == old(self).specs(),
    {
        match self.id_fs_map.remove(&id) {
            Some(_) => true,
            None => false,
        }
    }
}

/// A spec registered for a device is what a later lookup of that device
/// gives; every other device keeps the spec it had, or its absence.
pub proof fn law_spec_read_after_write(before: DeviceManager, after: DeviceManager, id: u128, spec: DeviceSpec, other: u128)
    requires
        after.specs() == before.specs().insert(id, spec),
    ensures
        after.specs().contains_key(id),
        after.specs()[id] == spec,
        other != id ==> after.specs().contains_key(other) == before.specs().contains_key(other),
        other != id && before.specs().contains_key(other) ==> after.specs()[other] == before.specs()[other],
{
}

/// A file system registered for a device is what a later lookup of that
/// device gives; every other device keeps the file system it had, or its
/// absence.
pub proof fn law_fs_read_after_write(before: DeviceManager, after: DeviceManager, id: u128, fs: FileSystem, other: u128)
    requires
        after.file_systems() == before.file_systems().insert(id, fs),
    ensures
        after.file_systems().contains_key(id),
        after.file_systems()[id] == fs,
        other != id ==> after.file_systems().contains_key(other) == before.file_systems().contains_key(other),
        other != id && before.file_systems().contains_key(other) ==> after.file_systems()[other]
            == before.file_systems()[other],
{
}

/// Deleting the spec of a device that just registered one reports that it
/// was there, and leaves the registry as deleting it before the
/// registration would have: the device has no spec any more.
pub proof fn law_spec_delete_after_add(dm: DeviceManager, id: u128, spec: DeviceSpec)
    ensures
        dm.specs().insert(id, spec).contains_key(id),
        dm.specs().insert(id, spec).remove(id) == dm.specs().remove(id),
        !dm.specs().insert(id, spec).remove(id).contains_key(id),
{
    assert(dm.specs().insert(id, spec).remove(id) =~= dm.specs().remove(id));
}

/// Deleting the file system of a device that just registered one reports
/// that it was there, and leaves the registry as deleting it before the
/// registration would have.
pub proof fn law_fs_delete_after_add(dm: DeviceManager, id: u128, fs: FileSystem)
    ensures
        dm.file_systems().insert(id, fs).contains_key(id),
        dm.file_systems().insert(id, fs).remove(id) == dm.file_systems().remove(id),
        !dm.file_systems().insert(id, fs).remove(id).contains_key(id),
{
    assert(dm.file_systems().insert(id, fs).remove(id) =~= dm.file_systems().remove(id));
}

/// Deleting what a device never registered reports `false` and changes
/// nothing.
pub proof fn law_delete_absent(dm: DeviceManager, id: u128)
    ensures
        !dm.specs().contains_key(id) ==> dm.specs().remove(id) == dm.specs(),
        !dm.file_systems().contains_key(id) ==> dm.file_systems().remove(id) == dm.file_systems(),
{
    if !dm.specs().contains_key(id) {
        assert(dm.specs().remove(id) =~= dm.specs());
    }
    if !dm.file_systems().contains_key(id) {
        assert(dm.file_systems().remove(id) =~= dm.file_systems());
    }
}

/// A device registers its spec and its file system under one id, its own:
/// where every registered device has both, registering both for a device,
/// or deleting both, keeps it so.
pub proof fn law_paired_registration(before: DeviceManager, after_add: DeviceManager, after_delete: DeviceManager, id: u128, spec: DeviceSpec, fs: FileSystem)
    requires
        before.specs().dom() == before.file_systems().dom(),
        after_add.specs() == before.specs().insert(id, spec),
        after_add.file_systems() == before.file_systems().insert(id, fs),
        after_delete.specs() == before.specs().remove(id),
        after_delete.file_systems() == before.file_systems().remove(id),
    ensures
        after_add.specs().dom() == after_add.file_systems().dom(),
        after_delete.specs().dom() == after_delete.file_systems().dom(),
{
    assert(after_add.specs().dom() =~= after_add.file_systems().dom());
    assert(after_delete.specs().dom() =~= after_delete.file_systems().dom());
}

} // verus!
