//! Address-keyed native method mappings.
use vstd::prelude::*;

use super::native::{spec_resolve_method, MethodAddress, RegistrationInfo};
use crate::binary::BinaryImage;
use crate::metadata::Metadata;
use crate::model::MethodId;
use std::collections::BTreeMap;
use std::ops::Bound;
use crate::{Error, Result};

verus! {

/// The ids of the resolved addresses that start at `address`, in input order.
pub open spec fn ids_at(addresses: Seq<MethodAddress>, address: u64) -> Seq<MethodId>
    decreases addresses.len(),
{
    if addresses.len() == 0 {
        Seq::empty()
    } else {
        let rest = ids_at(addresses.drop_last(), address);
        if addresses.last().virtual_address == address {
            rest.push(addresses.last().method)
        } else {
            rest
        }
    }
}

/// The last resolved address given for method slot `method`.
pub open spec fn last_for(addresses: Seq<MethodAddress>, method: int) -> Option<MethodAddress>
    decreases addresses.len(),
{
    if addresses.len() == 0 {
        None
    } else if addresses.last().method.0 == method {
        Some(addresses.last())
    } else {
        last_for(addresses.drop_last(), method)
    }
}

/// The methods recorded at `address` in an address map, empty where it has no entry.
pub open spec fn methods_of(map: Map<u64, Vec<MethodId>>, address: u64) -> Seq<MethodId> {
    if map.contains_key(address) {
        map[address]@
    } else {
        Seq::empty()
    }
}

/// No entry of an address map is an empty list.
pub open spec fn lists_nonempty(map: Map<u64, Vec<MethodId>>) -> bool {
    forall|a: u64| #[trigger] map.contains_key(a) ==> map[a]@.len() > 0
}

/// The slot `method` of `slots`, empty beyond its end.
pub open spec fn slot_of(slots: Seq<Option<MethodAddress>>, method: int) -> Option<MethodAddress> {
    if 0 <= method < slots.len() {
        slots[method]
    } else {
        None
    }
}

/// Number of filled slots.
pub open spec fn filled(slots: Seq<Option<MethodAddress>>) -> nat
    decreases slots.len(),
{
    if slots.len() == 0 {
        0
    } else {
        filled(slots.drop_last()) + if slots.last() is Some {
            1nat
        } else {
            0nat
        }
    }
}

/// Some resolved address starts at `address`.
pub open spec fn lists_address(addresses: Seq<MethodAddress>, address: u64) -> bool {
    exists|k: int| 0 <= k < addresses.len() && (#[trigger] addresses[k]).virtual_address == address
}

/// How many method slots an index built from `addresses` has: at least `method_count`, and
/// one past every method the addresses name.
pub open spec fn slot_bound(method_count: nat, addresses: Seq<MethodAddress>) -> nat
    decreases addresses.len(),
{
    if addresses.len() == 0 {
        method_count
    } else {
        let below = slot_bound(method_count, addresses.drop_last());
        if addresses.last().method.0 + 1 > below {
            (addresses.last().method.0 + 1) as nat
        } else {
            below
        }
    }
}

/// How many of the method slots below `n` some address names.
pub open spec fn mapped_ids(addresses: Seq<MethodAddress>, n: nat) -> nat
    decreases n,
{
    if n == 0 {
        0
    } else {
        mapped_ids(addresses, (n - 1) as nat) + if last_for(addresses, n - 1) is Some {
            1nat
        } else {
            0nat
        }
    }
}

proof fn lemma_ids_at_nonempty(addresses: Seq<MethodAddress>, address: u64)
    ensures
        ids_at(addresses, address).len() > 0 <==> lists_address(addresses, address),
    decreases addresses.len(),
{
    if addresses.len() > 0 {
        let rest = addresses.drop_last();
        lemma_ids_at_nonempty(rest, address);
        if lists_address(rest, address) {
            let k = choose|k: int| 0 <= k < rest.len() && (#[trigger] rest[k]).virtual_address == address;
            assert(addresses[k] == rest[k]);
        }
        if lists_address(addresses, address) && addresses.last().virtual_address != address {
            let k = choose|k: int|
                0 <= k < addresses.len() && (#[trigger] addresses[k]).virtual_address == address;
            assert(k < rest.len());
            assert(rest[k] == addresses[k]);
        }
        if addresses.last().virtual_address == address {
            assert(addresses[addresses.len() - 1] == addresses.last());
        }
    }
}

proof fn lemma_method_below_bound(method_count: nat, addresses: Seq<MethodAddress>, k: int)
    requires
        0 <= k < addresses.len(),
    ensures
        addresses[k].method.0 < slot_bound(method_count, addresses),
        slot_bound(method_count, addresses) >= method_count,
    decreases addresses.len(),
{
    let rest = addresses.drop_last();
    if k < addresses.len() - 1 {
        assert(rest[k] == addresses[k]);
        lemma_method_below_bound(method_count, rest, k);
    } else {
        if rest.len() > 0 {
            lemma_method_below_bound(method_count, rest, 0);
        }
    }
}

proof fn lemma_filled_counts(slots: Seq<Option<MethodAddress>>, addresses: Seq<MethodAddress>)
    requires
        forall|m: int| 0 <= m < slots.len() ==> #[trigger] slots[m] == last_for(addresses, m),
    ensures
        filled(slots) == mapped_ids(addresses, slots.len()),
    decreases slots.len(),
{
    if slots.len() > 0 {
        let rest = slots.drop_last();
        assert forall|m: int| 0 <= m < rest.len() implies #[trigger] rest[m] == last_for(addresses, m) by {
            assert(rest[m] == slots[m]);
        }
        lemma_filled_counts(rest, addresses);
        assert(slots.last() == slots[slots.len() - 1]);
    }
}

/// The resolved addresses of the first `count` metadata methods that have native code.
pub open spec fn resolved_addresses<B: BinaryImage>(
    info: RegistrationInfo,
    binary: &B,
    metadata: Metadata,
    count: nat,
) -> Seq<MethodAddress>
    decreases count,
{
    if count == 0 {
        Seq::empty()
    } else {
        let rest = resolved_addresses(info, binary, metadata, (count - 1) as nat);
        match spec_resolve_method(info, binary, metadata, metadata.methods@[count - 1].id) {
            Ok(Some(address)) => rest.push(address),
            _ => rest,
        }
    }
}

/// Resolution succeeds for each of the first `count` metadata methods.
pub open spec fn resolutions_succeed<B: BinaryImage>(
    info: RegistrationInfo,
    binary: &B,
    metadata: Metadata,
    count: nat,
) -> bool {
    forall|k: int|
        0 <= k < count ==> #[trigger] spec_resolve_method(
            info,
            binary,
            metadata,
            metadata.methods@[k].id,
        ) is Ok
}

proof fn lemma_resolutions_fail<B: BinaryImage>(
    info: RegistrationInfo,
    binary: &B,
    metadata: Metadata,
    k: nat,
)
    requires
        k < metadata.methods@.len(),
        spec_resolve_method(info, binary, metadata, metadata.methods@[k as int].id) is Err,
    ensures
        !resolutions_succeed(info, binary, metadata, metadata.methods@.len()),
{
}

/// `e` is the error of the first metadata method, in table order, whose resolution fails.
pub open spec fn first_resolution_error<B: BinaryImage>(
    info: RegistrationInfo,
    binary: &B,
    metadata: Metadata,
    e: Error,
) -> bool {
    exists|k: int|
        0 <= k < metadata.methods@.len() && #[trigger] spec_resolve_method(
            info,
            binary,
            metadata,
            metadata.methods@[k].id,
        ) == Err::<Option<MethodAddress>, Error>(e) && resolutions_succeed(
            info,
            binary,
            metadata,
            k as nat,
        )
}

/// Address-keyed native method mappings built once for fast call resolution.
#[derive(Debug)]
pub struct NativeMethodIndex {
    by_address: BTreeMap<u64, Vec<MethodId>>,
    by_method: Vec<Option<MethodAddress>>,
}

impl NativeMethodIndex {
    #[verifier::type_invariant]
    closed spec fn well_formed(self) -> bool {
        lists_nonempty(self.by_address@)
    }

    /// The methods that start at `address`, in the order they were added.
    pub closed spec fn methods_at(self, address: u64) -> Seq<MethodId> {
        methods_of(self.by_address@, address)
    }

    /// The resolved address recorded for method slot `method`.
    pub closed spec fn slot(self, method: int) -> Option<MethodAddress> {
        slot_of(self.by_method@, method)
    }

    /// The recorded method slots.
    pub closed spec fn slots(self) -> Seq<Option<MethodAddress>> {
        self.by_method@
    }

    /// The addresses at which some method starts.
    pub closed spec fn starts(self) -> Set<u64> {
        self.by_address@.dom()
    }

    /// The slot of `method` is the entry of `slots()` at its index, and empty beyond the end.
    pub proof fn lemma_slot_in_slots(self, method: int)
        ensures
            self.slot(method) == slot_of(self.slots(), method),
    {
    }
}

/// `index` is the index of `resolved` for a table of `method_count` methods: who starts
/// where, each method's last address, how many slots exist and are filled, and which
/// addresses start a method.
pub open spec fn index_describes(index: NativeMethodIndex, resolved: Seq<MethodAddress>, method_count: nat) -> bool {
    &&& forall|a: u64| #[trigger] index.methods_at(a) == ids_at(resolved, a)
    &&& forall|m: int| 0 <= m ==> #[trigger] index.slot(m) == last_for(resolved, m)
    &&& index.slots().len() >= method_count
    &&& index.slots().len() == slot_bound(method_count, resolved)
    &&& filled(index.slots()) == mapped_ids(resolved, index.slots().len())
    &&& forall|k: int|
        0 <= k < resolved.len() ==> (#[trigger] resolved[k]).method.0 < index.slots().len()
    &&& forall|a: u64| #[trigger] index.starts().contains(a) <==> lists_address(resolved, a)
}

/// Appends `method` to the list of methods starting at `address`.
fn add_method(map: &mut BTreeMap<u64, Vec<MethodId>>, address: u64, method: MethodId)
    requires
        lists_nonempty(old(map)@),
    ensures
        lists_nonempty(final(map)@),
        forall|a: u64|
            #[trigger] methods_of(final(map)@, a) == if a == address {
                methods_of(old(map)@, a).push(method)
            } else {
                methods_of(old(map)@, a)
            },
{
    broadcast use vstd::laws_cmp::group_laws_cmp;
    broadcast use vstd::std_specs::btree::group_btree_axioms;

    let ghost before = map@;
    let mut list = match map.remove(&address) {
        Some(list) => list,
        None => Vec::new(),
    };
    assert(map@ == before.remove(address));
    assert(list@ == methods_of(before, address));
    list.push(method);
    map.insert(address, list);
    assert forall|a: u64| #[trigger] map@.contains_key(a) implies map@[a]@.len() > 0 by {
        if a != address {
            assert(before.contains_key(a));
        }
    }
}

/// The least key of `map` above `address`, from `BTreeMap::range` over the keys after
/// `address`, which yields keys in increasing order.
#[verifier::external_body]
fn first_key_after(map: &BTreeMap<u64, Vec<MethodId>>, address: u64) -> (r: Option<u64>)
    ensures
        r matches Some(k) ==> map@.contains_key(k) && k > address && forall|j: u64|
            #[trigger] map@.contains_key(j) && j > address ==> k <= j,
        r is None ==> forall|j: u64| #[trigger] map@.contains_key(j) ==> j <= address,
{
    map.range((Bound::Excluded(address), Bound::Unbounded)).next().map(|(key, _)| *key)
}

impl Default for NativeMethodIndex {
    fn default() -> (r: Self)
        ensures
            forall|a: u64| #[trigger] r.methods_at(a) == Seq::<MethodId>::empty(),
            r.slots().len() == 0,
    {
        NativeMethodIndex { by_address: BTreeMap::new(), by_method: Vec::new() }
    }
}

impl NativeMethodIndex {
    /// Builds an index from already-resolved addresses; a later address for the same method
    /// replaces an earlier one, and methods sharing a start keep their input order.
    pub fn from_addresses(method_count: usize, addresses: Vec<MethodAddress>) -> (r: Self)
        ensures
            forall|a: u64| #[trigger] r.methods_at(a) == ids_at(addresses@, a),
            forall|m: int| 0 <= m ==> #[trigger] r.slot(m) == last_for(addresses@, m),
            r.slots().len() >= method_count,
            r.slots().len() == slot_bound(method_count as nat, addresses@),
            forall|k: int|
                0 <= k < addresses@.len() ==> (#[trigger] addresses@[k]).method.0 < r.slots().len(),
            filled(r.slots()) == mapped_ids(addresses@, r.slots().len()),
            forall|a: u64| #[trigger] r.starts().contains(a) <==> lists_address(addresses@, a),
            forall|m: int|
                0 <= m && #[trigger] r.slot(m) is Some ==> r.methods_at(
                    r.slot(m)->0.virtual_address,
                ).contains(MethodId(m as usize)),
    {
        let mut by_address: BTreeMap<u64, Vec<MethodId>> = BTreeMap::new();
        let mut by_method: Vec<Option<MethodAddress>> = Vec::new();
        while by_method.len() < method_count
            invariant
                by_method@.len() <= method_count,
                forall|m: int| 0 <= m < by_method@.len() ==> by_method@[m] is None,
            decreases method_count - by_method@.len(),
        {
            by_method.push(None);
        }
        assert(addresses@.take(0) =~= Seq::<MethodAddress>::empty());
        let mut i: usize = 0;
        while i < addresses.len()
            invariant
                i <= addresses@.len(),
                lists_nonempty(by_address@),
                by_method@.len() >= method_count,
                by_method@.len() == slot_bound(method_count as nat, addresses@.take(i as int)),
                forall|a: u64|
                    #[trigger] methods_of(by_address@, a) == ids_at(
                        addresses@.take(i as int),
                        a,
                    ),
                forall|m: int|
                    0 <= m ==> #[trigger] slot_of(by_method@, m) == last_for(
                        addresses@.take(i as int),
                        m,
                    ),
            decreases addresses@.len() - i,
        {
            let address = addresses[i].clone();
            let method = address.method;
            assert(addresses@.take(i + 1).drop_last() =~= addresses@.take(i as int));
            add_method(&mut by_address, address.virtual_address, method);
            let ghost before_len = by_method@.len();
            while by_method.len() <= method.0
                invariant
                    by_method@.len() >= method_count,
                    by_method@.len() >= before_len,
                    by_method@.len() > before_len ==> by_method@.len() <= method.0 + 1,
                    forall|m: int|
                        0 <= m ==> #[trigger] slot_of(by_method@, m) == last_for(
                            addresses@.take(i as int),
                            m,
                        ),
                decreases method.0 + 1 - by_method@.len(),
            {
                let ghost before = by_method@;
                by_method.push(None);
                assert forall|m: int| 0 <= m implies #[trigger] slot_of(by_method@, m) == slot_of(
                    before,
                    m,
                ) by {
                    if m < before.len() {
                        assert(by_method@[m] == before[m]);
                    }
                }
            }
            let ghost before = by_method@;
            by_method.set(method.0, Some(address));
            assert forall|m: int| 0 <= m implies #[trigger] slot_of(by_method@, m) == last_for(
                addresses@.take(i + 1),
                m,
            ) by {
                assert(addresses@.take(i + 1).last() == addresses@[i as int]);
                if m != method.0 {
                    assert(slot_of(by_method@, m) == slot_of(before, m));
                }
            }
            i = i + 1;
        }
        assert(addresses@.take(addresses@.len() as int) =~= addresses@);
        let index = NativeMethodIndex { by_address, by_method };
        proof {
            assert forall|k: int| 0 <= k < addresses@.len() implies (#[trigger] addresses@[k]).method.0
                < index.slots().len() by {
                lemma_method_below_bound(method_count as nat, addresses@, k);
            }
            assert forall|m: int| 0 <= m < index.slots().len() implies #[trigger] index.slots()[m]
                == last_for(addresses@, m) by {
                assert(index.slot(m) == last_for(addresses@, m));
            }
            lemma_filled_counts(index.slots(), addresses@);
            assert forall|a: u64| #[trigger] index.starts().contains(a) <==> lists_address(
                addresses@,
                a,
            ) by {
                lemma_ids_at_nonempty(addresses@, a);
                assert(methods_of(index.by_address@, a) == ids_at(addresses@, a));
            }
            assert forall|m: int|
                0 <= m && #[trigger] index.slot(m) is Some implies index.methods_at(
                    index.slot(m)->0.virtual_address,
                ).contains(MethodId(m as usize)) by {
                law_address_of_is_listed(addresses@, m);
            }
        }
        index
    }

    /// Resolves every metadata method and indexes all generated native addresses.
    pub fn build<B: BinaryImage>(
        binary: &B,
        metadata: &Metadata,
        registration: &RegistrationInfo,
    ) -> (r: Result<Self>)
        ensures
            r is Ok <==> resolutions_succeed(
                *registration,
                binary,
                *metadata,
                metadata.methods@.len(),
            ),
            r matches Err(e) ==> first_resolution_error(*registration, binary, *metadata, e),
            r matches Ok(index) ==> index_describes(
                index,
                resolved_addresses(*registration, binary, *metadata, metadata.methods@.len()),
                metadata.methods@.len(),
            ),
    {
        let mut addresses: Vec<MethodAddress> = Vec::new();
        let mut k: usize = 0;
        while k < metadata.methods.len()
            invariant
                k <= metadata.methods@.len(),
                resolutions_succeed(*registration, binary, *metadata, k as nat),
                addresses@ == resolved_addresses(*registration, binary, *metadata, k as nat),
            decreases metadata.methods@.len() - k,
        {
            let id = metadata.methods[k].id;
            match registration.resolve_method(binary, metadata, id) {
                Ok(Some(address)) => addresses.push(address),
                Ok(None) => {},
                Err(e) => {
                    proof {
                        lemma_resolutions_fail(*registration, binary, *metadata, k as nat);
                    }
                    return Err(e);
                },
            }
            k = k + 1;
        }
        Ok(Self::from_addresses(metadata.methods.len(), addresses))
    }

    /// Returns one method starting exactly at an address.
    pub fn method_at_address(&self, address: u64) -> (r: Option<MethodId>)
        ensures
            self.methods_at(address).len() == 0 ==> r is None,
            self.methods_at(address).len() > 0 ==> r == Some(self.methods_at(address)[0]),
    {
        let methods = self.methods_at_address(address);
        if methods.len() == 0 {
            None
        } else {
            Some(methods[0])
        }
    }

    /// Returns every method sharing an exact native start address.
    pub fn methods_at_address(&self, address: u64) -> (r: &[MethodId])
        ensures
            r@ == self.methods_at(address),
    {
        proof {
            use_type_invariant(self);
        }
        broadcast use vstd::laws_cmp::group_laws_cmp;
        broadcast use vstd::std_specs::btree::group_btree_axioms;

        match self.by_address.get(&address) {
            Some(list) => list.as_slice(),
            None => {
                let empty: &[MethodId] = &[];
                assert(empty@ =~= Seq::<MethodId>::empty());
                empty
            },
        }
    }

    /// Returns one method's resolved address.
    pub fn address_of(&self, method: MethodId) -> (r: Option<&MethodAddress>)
        ensures
            match r {
                Some(a) => self.slot(method.0 as int) == Some(*a),
                None => self.slot(method.0 as int) is None,
            },
    {
        if method.0 < self.by_method.len() {
            match &self.by_method[method.0] {
                Some(address) => Some(address),
                None => None,
            }
        } else {
            None
        }
    }

    /// Returns the next distinct known native method start.
    pub fn next_address_after(&self, address: u64) -> (r: Option<u64>)
        ensures
            match r {
                Some(next) => next > address && self.starts().contains(next) && forall|s: u64|
                    #[trigger] self.starts().contains(s) && s > address ==> next <= s,
                None => forall|s: u64| #[trigger] self.starts().contains(s) ==> s <= address,
            },
    {
        first_key_after(&self.by_address, address)
    }

    /// Returns the number of metadata methods with native mappings.
    pub fn mapped_method_count(&self) -> (r: usize)
        ensures
            r == filled(self.slots()),
    {
        let mut count: usize = 0;
        let mut i: usize = 0;
        while i < self.by_method.len()
            invariant
                i <= self.by_method@.len(),
                count == filled(self.by_method@.take(i as int)),
                count <= i,
            decreases self.by_method@.len() - i,
        {
            assert(self.by_method@.take(i + 1).drop_last() =~= self.by_method@.take(i as int));
            if self.by_method[i].is_some() {
                count = count + 1;
            }
            i = i + 1;
        }
        assert(self.by_method@.take(self.by_method@.len() as int) =~= self.by_method@);
        count
    }
}


proof fn lemma_last_for_listed(addresses: Seq<MethodAddress>, method: int)
    requires
        last_for(addresses, method) is Some,
    ensures
        last_for(addresses, method)->0.method.0 == method,
        ids_at(addresses, last_for(addresses, method)->0.virtual_address).contains(
            last_for(addresses, method)->0.method,
        ),
    decreases addresses.len(),
{
    let found = last_for(addresses, method)->0;
    if addresses.last().method.0 == method {
        let ids = ids_at(addresses, found.virtual_address);
        assert(ids == ids_at(addresses.drop_last(), found.virtual_address).push(found.method));
        assert(ids[ids.len() - 1] == found.method);
    } else {
        lemma_last_for_listed(addresses.drop_last(), method);
        lemma_ids_at_grows(addresses, found.virtual_address);
    }
}

proof fn lemma_ids_at_grows(addresses: Seq<MethodAddress>, address: u64)
    requires
        addresses.len() > 0,
    ensures
        forall|id: MethodId|
            ids_at(addresses.drop_last(), address).contains(id) ==> ids_at(addresses, address).contains(
                id,
            ),
{
    let before = ids_at(addresses.drop_last(), address);
    let after = ids_at(addresses, address);
    assert forall|id: MethodId| before.contains(id) implies after.contains(id) by {
        let i = choose|i: int| 0 <= i < before.len() && before[i] == id;
        if addresses.last().virtual_address == address {
            assert(after == before.push(addresses.last().method));
            assert(after[i] == id);
        }
    }
}

/// A method's recorded address and the address index agree: a method with a recorded
/// address is listed among the methods that start there.
pub proof fn law_address_of_is_listed(addresses: Seq<MethodAddress>, method: int)
    requires
        0 <= method,
        last_for(addresses, method) is Some,
    ensures
        ids_at(addresses, last_for(addresses, method)->0.virtual_address).contains(
            MethodId(method as usize),
        ),
{
    lemma_last_for_listed(addresses, method);
}

} // verus!
