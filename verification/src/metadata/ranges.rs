//! Index and range validation shared by the metadata tables.
use vstd::prelude::*;

use crate::model::TypeIndex;
use crate::{Error, Result};

verus! {

/// The half-open item range described by a signed start and a count, if it is valid for a
/// table of `total` items. A start of -1 with a count of 0 describes the empty range.
pub open spec fn spec_range(start: i32, count: int, total: int) -> Option<(int, int)> {
    if count == 0 && start == -1 {
        Some((0, 0))
    } else if start < 0 || start + count > total {
        None
    } else {
        Some((start as int, start + count))
    }
}

/// Validates a table range and returns its bounds.
pub fn checked_range(start: i32, count: usize, total: usize, name: &'static str) -> (r: Result<
    (usize, usize),
>)
    ensures
        spec_range(start, count as int, total as int) matches Some(b) ==> r == Ok::<
            (usize, usize),
            Error,
        >((b.0 as usize, b.1 as usize)),
        spec_range(start, count as int, total as int) is None ==> r == Err::<(usize, usize), Error>(
            Error::InvalidMetadataTable(name),
        ),
{
    if count == 0 && start == -1 {
        return Ok((0, 0));
    }
    if start < 0 {
        return Err(Error::InvalidMetadataTable(name));
    }
    let begin = start as usize;
    if begin > total || count > total - begin {
        return Err(Error::InvalidMetadataTable(name));
    }
    Ok((begin, begin + count))
}

/// Validates an index into a table of `total` items.
pub fn checked_index(index: i32, total: usize, name: &'static str) -> (r: Result<usize>)
    ensures
        0 <= index < total ==> r == Ok::<usize, Error>(index as usize),
        !(0 <= index < total) ==> r == Err::<usize, Error>(Error::InvalidMetadataTable(name)),
{
    if index < 0 || index as usize >= total {
        return Err(Error::InvalidMetadataTable(name));
    }
    Ok(index as usize)
}

/// A type index that must be present.
pub fn required_type_index(index: i32, name: &'static str) -> (r: Result<TypeIndex>)
    ensures
        index >= 0 ==> r == Ok::<TypeIndex, Error>(TypeIndex(index as usize)),
        index < 0 ==> r == Err::<TypeIndex, Error>(Error::InvalidMetadataTable(name)),
{
    if index < 0 {
        return Err(Error::InvalidMetadataTable(name));
    }
    Ok(TypeIndex(index as usize))
}

/// The meaning of an optional signed index: -1 is absent, other negatives are invalid.
pub open spec fn spec_optional_index(index: i32) -> Option<Option<usize>> {
    if index == -1 {
        Some(None)
    } else if index < 0 {
        None
    } else {
        Some(Some(index as usize))
    }
}

/// An optional index, where -1 means absent.
pub fn optional_index(index: i32) -> (r: Result<Option<usize>>)
    ensures
        spec_optional_index(index) matches Some(v) ==> r == Ok::<Option<usize>, Error>(v),
        spec_optional_index(index) is None ==> r == Err::<Option<usize>, Error>(
            Error::InvalidMetadata,
        ),
{
    if index == -1 {
        return Ok(None);
    }
    if index < 0 {
        return Err(Error::InvalidMetadata);
    }
    Ok(Some(index as usize))
}

/// The type index meaning of an optional signed index.
pub open spec fn spec_optional_type_index(index: i32) -> Option<Option<TypeIndex>> {
    match spec_optional_index(index) {
        Some(Some(i)) => Some(Some(TypeIndex(i))),
        Some(None) => Some(None),
        None => None,
    }
}

/// An optional type index, where -1 means absent.
pub fn optional_type_index(index: i32) -> (r: Result<Option<TypeIndex>>)
    ensures
        spec_optional_type_index(index) matches Some(v) ==> r == Ok::<Option<TypeIndex>, Error>(v),
        spec_optional_type_index(index) is None ==> r == Err::<Option<TypeIndex>, Error>(
            Error::InvalidMetadata,
        ),
{
    match optional_index(index)? {
        Some(i) => Ok(Some(TypeIndex(i))),
        None => Ok(None),
    }
}

/// The meaning of an optional index into a table of `total` items.
pub open spec fn spec_optional_checked_index(index: i32, total: int) -> Option<Option<usize>> {
    match spec_optional_index(index) {
        Some(Some(i)) => if i < total {
            Some(Some(i))
        } else {
            None
        },
        other => other,
    }
}

/// An optional index, where -1 means absent, that must be inside a table of `total` items.
pub fn optional_checked_index(index: i32, total: usize, name: &'static str) -> (r: Result<
    Option<usize>,
>)
    ensures
        spec_optional_checked_index(index, total as int) matches Some(v) ==> r == Ok::<
            Option<usize>,
            Error,
        >(v),
        index < -1 ==> r == Err::<Option<usize>, Error>(Error::InvalidMetadata),
        index >= 0 && index >= total ==> r == Err::<Option<usize>, Error>(
            Error::InvalidMetadataTable(name),
        ),
{
    match optional_index(index)? {
        Some(i) => if i < total {
            Ok(Some(i))
        } else {
            Err(Error::InvalidMetadataTable(name))
        },
        None => Ok(None),
    }
}

/// Item `item` lies in the range of `owner`.
pub open spec fn owns(ranges: Seq<(i32, usize)>, total: int, owner: int, item: int) -> bool {
    &&& 0 <= owner < ranges.len()
    &&& spec_range(ranges[owner].0, ranges[owner].1 as int, total) matches Some(b)
    &&& b.0 <= item < b.1
}

/// Some owner's range holds `item`.
pub open spec fn has_owner(ranges: Seq<(i32, usize)>, total: int, item: int) -> bool {
    exists|o: int| #[trigger] owns(ranges, total, o, item)
}

/// The owner ranges are valid and split the items `0..total` into disjoint pieces that
/// cover every item.
pub open spec fn ranges_partition(ranges: Seq<(i32, usize)>, total: int) -> bool {
    &&& forall|o: int|
        0 <= o < ranges.len() ==> (#[trigger] spec_range(ranges[o].0, ranges[o].1 as int, total))
            is Some
    &&& forall|k: int| 0 <= k < total ==> #[trigger] has_owner(ranges, total, k)
    &&& forall|k: int, o1: int, o2: int|
        #[trigger] owns(ranges, total, o1, k) && #[trigger] owns(ranges, total, o2, k) ==> o1 == o2
}

/// Assigns each of `item_count` items to the one owner whose range holds it.
pub fn assign_ranges(ranges: &Vec<(i32, usize)>, item_count: usize, name: &'static str) -> (r:
    Result<Vec<usize>>)
    ensures
        r is Ok <==> ranges_partition(ranges@, item_count as int),
        !ranges_partition(ranges@, item_count as int) ==> r == Err::<Vec<usize>, Error>(
            Error::InvalidMetadataTable(name),
        ),
        r matches Ok(owners) ==> owners@.len() == item_count && forall|k: int|
            0 <= k < item_count ==> owns(ranges@, item_count as int, #[trigger] owners@[k] as int, k),
{
    let mut owners: Vec<Option<usize>> = Vec::new();
    let mut k: usize = 0;
    while k < item_count
        invariant
            k <= item_count,
            owners@.len() == k,
            forall|j: int| 0 <= j < k ==> (#[trigger] owners@[j]) is None,
        decreases item_count - k,
    {
        owners.push(None);
        k = k + 1;
    }
    let mut o: usize = 0;
    while o < ranges.len()
        invariant
            o <= ranges@.len(),
            owners@.len() == item_count,
            forall|p: int|
                0 <= p < o ==> (#[trigger] spec_range(ranges@[p].0, ranges@[p].1 as int, item_count as int)) is Some,
            forall|j: int|
                0 <= j < item_count ==> match #[trigger] owners@[j] {
                    Some(p) => p < o && owns(ranges@, item_count as int, p as int, j),
                    None => forall|p: int| 0 <= p < o ==> !owns(ranges@, item_count as int, p, j),
                },
            forall|j: int, p1: int, p2: int|
                0 <= p1 < o && 0 <= p2 < o && #[trigger] owns(ranges@, item_count as int, p1, j)
                    && #[trigger] owns(ranges@, item_count as int, p2, j) ==> p1 == p2,
        decreases ranges@.len() - o,
    {
        let (start, count) = ranges[o];
        let bounds = checked_range(start, count, item_count, name);
        if bounds.is_err() {
            assert(!ranges_partition(ranges@, item_count as int)) by {
                assert(spec_range(ranges@[o as int].0, ranges@[o as int].1 as int, item_count as int) is None);
            }
            return Err(Error::InvalidMetadataTable(name));
        }
        let (begin, end) = bounds.unwrap();
        let mut index = begin;
        while index < end
            invariant
                o < ranges@.len(),
                ranges@[o as int] == (start, count),
                spec_range(start, count as int, item_count as int) == Some((begin as int, end as int)),
                begin <= index <= end,
                end <= item_count,
                owners@.len() == item_count,
                forall|p: int|
                    0 <= p < o ==> (#[trigger] spec_range(ranges@[p].0, ranges@[p].1 as int, item_count as int)) is Some,
                forall|j: int|
                    0 <= j < item_count ==> match #[trigger] owners@[j] {
                        Some(p) => p <= o && owns(ranges@, item_count as int, p as int, j) && (p == o ==> begin <= j < index),
                        None => forall|p: int| 0 <= p <= o ==> !owns(ranges@, item_count as int, p, j) || (p == o && index <= j),
                    },
                forall|j: int, p1: int, p2: int|
                    0 <= p1 < o && 0 <= p2 < o && #[trigger] owns(ranges@, item_count as int, p1, j)
                        && #[trigger] owns(ranges@, item_count as int, p2, j) ==> p1 == p2,
                forall|j: int, p: int| begin <= j < index && 0 <= p < o ==> !#[trigger] owns(ranges@, item_count as int, p, j),
            decreases end - index,
        {
            if owners[index].is_some() {
                let p = owners[index].unwrap();
                assert(owns(ranges@, item_count as int, p as int, index as int));
                assert(owns(ranges@, item_count as int, o as int, index as int));
                assert(!ranges_partition(ranges@, item_count as int));
                return Err(Error::InvalidMetadataTable(name));
            }
            assert(forall|p: int| 0 <= p < o ==> !owns(ranges@, item_count as int, p, index as int));
            owners.set(index, Some(o));
            index = index + 1;
        }
        assert forall|j: int, p1: int, p2: int|
            0 <= p1 < o + 1 && 0 <= p2 < o + 1 && #[trigger] owns(ranges@, item_count as int, p1, j)
                && #[trigger] owns(ranges@, item_count as int, p2, j) implies p1 == p2 by {
            if p1 != p2 && (p1 == o || p2 == o) {
                assert(begin <= j < end);
            }
        }
        o = o + 1;
    }
    let mut result: Vec<usize> = Vec::new();
    let mut k: usize = 0;
    while k < item_count
        invariant
            k <= item_count,
            owners@.len() == item_count,
            o == ranges@.len(),
            forall|p: int|
                0 <= p < o ==> (#[trigger] spec_range(ranges@[p].0, ranges@[p].1 as int, item_count as int)) is Some,
            forall|j: int|
                0 <= j < item_count ==> match #[trigger] owners@[j] {
                    Some(p) => p < o && owns(ranges@, item_count as int, p as int, j),
                    None => forall|p: int| 0 <= p < o ==> !owns(ranges@, item_count as int, p, j),
                },
            forall|j: int, p1: int, p2: int|
                #[trigger] owns(ranges@, item_count as int, p1, j)
                    && #[trigger] owns(ranges@, item_count as int, p2, j) ==> p1 == p2,
            result@.len() == k,
            forall|j: int| 0 <= j < k ==> owns(ranges@, item_count as int, #[trigger] result@[j] as int, j),
        decreases item_count - k,
    {
        match owners[k] {
            Some(p) => {
                result.push(p);
            },
            None => {
                assert(!ranges_partition(ranges@, item_count as int)) by {
                    assert(forall|p: int| !owns(ranges@, item_count as int, p, k as int));
                    assert(!has_owner(ranges@, item_count as int, k as int));
                }
                return Err(Error::InvalidMetadataTable(name));
            },
        }
        k = k + 1;
    }
    assert(ranges_partition(ranges@, item_count as int)) by {
        assert forall|j: int| 0 <= j < item_count implies #[trigger] has_owner(ranges@, item_count as int, j) by {
            assert(owns(ranges@, item_count as int, result@[j] as int, j));
        }
    }
    Ok(result)
}

} // verus!
