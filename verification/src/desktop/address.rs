//! What the address view shows for a native location: the location in all three address
//! spaces, the segment that holds it, and the method that starts at or before it.
use vstd::prelude::*;

use super::navigation::AddressTarget;
use crate::analysis::Il2CppProject;
use crate::binary::{BinaryImage, ElfImage, SegmentInfo};
use crate::model::{Method, MethodId};
use crate::registration::NativeMethodIndex;

verus! {

/// `a + b`, or `u64::MAX` when the sum does not fit.
pub open spec fn saturating_sum(a: u64, b: u64) -> u64 {
    if a + b <= u64::MAX {
        (a + b) as u64
    } else {
        u64::MAX
    }
}

/// A location as (relative address, virtual address, file offset), each where it exists
/// for this image.
pub open spec fn translate(binary: ElfImage, target: AddressTarget) -> (Option<u64>, Option<u64>, Option<u64>) {
    let base = binary.spec_image_base();
    match target {
        AddressTarget::Rva(rva) => {
            let va = if base + rva <= u64::MAX {
                Some((base + rva) as u64)
            } else {
                None
            };
            (
                Some(rva),
                va,
                match va {
                    Some(v) => binary.spec_virtual_to_offset(v),
                    None => None,
                },
            )
        },
        AddressTarget::Va(va) => (
            if va >= base {
                Some((va - base) as u64)
            } else {
                None
            },
            Some(va),
            binary.spec_virtual_to_offset(va),
        ),
        AddressTarget::FileOffset(offset) => {
            let va = binary.spec_offset_to_virtual(offset);
            (
                match va {
                    Some(v) => if v >= base {
                        Some((v - base) as u64)
                    } else {
                        None
                    },
                    None => None,
                },
                va,
                Some(offset),
            )
        },
    }
}

/// The segment's memory range holds `va`.
pub open spec fn covers(segment: SegmentInfo, va: u64) -> bool {
    segment.virtual_address <= va && va < saturating_sum(
        segment.virtual_address,
        segment.virtual_size,
    )
}

/// The first segment whose memory range holds `va`.
pub open spec fn first_covering(segments: Seq<SegmentInfo>, va: u64) -> Option<int> {
    if exists|i: int| 0 <= i < segments.len() && #[trigger] covers(segments[i], va) {
        Some(
            choose|i: int|
                0 <= i < segments.len() && #[trigger] covers(segments[i], va) && forall|j: int|
                    0 <= j < i ==> !covers(segments[j], va),
        )
    } else {
        None
    }
}

/// Among the first `n` methods, the one whose resolved start is the highest at or below
/// `va`, with that start; of equal starts the later method wins.
pub open spec fn nearest_before(
    index: NativeMethodIndex,
    methods: Seq<Method>,
    va: u64,
    n: nat,
) -> Option<(MethodId, u64)>
    decreases n,
{
    if n == 0 {
        None
    } else {
        let previous = nearest_before(index, methods, va, (n - 1) as nat);
        let id = methods[n - 1].id;
        match index.slot(id.0 as int) {
            Some(a) => if a.virtual_address <= va {
                match previous {
                    Some(best) => if a.virtual_address < best.1 {
                        previous
                    } else {
                        Some((id, a.virtual_address))
                    },
                    None => Some((id, a.virtual_address)),
                }
            } else {
                previous
            },
            None => previous,
        }
    }
}

/// What the address view shows for one location.
#[derive(Debug, PartialEq, Eq)]
pub struct AddressDetails {
    pub relative_address: Option<u64>,
    pub virtual_address: Option<u64>,
    pub file_offset: Option<u64>,
    /// Position of the first segment whose memory holds the virtual address.
    pub segment: Option<usize>,
    /// The method that starts exactly at the virtual address.
    pub exact_method: Option<MethodId>,
    /// The method with the highest resolved start at or below the virtual address.
    pub nearest_method: Option<(MethodId, u64)>,
}

/// Describes `target` in the loaded project. Methods are looked up only when the
/// location has a virtual address and the project has a native method index.
pub fn address_details(project: &Il2CppProject, target: AddressTarget) -> (r: AddressDetails)
    ensures
        (r.relative_address, r.virtual_address, r.file_offset) == translate(
            project.spec_binary(),
            target,
        ),
        match r.virtual_address {
            Some(va) => r.segment == match first_covering(project.spec_binary().spec_segments(), va) {
                Some(i) => Some(i as usize),
                None => None::<usize>,
            },
            None => r.segment is None,
        },
        match (r.virtual_address, project.spec_native_methods()) {
            (Some(va), Some(index)) => {
                &&& r.exact_method == if index.methods_at(va).len() > 0 {
                    Some(index.methods_at(va)[0])
                } else {
                    None::<MethodId>
                }
                &&& r.nearest_method == nearest_before(
                    index,
                    project.spec_metadata().methods@,
                    va,
                    project.spec_metadata().methods@.len(),
                )
            },
            _ => r.exact_method is None && r.nearest_method is None,
        },
{
    let binary = project.binary();
    let base = binary.image_base();
    let (relative_address, virtual_address, file_offset) = match target {
        AddressTarget::Rva(rva) => {
            let va = rva.checked_add(base);
            let file = match va {
                Some(v) => binary.virtual_to_offset(v),
                None => None,
            };
            (Some(rva), va, file)
        },
        AddressTarget::Va(va) => (va.checked_sub(base), Some(va), binary.virtual_to_offset(va)),
        AddressTarget::FileOffset(offset) => {
            let va = binary.offset_to_virtual(offset);
            let rva = match va {
                Some(v) => v.checked_sub(base),
                None => None,
            };
            (rva, va, Some(offset))
        },
    };
    let va = match virtual_address {
        Some(va) => va,
        None => {
            return AddressDetails {
                relative_address,
                virtual_address,
                file_offset,
                segment: None,
                exact_method: None,
                nearest_method: None,
            };
        },
    };
    let segments = binary.segments();
    let mut i: usize = 0;
    while i < segments.len()
        invariant
            i <= segments@.len(),
            segments@ == project.spec_binary().spec_segments(),
            forall|j: int| 0 <= j < i ==> !covers(#[trigger] segments@[j], va),
        ensures
            i <= segments@.len(),
            forall|j: int| 0 <= j < i ==> !covers(#[trigger] segments@[j], va),
            i < segments@.len() ==> covers(segments@[i as int], va),
        decreases segments@.len() - i,
    {
        let end = segments[i].virtual_address.saturating_add(segments[i].virtual_size);
        if segments[i].virtual_address <= va && va < end {
            break;
        }
        i = i + 1;
    }
    let segment = if i < segments.len() {
        proof {
            let c = choose|k: int|
                0 <= k < segments@.len() && #[trigger] covers(segments@[k], va) && forall|j: int|
                    0 <= j < k ==> !covers(segments@[j], va);
            assert(covers(segments@[i as int], va));
            if c < i {
                assert(!covers(segments@[c], va));
            }
            if (i as int) < c {
                assert(!covers(segments@[i as int], va));
            }
        }
        Some(i)
    } else {
        None
    };
    let (exact_method, nearest_method) = match project.native_methods() {
        Some(index) => (index.method_at_address(va), nearest_method_before(index, &project.metadata().methods, va)),
        None => (None, None),
    };
    AddressDetails { relative_address, virtual_address, file_offset, segment, exact_method, nearest_method }
}

/// The method with the highest resolved start at or below `va`; of equal starts the later
/// method in `methods` wins.
pub fn nearest_method_before(index: &NativeMethodIndex, methods: &Vec<Method>, va: u64) -> (r: Option<(MethodId, u64)>)
    ensures
        r == nearest_before(*index, methods@, va, methods@.len()),
{
    let mut best: Option<(MethodId, u64)> = None;
    let mut k: usize = 0;
    while k < methods.len()
        invariant
            k <= methods@.len(),
            best == nearest_before(*index, methods@, va, k as nat),
        decreases methods@.len() - k,
    {
        let id = methods[k].id;
        match index.address_of(id) {
            Some(a) => {
                if a.virtual_address <= va {
                    let replace = match best {
                        Some(b) => a.virtual_address >= b.1,
                        None => true,
                    };
                    if replace {
                        best = Some((id, a.virtual_address));
                    }
                }
            },
            None => {},
        }
        k = k + 1;
    }
    best
}

} // verus!
