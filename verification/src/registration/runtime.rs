//! Runtime type records and field offsets reached through the metadata registration.
use vstd::prelude::*;

use super::native::RegistrationInfo;
use crate::binary::{
    read_u32, relocated_pointer, spec_read_u32, spec_relocated_pointer, BinaryImage,
};
use crate::metadata::Metadata;
use crate::model::FieldId;
use crate::{Error, Result};

verus! {

/// Offset of the runtime type count in a metadata registration.
pub const TYPES_COUNT_OFFSET: u64 = 0x30;

/// Offset of the runtime type pointer array in a metadata registration.
pub const TYPES_OFFSET: u64 = 0x38;

/// Offset of the per-type field offset arrays in a metadata registration.
pub const FIELD_OFFSETS_OFFSET: u64 = 0x58;

/// Runtime `Il2CppType` record addresses and instance field offsets.
#[derive(Debug)]
pub struct RuntimeMetadata {
    type_addresses: Vec<u64>,
    field_offsets: Vec<Option<i32>>,
}

impl RuntimeMetadata {
    /// Address of the runtime type record of each type index.
    pub closed spec fn types(&self) -> Seq<u64> {
        self.type_addresses@
    }

    /// Offset of each field, by field id, where known.
    pub closed spec fn offsets(&self) -> Seq<Option<i32>> {
        self.field_offsets@
    }

    /// Runtime metadata over known type record addresses and field offsets.
    pub fn new(type_addresses: Vec<u64>, field_offsets: Vec<Option<i32>>) -> (r: Self)
        ensures
            r.types() == type_addresses@,
            r.offsets() == field_offsets@,
    {
        RuntimeMetadata { type_addresses, field_offsets }
    }

    /// Number of runtime type records.
    pub fn type_count(&self) -> (r: usize)
        ensures
            r == self.types().len(),
    {
        self.type_addresses.len()
    }

    /// Address of the runtime type record for a type index.
    pub fn type_address(&self, index: usize) -> (r: Option<u64>)
        ensures
            index < self.types().len() ==> r == Some(self.types()[index as int]),
            index >= self.types().len() ==> r is None,
    {
        if index < self.type_addresses.len() {
            Some(self.type_addresses[index])
        } else {
            None
        }
    }

    /// Instance offset of a field, where known.
    pub fn field_offset(&self, field: FieldId) -> (r: Option<i32>)
        ensures
            field.0 < self.offsets().len() ==> r == self.offsets()[field.0 as int],
            field.0 >= self.offsets().len() ==> r is None,
    {
        if field.0 < self.field_offsets.len() {
            self.field_offsets[field.0]
        } else {
            None
        }
    }
}

/// Two's-complement reading of a 32-bit word.
pub open spec fn as_i32(raw: u32) -> i32 {
    if raw < 0x8000_0000 {
        raw as i32
    } else {
        (raw - 0x1_0000_0000) as i32
    }
}

/// The pointers stored in the first `count` slots of the array at `table`.
pub open spec fn spec_pointer_array<B: BinaryImage>(binary: &B, table: u64, count: nat) -> Result<
    Seq<u64>,
>
    decreases count,
{
    if count == 0 {
        Ok(Seq::empty())
    } else {
        match spec_pointer_array(binary, table, (count - 1) as nat) {
            Err(e) => Err(e),
            Ok(rest) => if table + (count - 1) * 8 > u64::MAX {
                Err(Error::InvalidBinary)
            } else {
                match spec_relocated_pointer(binary, (table + (count - 1) * 8) as u64) {
                    Err(e) => Err(e),
                    Ok(pointer) => Ok(rest.push(pointer)),
                }
            },
        }
    }
}

/// Reads `count` pointers from the array at `table`.
pub fn read_pointer_array<B: BinaryImage>(binary: &B, table: u64, count: usize) -> (r: Result<
    Vec<u64>,
>)
    ensures
        match spec_pointer_array(binary, table, count as nat) {
            Ok(pointers) => r matches Ok(v) && v@ == pointers,
            Err(e) => r == Err::<Vec<u64>, Error>(e),
        },
        r matches Ok(v) ==> v@.len() == count,
{
    let mut pointers: Vec<u64> = Vec::new();
    let mut i: usize = 0;
    while i < count
        invariant
            i <= count,
            pointers@.len() == i,
            spec_pointer_array(binary, table, i as nat) == Ok::<Seq<u64>, Error>(pointers@),
        decreases count - i,
    {
        proof {
            lemma_pointer_array_error_persists(binary, table, (i + 1) as nat, count as nat);
        }
        if i as u64 > (u64::MAX - table) / 8 {
            return Err(Error::InvalidBinary);
        }
        let pointer = relocated_pointer(binary, table + i as u64 * 8)?;
        pointers.push(pointer);
        i = i + 1;
    }
    Ok(pointers)
}

proof fn lemma_pointer_array_error_persists<B: BinaryImage>(
    binary: &B,
    table: u64,
    i: nat,
    count: nat,
)
    requires
        i <= count,
    ensures
        spec_pointer_array(binary, table, i) is Err ==> spec_pointer_array(binary, table, count)
            == spec_pointer_array(binary, table, i),
    decreases count - i,
{
    if i < count {
        lemma_pointer_array_error_persists(binary, table, i + 1, count);
    }
}

/// Field offsets after applying the offsets of the first `count` fields of `fields`, read
/// from the array at `pointer`.
pub open spec fn spec_apply_offsets<B: BinaryImage>(
    binary: &B,
    slots: Seq<Option<i32>>,
    fields: Seq<FieldId>,
    pointer: u64,
    count: nat,
) -> Result<Seq<Option<i32>>>
    decreases count,
{
    if count == 0 {
        Ok(slots)
    } else {
        match spec_apply_offsets(binary, slots, fields, pointer, (count - 1) as nat) {
            Err(e) => Err(e),
            Ok(current) => if pointer + (count - 1) * 4 > u64::MAX {
                Err(Error::InvalidBinary)
            } else {
                match spec_read_u32(binary, (pointer + (count - 1) * 4) as u64) {
                    Err(e) => Err(e),
                    Ok(raw) => {
                        let field = fields[count - 1].0;
                        if field < current.len() {
                            Ok(current.update(field as int, Some(as_i32(raw))))
                        } else {
                            Ok(current)
                        }
                    },
                }
            },
        }
    }
}

/// Field offsets after applying the offset arrays of the first `count` types, whose array
/// pointers are `arrays`; a null array leaves the type's fields unknown.
pub open spec fn spec_field_offsets<B: BinaryImage>(
    binary: &B,
    metadata: Metadata,
    arrays: Seq<u64>,
    count: nat,
) -> Result<Seq<Option<i32>>>
    decreases count,
{
    if count == 0 {
        Ok(Seq::new(metadata.fields@.len(), |i: int| None::<i32>))
    } else {
        match spec_field_offsets(binary, metadata, arrays, (count - 1) as nat) {
            Err(e) => Err(e),
            Ok(current) => if arrays[count - 1] == 0 {
                Ok(current)
            } else {
                let fields = metadata.types@[count - 1].fields@;
                spec_apply_offsets(binary, current, fields, arrays[count - 1], fields.len())
            },
        }
    }
}

proof fn lemma_field_offsets_error_persists<B: BinaryImage>(
    binary: &B,
    metadata: Metadata,
    arrays: Seq<u64>,
    i: nat,
    count: nat,
)
    requires
        i <= count,
    ensures
        spec_field_offsets(binary, metadata, arrays, i) is Err ==> spec_field_offsets(
            binary,
            metadata,
            arrays,
            count,
        ) == spec_field_offsets(binary, metadata, arrays, i),
    decreases count - i,
{
    if i < count {
        lemma_field_offsets_error_persists(binary, metadata, arrays, i + 1, count);
    }
}

proof fn lemma_apply_error_persists<B: BinaryImage>(
    binary: &B,
    slots: Seq<Option<i32>>,
    fields: Seq<FieldId>,
    pointer: u64,
    i: nat,
    count: nat,
)
    requires
        i <= count,
    ensures
        spec_apply_offsets(binary, slots, fields, pointer, i) is Err ==> spec_apply_offsets(
            binary,
            slots,
            fields,
            pointer,
            count,
        ) == spec_apply_offsets(binary, slots, fields, pointer, i),
    decreases count - i,
{
    if i < count {
        lemma_apply_error_persists(binary, slots, fields, pointer, i + 1, count);
    }
}

/// Reads the offsets of `fields` from the array at `pointer` into `slots`.
fn apply_offsets<B: BinaryImage>(
    binary: &B,
    slots: &mut Vec<Option<i32>>,
    fields: &Vec<FieldId>,
    pointer: u64,
) -> (r: Result<()>)
    ensures
        match spec_apply_offsets(binary, old(slots)@, fields@, pointer, fields@.len()) {
            Ok(updated) => r is Ok && final(slots)@ == updated,
            Err(e) => r == Err::<(), Error>(e),
        },
{
    let ghost initial = slots@;
    let mut k: usize = 0;
    while k < fields.len()
        invariant
            k <= fields@.len(),
            initial == old(slots)@,
            spec_apply_offsets(binary, initial, fields@, pointer, k as nat) == Ok::<
                Seq<Option<i32>>,
                Error,
            >(slots@),
        decreases fields@.len() - k,
    {
        proof {
            lemma_apply_error_persists(
                binary,
                initial,
                fields@,
                pointer,
                (k + 1) as nat,
                fields@.len(),
            );
        }
        if k as u64 > (u64::MAX - pointer) / 4 {
            return Err(Error::InvalidBinary);
        }
        let raw = read_u32(binary, pointer + k as u64 * 4)?;
        let value: i32 = if raw < 0x8000_0000 {
            raw as i32
        } else {
            let low = (raw - 0x8000_0000) as i32;
            low - 0x7fff_ffff - 1
        };
        let field = fields[k].0;
        if field < slots.len() {
            slots.set(field, Some(value));
        }
        k = k + 1;
    }
    Ok(())
}

/// Runtime metadata read through the metadata registration at `base`, as
/// `runtime_metadata` computes it.
pub open spec fn spec_runtime_parts<B: BinaryImage>(binary: &B, metadata: Metadata, base: u64) -> Result<
    (Seq<u64>, Seq<Option<i32>>),
> {
    if base > u64::MAX - FIELD_OFFSETS_OFFSET {
        Err(Error::InvalidBinary)
    } else {
        match spec_read_u32(binary, (base + TYPES_COUNT_OFFSET) as u64) {
            Err(e) => Err(e),
            Ok(count) => match spec_relocated_pointer(binary, (base + TYPES_OFFSET) as u64) {
                Err(e) => Err(e),
                Ok(types) => match spec_pointer_array(binary, types, count as nat) {
                    Err(e) => Err(e),
                    Ok(addresses) => match spec_relocated_pointer(
                        binary,
                        (base + FIELD_OFFSETS_OFFSET) as u64,
                    ) {
                        Err(e) => Err(e),
                        Ok(table) => match spec_pointer_array(
                            binary,
                            table,
                            metadata.types@.len(),
                        ) {
                            Err(e) => Err(e),
                            Ok(arrays) => match spec_field_offsets(
                                binary,
                                metadata,
                                arrays,
                                metadata.types@.len(),
                            ) {
                                Err(e) => Err(e),
                                Ok(offsets) => Ok((addresses, offsets)),
                            },
                        },
                    },
                },
            },
        }
    }
}

impl RegistrationInfo {
    /// Reads runtime type record addresses and field offsets through the metadata
    /// registration.
    #[verifier::loop_isolation(false)]
    pub fn runtime_metadata<B: BinaryImage>(&self, binary: &B, metadata: &Metadata) -> (r: Result<
        RuntimeMetadata,
    >)
        ensures
            match self.registration.metadata_registration {
                None => r == Err::<RuntimeMetadata, Error>(Error::RegistrationNotFound),
                Some(base) => match spec_runtime_parts(binary, *metadata, base) {
                    Ok(parts) => r matches Ok(runtime) && runtime.types() == parts.0
                        && runtime.offsets() == parts.1,
                    Err(e) => r matches Err(f) && f == e,
                },
            },
    {
        let base = match self.registration.metadata_registration {
            Some(base) => base,
            None => return Err(Error::RegistrationNotFound),
        };
        if base > u64::MAX - FIELD_OFFSETS_OFFSET {
            return Err(Error::InvalidBinary);
        }
        let count = read_u32(binary, base + TYPES_COUNT_OFFSET)?;
        let types = relocated_pointer(binary, base + TYPES_OFFSET)?;
        let type_addresses = read_pointer_array(binary, types, count as usize)?;
        let table = relocated_pointer(binary, base + FIELD_OFFSETS_OFFSET)?;
        let arrays = read_pointer_array(binary, table, metadata.types.len())?;
        let mut field_offsets: Vec<Option<i32>> = Vec::new();
        while field_offsets.len() < metadata.fields.len()
            invariant
                field_offsets@.len() <= metadata.fields@.len(),
                forall|i: int| 0 <= i < field_offsets@.len() ==> field_offsets@[i] is None,
            decreases metadata.fields@.len() - field_offsets@.len(),
        {
            field_offsets.push(None);
        }
        assert(field_offsets@ =~= Seq::new(metadata.fields@.len(), |i: int| None::<i32>));
        let mut t: usize = 0;
        while t < metadata.types.len()
            invariant
                t <= metadata.types@.len(),
                arrays@.len() == metadata.types@.len(),
                spec_field_offsets(binary, *metadata, arrays@, t as nat) == Ok::<
                    Seq<Option<i32>>,
                    Error,
                >(field_offsets@),
            decreases metadata.types@.len() - t,
        {
            proof {
                lemma_field_offsets_error_persists(
                    binary,
                    *metadata,
                    arrays@,
                    (t + 1) as nat,
                    metadata.types@.len(),
                );
            }
            if arrays[t] != 0 {
                apply_offsets(binary, &mut field_offsets, &metadata.types[t].fields, arrays[t])?;
            }
            t = t + 1;
        }
        Ok(RuntimeMetadata::new(type_addresses, field_offsets))
    }
}

} // verus!
