//! Validated CodeGenModule registrations and native method resolution.
use vstd::prelude::*;

use super::Registration;
use crate::binary::{
    is_load, is_load_segment, relocated_pointer, spec_relocated_pointer, BinaryImage, SegmentInfo,
};
use crate::metadata::Metadata;
use crate::model::MethodId;
use crate::{Error, Result};

verus! {

/// Token table bits of a method definition token.
pub const METHOD_TOKEN_TYPE: u32 = 0x0600_0000;

/// Mask of the table part of a metadata token.
pub const TOKEN_TYPE_MASK: u32 = 0xff00_0000;

/// Mask of the row part of a metadata token.
pub const TOKEN_ROW_MASK: u32 = 0x00ff_ffff;

/// Validated native module entry from an IL2CPP code registration.
#[derive(Debug, PartialEq, Eq)]
pub struct CodeGenModule {
    pub address: u64,
    pub name: String,
    pub method_pointer_count: u32,
    pub method_pointers: Option<u64>,
}

impl Clone for CodeGenModule {
    fn clone(&self) -> (r: Self)
        ensures
            r == *self,
    {
        CodeGenModule {
            address: self.address,
            name: self.name.clone(),
            method_pointer_count: self.method_pointer_count,
            method_pointers: self.method_pointers,
        }
    }
}

/// Registration roots and the validated module array they reference.
#[derive(Debug, PartialEq, Eq)]
pub struct RegistrationInfo {
    pub registration: Registration,
    pub codegen_modules: u64,
    pub modules: Vec<CodeGenModule>,
}

/// One metadata method resolved to its native code pointer.
#[derive(Debug, PartialEq, Eq)]
pub struct MethodAddress {
    pub method: MethodId,
    pub module: String,
    pub pointer_index: u32,
    pub virtual_address: u64,
    pub relative_address: u64,
    pub file_offset: u64,
}

impl Clone for MethodAddress {
    fn clone(&self) -> (r: Self)
        ensures
            r == *self,
    {
        MethodAddress {
            method: self.method,
            module: self.module.clone(),
            pointer_index: self.pointer_index,
            virtual_address: self.virtual_address,
            relative_address: self.relative_address,
            file_offset: self.file_offset,
        }
    }
}

/// Zero-based method pointer slot of a method definition token: its row minus one.
pub open spec fn spec_method_pointer_index(token: u32) -> Option<u32> {
    let row = token & TOKEN_ROW_MASK;
    if token & TOKEN_TYPE_MASK == METHOD_TOKEN_TYPE && row >= 1 {
        Some((row - 1) as u32)
    } else {
        None
    }
}

/// Maps a method definition token to its zero-based slot in a module's pointer table.
pub fn method_pointer_index(token: u32) -> (r: Option<u32>)
    ensures
        r == spec_method_pointer_index(token),
{
    let row = token & TOKEN_ROW_MASK;
    if token & TOKEN_TYPE_MASK == METHOD_TOKEN_TYPE {
        row.checked_sub(1)
    } else {
        None
    }
}

/// `segment` is loadable, executable and maps `address` in memory.
pub open spec fn executable_at(segment: SegmentInfo, address: u64) -> bool {
    &&& is_load(segment)
    &&& segment.permissions.execute
    &&& segment.virtual_address <= address
    &&& address - segment.virtual_address < segment.virtual_size
}

/// Some loadable executable segment maps `address`.
pub open spec fn spec_is_executable(segments: Seq<SegmentInfo>, address: u64) -> bool {
    exists|i: int| 0 <= i < segments.len() && executable_at(#[trigger] segments[i], address)
}

/// Whether a loadable executable segment of the image maps `address`.
pub fn is_executable<B: BinaryImage>(binary: &B, address: u64) -> (r: bool)
    ensures
        r == spec_is_executable(binary.spec_segments(), address),
{
    let segments = binary.segments();
    let mut i: usize = 0;
    while i < segments.len()
        invariant
            i <= segments@.len(),
            segments@ == binary.spec_segments(),
            forall|j: int| 0 <= j < i ==> !executable_at(#[trigger] segments@[j], address),
        decreases segments@.len() - i,
    {
        let segment = &segments[i];
        if is_load_segment(segment) && segment.permissions.execute && segment.virtual_address
            <= address && address - segment.virtual_address < segment.virtual_size {
            assert(executable_at(segments@[i as int], address));
            return true;
        }
        i = i + 1;
    }
    false
}

/// Index of the first module named `name`.
pub open spec fn first_module_named(modules: Seq<CodeGenModule>, name: Seq<char>) -> Option<int>
    decreases modules.len(),
{
    if modules.len() == 0 {
        None
    } else if modules[0].name@ == name {
        Some(0)
    } else {
        match first_module_named(modules.drop_first(), name) {
            Some(i) => Some(i + 1),
            None => None,
        }
    }
}

/// The native address a metadata method resolves to through `info`, as `resolve_method`
/// computes it: the method's token selects a slot of the pointer table of the module whose
/// name is the method's image name; a null pointer means no generated code.
pub open spec fn spec_resolve_method<B: BinaryImage>(
    info: RegistrationInfo,
    binary: &B,
    metadata: Metadata,
    method_id: MethodId,
) -> Result<Option<MethodAddress>> {
    if method_id.0 >= metadata.methods.len() {
        Err(Error::InvalidMetadataTable("method index"))
    } else {
        let method = metadata.methods[method_id.0 as int];
        match spec_method_pointer_index(method.token) {
            None => Ok(None),
            Some(pointer_index) => if method.declaring_type.0 >= metadata.types.len() {
                Err(Error::InvalidMetadataTable("method declaring type"))
            } else if metadata.types[method.declaring_type.0 as int].image.0
                >= metadata.images.len() {
                Err(Error::InvalidMetadataTable("method image"))
            } else {
                let image = metadata.images[metadata.types[method.declaring_type.0 as int].image.0 as int];
                match first_module_named(info.modules@, image.name@) {
                    None => Err(Error::RegistrationNotFound),
                    Some(k) => {
                        let module = info.modules@[k];
                        if pointer_index >= module.method_pointer_count {
                            Err(Error::InvalidBinary)
                        } else {
                            match module.method_pointers {
                                None => Ok(None),
                                Some(table) => if table + pointer_index * 8 > u64::MAX {
                                    Err(Error::AddressTranslationFailed)
                                } else {
                                    match spec_relocated_pointer(
                                        binary,
                                        (table + pointer_index * 8) as u64,
                                    ) {
                                        Err(e) => Err(e),
                                        Ok(address) => if address == 0 {
                                            Ok(None)
                                        } else if !spec_is_executable(
                                            binary.spec_segments(),
                                            address,
                                        ) {
                                            Err(Error::InvalidBinary)
                                        } else if address < binary.spec_image_base() {
                                            Err(Error::AddressTranslationFailed)
                                        } else {
                                            match binary.spec_virtual_to_offset(address) {
                                                None => Err(Error::AddressTranslationFailed),
                                                Some(file_offset) => Ok(
                                                    Some(
                                                        MethodAddress {
                                                            method: method_id,
                                                            module: module.name,
                                                            pointer_index,
                                                            virtual_address: address,
                                                            relative_address: (address
                                                                - binary.spec_image_base()) as u64,
                                                            file_offset,
                                                        },
                                                    ),
                                                ),
                                            }
                                        },
                                    }
                                },
                            }
                        }
                    },
                }
            },
        }
    }
}

/// Position of the first module named `name`.
pub fn find_module(modules: &[CodeGenModule], name: &String) -> (r: Option<usize>)
    ensures
        r matches Some(k) ==> k < modules@.len() && first_module_named(modules@, name@) == Some(
            k as int,
        ),
        r is None ==> first_module_named(modules@, name@) is None,
{
    let mut k: usize = 0;
    assert(modules@.skip(0) =~= modules@);
    while k < modules.len()
        invariant
            k <= modules@.len(),
            first_module_named(modules@, name@) == match first_module_named(
                modules@.skip(k as int),
                name@,
            ) {
                Some(i) => Some(i + k),
                None => None::<int>,
            },
        decreases modules@.len() - k,
    {
        if modules[k].name == *name {
            return Some(k);
        }
        assert(modules@.skip(k as int).drop_first() =~= modules@.skip(k + 1));
        k = k + 1;
    }
    None
}

impl RegistrationInfo {
    /// Resolves a metadata method through its image's CodeGenModule.
    pub fn resolve_method<B: BinaryImage>(
        &self,
        binary: &B,
        metadata: &Metadata,
        method_id: MethodId,
    ) -> (r: Result<Option<MethodAddress>>)
        ensures
            r == spec_resolve_method(*self, binary, *metadata, method_id),
    {
        if method_id.0 >= metadata.methods.len() {
            return Err(Error::InvalidMetadataTable("method index"));
        }
        let method = &metadata.methods[method_id.0];
        let pointer_index = match method_pointer_index(method.token) {
            Some(index) => index,
            None => return Ok(None),
        };
        if method.declaring_type.0 >= metadata.types.len() {
            return Err(Error::InvalidMetadataTable("method declaring type"));
        }
        let declaring_type = &metadata.types[method.declaring_type.0];
        if declaring_type.image.0 >= metadata.images.len() {
            return Err(Error::InvalidMetadataTable("method image"));
        }
        let image = &metadata.images[declaring_type.image.0];
        let k = match find_module(self.modules.as_slice(), &image.name) {
            Some(k) => k,
            None => return Err(Error::RegistrationNotFound),
        };
        let module = &self.modules[k];
        if pointer_index >= module.method_pointer_count {
            return Err(Error::InvalidBinary);
        }
        let table = match module.method_pointers {
            Some(table) => table,
            None => return Ok(None),
        };
        let offset = pointer_index as u64 * 8;
        if table > u64::MAX - offset {
            return Err(Error::AddressTranslationFailed);
        }
        let slot = table + offset;
        let virtual_address = relocated_pointer(binary, slot)?;
        if virtual_address == 0 {
            return Ok(None);
        }
        if !is_executable(binary, virtual_address) {
            return Err(Error::InvalidBinary);
        }
        let image_base = binary.image_base();
        if virtual_address < image_base {
            return Err(Error::AddressTranslationFailed);
        }
        let relative_address = virtual_address - image_base;
        let file_offset = match binary.virtual_to_offset(virtual_address) {
            Some(offset) => offset,
            None => return Err(Error::AddressTranslationFailed),
        };
        Ok(
            Some(
                MethodAddress {
                    method: method_id,
                    module: module.name.clone(),
                    pointer_index,
                    virtual_address,
                    relative_address,
                    file_offset,
                },
            ),
        )
    }
}


proof fn lemma_first_module_named(modules: Seq<CodeGenModule>, name: Seq<char>)
    ensures
        first_module_named(modules, name) matches Some(k) ==> 0 <= k < modules.len()
            && modules[k].name@ == name,
    decreases modules.len(),
{
    if modules.len() > 0 && modules[0].name@ != name {
        lemma_first_module_named(modules.drop_first(), name);
    }
}

/// A method resolved to native code reads its address from the module's pointer table: the
/// method's token is a method-definition token of row `r >= 1`, the pointer index is `r - 1`,
/// and the address is the non-null relocated 64-bit pointer stored in the 8-byte slot at
/// `table + 8 * (r - 1)` of the pointer table of a module named like the method's image. The
/// address lies in executable code at or above the image base, and the reported relative
/// address and file offset are those of that address.
pub proof fn law_resolved_address_is_pointer_table_slot<B: BinaryImage>(
    info: RegistrationInfo,
    binary: &B,
    metadata: Metadata,
    method_id: MethodId,
    a: MethodAddress,
)
    requires
        spec_resolve_method(info, binary, metadata, method_id) == Ok::<Option<MethodAddress>, Error>(Some(a)),
    ensures
        method_id.0 < metadata.methods@.len(),
        a.method == method_id,
        ({
            let token = metadata.methods@[method_id.0 as int].token;
            &&& token & TOKEN_TYPE_MASK == METHOD_TOKEN_TYPE
            &&& token & TOKEN_ROW_MASK >= 1
            &&& a.pointer_index == (token & TOKEN_ROW_MASK) - 1
        }),
        exists|k: int|
            0 <= k < info.modules@.len() && {
                let module = #[trigger] info.modules@[k];
                let method = metadata.methods@[method_id.0 as int];
                let image = metadata.images@[metadata.types@[method.declaring_type.0 as int].image.0 as int];
                &&& module.name@ == image.name@
                &&& a.module == module.name
                &&& a.pointer_index < module.method_pointer_count
                &&& module.method_pointers matches Some(table)
                &&& table + 8 * a.pointer_index <= u64::MAX
                &&& spec_relocated_pointer(binary, (table + 8 * a.pointer_index) as u64) == Ok::<u64, Error>(
                    a.virtual_address,
                )
            },
        a.virtual_address != 0,
        spec_is_executable(binary.spec_segments(), a.virtual_address),
        a.virtual_address >= binary.spec_image_base(),
        a.relative_address == a.virtual_address - binary.spec_image_base(),
        binary.spec_virtual_to_offset(a.virtual_address) == Some(a.file_offset),
{
    let method = metadata.methods@[method_id.0 as int];
    let image = metadata.images@[metadata.types@[method.declaring_type.0 as int].image.0 as int];
    lemma_first_module_named(info.modules@, image.name@);
    let k = first_module_named(info.modules@, image.name@)->0;
    assert(info.modules@[k].name@ == image.name@);
}

} // verus!
