//! Resolution of runtime `Il2CppType` records into stable type expressions.
use vstd::prelude::*;

use crate::binary::{
    read_u32, read_u8, relocated_pointer, spec_read_u32, spec_read_u8, spec_relocated_pointer,
    BinaryImage,
};
use crate::metadata::Metadata;
use crate::model::type_ref::{copy_type_ref, shapes_of, TypeShape};
use crate::model::{Field, GenericParameterId, Method, ParameterId, TypeId, TypeIndex, TypeRef};
use crate::registration::RuntimeMetadata;
use crate::{Error, Result};
use std::collections::HashSet;

verus! {

/// Nesting limit for runtime type records.
pub const MAX_TYPE_DEPTH: usize = 128;

/// Largest generic argument count accepted.
pub const MAX_GENERIC_ARGUMENTS: usize = 1024;

/// Type attribute bit marking a by-reference type.
pub const BY_REF_BIT: u32 = 0x2000_0000;

/// A method parameter with its resolved type.
#[derive(Debug, PartialEq, Eq)]
pub struct ResolvedParameter {
    pub id: ParameterId,
    pub name: String,
    pub ty: TypeRef,
    pub position: usize,
    pub attributes: u16,
}

/// A method's resolved return and parameter types.
#[derive(Debug, PartialEq, Eq)]
pub struct MethodSignature {
    pub return_type: TypeRef,
    pub return_attributes: u16,
    pub parameters: Vec<ResolvedParameter>,
    pub generic_parameters: Vec<GenericParameterId>,
}

/// A field's resolved type, attributes and runtime offset.
#[derive(Debug, PartialEq, Eq)]
pub struct FieldSignature {
    pub ty: TypeRef,
    pub attributes: u16,
    pub offset: Option<i32>,
}

/// The pointer at `address`, or the error of a resolver without an image.
pub open spec fn image_pointer<B: BinaryImage>(binary: Option<&B>, address: u64) -> Result<u64> {
    match binary {
        Some(image) => spec_relocated_pointer(image, address),
        None => Err(Error::RegistrationNotFound),
    }
}

/// The `u32` at `address`, or the error of a resolver without an image.
pub open spec fn image_u32<B: BinaryImage>(binary: Option<&B>, address: u64) -> Result<u32> {
    match binary {
        Some(image) => spec_read_u32(image, address),
        None => Err(Error::RegistrationNotFound),
    }
}

/// The `u8` at `address`, or the error of a resolver without an image.
pub open spec fn image_u8<B: BinaryImage>(binary: Option<&B>, address: u64) -> Result<u8> {
    match binary {
        Some(image) => spec_read_u8(image, address),
        None => Err(Error::RegistrationNotFound),
    }
}

/// The IL2CPP type code stored in bits 16..24 of a type record's attribute word.
pub open spec fn type_code(bits: u32) -> u8 {
    ((bits >> 16u32) & 0xff) as u8
}

/// The type a runtime `Il2CppType` record at `address` describes, as `resolve_address`
/// decodes it: the record's first word is its data (a relocation addend where one applies),
/// the second holds the type code in bits 16..24 and the by-reference flag in bit 29.
/// Records already being decoded (`active`) or nested deeper than the limit are rejected.
pub open spec fn spec_resolve_address<B: BinaryImage>(
    metadata: Metadata,
    binary: Option<&B>,
    address: u64,
    active: Set<u64>,
    depth: int,
) -> Result<TypeShape>
    decreases MAX_TYPE_DEPTH - depth, 2nat, 0nat,
{
    if depth < 0 || depth >= MAX_TYPE_DEPTH || active.contains(address) {
        Err(Error::RecursiveTypeReference(address))
    } else {
        match image_pointer(binary, address) {
            Err(e) => Err(e),
            Ok(data) => if address > u64::MAX - 8 {
                Err(Error::InvalidBinary)
            } else {
                match image_u32(binary, (address + 8) as u64) {
                    Err(e) => Err(e),
                    Ok(bits) => match spec_decode(
                        metadata,
                        binary,
                        type_code(bits),
                        data,
                        active.insert(address),
                        depth,
                    ) {
                        Err(e) => Err(e),
                        Ok(shape) => Ok(
                            if bits & BY_REF_BIT != 0 && !(shape is ByRef) {
                                TypeShape::ByRef(Box::new(shape))
                            } else {
                                shape
                            },
                        ),
                    },
                }
            },
        }
    }
}

/// The type a record with type code `raw` and data word `data` describes.
pub open spec fn spec_decode<B: BinaryImage>(
    metadata: Metadata,
    binary: Option<&B>,
    raw: u8,
    data: u64,
    active: Set<u64>,
    depth: int,
) -> Result<TypeShape>
    decreases MAX_TYPE_DEPTH - depth, 1nat, 0nat,
{
    if depth < 0 || depth >= MAX_TYPE_DEPTH {
        Err(Error::RecursiveTypeReference(data))
    } else if raw == 0x01 {
        Ok(TypeShape::Void)
    } else if raw == 0x02 {
        Ok(TypeShape::Boolean)
    } else if raw == 0x03 {
        Ok(TypeShape::Char)
    } else if raw == 0x04 {
        Ok(TypeShape::I8)
    } else if raw == 0x05 {
        Ok(TypeShape::U8)
    } else if raw == 0x06 {
        Ok(TypeShape::I16)
    } else if raw == 0x07 {
        Ok(TypeShape::U16)
    } else if raw == 0x08 {
        Ok(TypeShape::I32)
    } else if raw == 0x09 {
        Ok(TypeShape::U32)
    } else if raw == 0x0a {
        Ok(TypeShape::I64)
    } else if raw == 0x0b {
        Ok(TypeShape::U64)
    } else if raw == 0x0c {
        Ok(TypeShape::F32)
    } else if raw == 0x0d {
        Ok(TypeShape::F64)
    } else if raw == 0x0e {
        Ok(TypeShape::String)
    } else if raw == 0x0f {
        match spec_resolve_address(metadata, binary, data, active, depth + 1) {
            Err(e) => Err(e),
            Ok(inner) => Ok(TypeShape::Pointer(Box::new(inner))),
        }
    } else if raw == 0x10 {
        match spec_resolve_address(metadata, binary, data, active, depth + 1) {
            Err(e) => Err(e),
            Ok(inner) => Ok(TypeShape::ByRef(Box::new(inner))),
        }
    } else if raw == 0x11 || raw == 0x12 || raw == 0x55 {
        if data > usize::MAX {
            Err(Error::InvalidBinary)
        } else if data >= metadata.types@.len() {
            Ok(TypeShape::Unknown { type_index: None, raw_type: Some(raw) })
        } else {
            Ok(TypeShape::Type(TypeId(data as usize)))
        }
    } else if raw == 0x13 || raw == 0x1e {
        if data > usize::MAX || data >= metadata.generic_parameters@.len() {
            Err(Error::InvalidBinary)
        } else {
            let parameter = metadata.generic_parameters@[data as int];
            Ok(
                TypeShape::GenericParameter {
                    id: parameter.id,
                    name: parameter.name@,
                    method: raw == 0x1e,
                },
            )
        }
    } else if raw == 0x14 {
        match image_pointer(binary, data) {
            Err(e) => Err(e),
            Ok(element) => if data > u64::MAX - 8 {
                Err(Error::InvalidBinary)
            } else {
                match image_u8(binary, (data + 8) as u64) {
                    Err(e) => Err(e),
                    Ok(rank) => if element == 0 || rank == 0 || rank > 32 {
                        Err(Error::InvalidBinary)
                    } else {
                        match spec_resolve_address(metadata, binary, element, active, depth + 1) {
                            Err(e) => Err(e),
                            Ok(inner) => Ok(
                                TypeShape::Array {
                                    element: Box::new(inner),
                                    rank: rank as usize,
                                    zero_based: false,
                                },
                            ),
                        }
                    },
                }
            },
        }
    } else if raw == 0x15 {
        match image_pointer(binary, data) {
            Err(e) => Err(e),
            Ok(base) => if data > u64::MAX - 8 {
                Err(Error::InvalidBinary)
            } else {
                match image_pointer(binary, (data + 8) as u64) {
                    Err(e) => Err(e),
                    Ok(instance) => if base == 0 || instance == 0 {
                        Err(Error::InvalidBinary)
                    } else {
                        match image_u32(binary, instance) {
                            Err(e) => Err(e),
                            Ok(count) => if count > MAX_GENERIC_ARGUMENTS {
                                Err(Error::InvalidBinary)
                            } else if instance > u64::MAX - 8 {
                                Err(Error::InvalidBinary)
                            } else {
                                match image_pointer(binary, (instance + 8) as u64) {
                                    Err(e) => Err(e),
                                    Ok(arguments) => match spec_arguments(
                                        metadata,
                                        binary,
                                        arguments,
                                        count as nat,
                                        active,
                                        depth + 1,
                                    ) {
                                        Err(e) => Err(e),
                                        Ok(resolved) => match spec_resolve_address(
                                            metadata,
                                            binary,
                                            base,
                                            active,
                                            depth + 1,
                                        ) {
                                            Err(e) => Err(e),
                                            Ok(base_shape) => Ok(
                                                TypeShape::GenericInstance {
                                                    base: Box::new(base_shape),
                                                    arguments: resolved,
                                                },
                                            ),
                                        },
                                    },
                                }
                            },
                        }
                    },
                }
            },
        }
    } else if raw == 0x16 {
        Ok(TypeShape::TypedReference)
    } else if raw == 0x18 {
        Ok(TypeShape::IntPtr)
    } else if raw == 0x19 {
        Ok(TypeShape::UIntPtr)
    } else if raw == 0x1b {
        Ok(TypeShape::FunctionPointer)
    } else if raw == 0x1c {
        Ok(TypeShape::Object)
    } else if raw == 0x1d {
        match spec_resolve_address(metadata, binary, data, active, depth + 1) {
            Err(e) => Err(e),
            Ok(inner) => Ok(TypeShape::Array { element: Box::new(inner), rank: 1, zero_based: true }),
        }
    } else {
        Ok(TypeShape::Unknown { type_index: None, raw_type: Some(raw) })
    }
}

/// The first `count` generic arguments listed in the pointer array at `pointer`.
pub open spec fn spec_arguments<B: BinaryImage>(
    metadata: Metadata,
    binary: Option<&B>,
    pointer: u64,
    count: nat,
    active: Set<u64>,
    depth: int,
) -> Result<Seq<TypeShape>>
    decreases MAX_TYPE_DEPTH - depth, 3nat, count,
{
    if count == 0 {
        Ok(Seq::empty())
    } else {
        match spec_arguments(metadata, binary, pointer, (count - 1) as nat, active, depth) {
            Err(e) => Err(e),
            Ok(previous) => if pointer + (count - 1) * 8 > u64::MAX {
                Err(Error::InvalidBinary)
            } else {
                match image_pointer(binary, (pointer + (count - 1) * 8) as u64) {
                    Err(e) => Err(e),
                    Ok(argument) => match spec_resolve_address(
                        metadata,
                        binary,
                        argument,
                        active,
                        depth,
                    ) {
                        Err(e) => Err(e),
                        Ok(shape) => Ok(previous.push(shape)),
                    },
                }
            },
        }
    }
}


/// Reads the pointer at `address` from the image.
fn image_read_pointer<B: BinaryImage>(binary: Option<&B>, address: u64) -> (r: Result<u64>)
    ensures
        r == image_pointer(binary, address),
{
    match binary {
        Some(image) => relocated_pointer(image, address),
        None => Err(Error::RegistrationNotFound),
    }
}

/// Reads the `u32` at `address` from the image.
fn image_read_u32<B: BinaryImage>(binary: Option<&B>, address: u64) -> (r: Result<u32>)
    ensures
        r == image_u32(binary, address),
{
    match binary {
        Some(image) => read_u32(image, address),
        None => Err(Error::RegistrationNotFound),
    }
}

/// Reads the `u8` at `address` from the image.
fn image_read_u8<B: BinaryImage>(binary: Option<&B>, address: u64) -> (r: Result<u8>)
    ensures
        r == image_u8(binary, address),
{
    match binary {
        Some(image) => read_u8(image, address),
        None => Err(Error::RegistrationNotFound),
    }
}

proof fn lemma_arguments_error_persists<B: BinaryImage>(
    metadata: Metadata,
    binary: Option<&B>,
    pointer: u64,
    i: nat,
    count: nat,
    active: Set<u64>,
    depth: int,
)
    requires
        i <= count,
    ensures
        spec_arguments(metadata, binary, pointer, i, active, depth) is Err ==> spec_arguments(
            metadata,
            binary,
            pointer,
            count,
            active,
            depth,
        ) == spec_arguments(metadata, binary, pointer, i, active, depth),
    decreases count - i,
{
    if i < count {
        lemma_arguments_error_persists(metadata, binary, pointer, i + 1, count, active, depth);
    }
}

/// Decodes the runtime type record at `address`.
fn resolve_address<B: BinaryImage>(
    metadata: &Metadata,
    binary: Option<&B>,
    address: u64,
    active: &mut HashSet<u64>,
    depth: usize,
) -> (r: Result<TypeRef>)
    ensures
        match spec_resolve_address(*metadata, binary, address, old(active)@, depth as int) {
            Ok(shape) => r matches Ok(t) && t@ == shape && final(active)@ == old(active)@,
            Err(e) => r matches Err(f) && f == e,
        },
    decreases MAX_TYPE_DEPTH - depth, 2nat, 0nat,
{
    let ghost entry = active@;
    if depth >= MAX_TYPE_DEPTH || !active.insert(address) {
        return Err(Error::RecursiveTypeReference(address));
    }
    let data = image_read_pointer(binary, address)?;
    if address > u64::MAX - 8 {
        return Err(Error::InvalidBinary);
    }
    let bits = image_read_u32(binary, address + 8)?;
    let raw = ((bits >> 16u32) & 0xff) as u8;
    let resolved = decode(metadata, binary, raw, data, active, depth)?;
    active.remove(&address);
    assert(active@ =~= entry);
    if bits & BY_REF_BIT != 0 {
        match resolved {
            TypeRef::ByRef(inner) => Ok(TypeRef::ByRef(inner)),
            other => Ok(TypeRef::ByRef(Box::new(other))),
        }
    } else {
        Ok(resolved)
    }
}

/// Decodes a record with type code `raw` and data word `data`.
#[verifier::rlimit(60)]
#[verifier::spinoff_prover]
fn decode<B: BinaryImage>(
    metadata: &Metadata,
    binary: Option<&B>,
    raw: u8,
    data: u64,
    active: &mut HashSet<u64>,
    depth: usize,
) -> (r: Result<TypeRef>)
    requires
        depth < MAX_TYPE_DEPTH,
    ensures
        match spec_decode(*metadata, binary, raw, data, old(active)@, depth as int) {
            Ok(shape) => r matches Ok(t) && t@ == shape && final(active)@ == old(active)@,
            Err(e) => r matches Err(f) && f == e,
        },
    decreases MAX_TYPE_DEPTH - depth, 1nat, 0nat,
{
    if raw == 0x01 {
        Ok(TypeRef::Void)
    } else if raw == 0x02 {
        Ok(TypeRef::Boolean)
    } else if raw == 0x03 {
        Ok(TypeRef::Char)
    } else if raw == 0x04 {
        Ok(TypeRef::I8)
    } else if raw == 0x05 {
        Ok(TypeRef::U8)
    } else if raw == 0x06 {
        Ok(TypeRef::I16)
    } else if raw == 0x07 {
        Ok(TypeRef::U16)
    } else if raw == 0x08 {
        Ok(TypeRef::I32)
    } else if raw == 0x09 {
        Ok(TypeRef::U32)
    } else if raw == 0x0a {
        Ok(TypeRef::I64)
    } else if raw == 0x0b {
        Ok(TypeRef::U64)
    } else if raw == 0x0c {
        Ok(TypeRef::F32)
    } else if raw == 0x0d {
        Ok(TypeRef::F64)
    } else if raw == 0x0e {
        Ok(TypeRef::String)
    } else if raw == 0x0f {
        let inner = resolve_address(metadata, binary, data, active, depth + 1)?;
        Ok(TypeRef::Pointer(Box::new(inner)))
    } else if raw == 0x10 {
        let inner = resolve_address(metadata, binary, data, active, depth + 1)?;
        Ok(TypeRef::ByRef(Box::new(inner)))
    } else if raw == 0x11 || raw == 0x12 || raw == 0x55 {
        if data > usize::MAX as u64 {
            Err(Error::InvalidBinary)
        } else if data as usize >= metadata.types.len() {
            Ok(TypeRef::Unknown { type_index: None, raw_type: Some(raw) })
        } else {
            Ok(TypeRef::Type(TypeId(data as usize)))
        }
    } else if raw == 0x13 || raw == 0x1e {
        if data > usize::MAX as u64 || data as usize >= metadata.generic_parameters.len() {
            Err(Error::InvalidBinary)
        } else {
            let parameter = &metadata.generic_parameters[data as usize];
            Ok(
                TypeRef::GenericParameter {
                    id: parameter.id,
                    name: parameter.name.clone(),
                    method: raw == 0x1e,
                },
            )
        }
    } else if raw == 0x14 {
        array_type(metadata, binary, data, active, depth + 1)
    } else if raw == 0x15 {
        generic_instance(metadata, binary, data, active, depth + 1)
    } else if raw == 0x16 {
        Ok(TypeRef::TypedReference)
    } else if raw == 0x18 {
        Ok(TypeRef::IntPtr)
    } else if raw == 0x19 {
        Ok(TypeRef::UIntPtr)
    } else if raw == 0x1b {
        Ok(TypeRef::FunctionPointer)
    } else if raw == 0x1c {
        Ok(TypeRef::Object)
    } else if raw == 0x1d {
        let inner = resolve_address(metadata, binary, data, active, depth + 1)?;
        Ok(TypeRef::Array { element: Box::new(inner), rank: 1, zero_based: true })
    } else {
        Ok(TypeRef::Unknown { type_index: None, raw_type: Some(raw) })
    }
}

/// Decodes an array record at `address`: element type, then rank.
fn array_type<B: BinaryImage>(
    metadata: &Metadata,
    binary: Option<&B>,
    address: u64,
    active: &mut HashSet<u64>,
    depth: usize,
) -> (r: Result<TypeRef>)
    requires
        1 <= depth <= MAX_TYPE_DEPTH,
    ensures
        match spec_decode(*metadata, binary, 0x14, address, old(active)@, depth - 1) {
            Ok(shape) => r matches Ok(t) && t@ == shape && final(active)@ == old(active)@,
            Err(e) => r matches Err(f) && f == e,
        },
    decreases MAX_TYPE_DEPTH - depth + 1, 0nat, 0nat,
{
    let element = image_read_pointer(binary, address)?;
    if address > u64::MAX - 8 {
        return Err(Error::InvalidBinary);
    }
    let rank = image_read_u8(binary, address + 8)?;
    if element == 0 || rank == 0 || rank > 32 {
        return Err(Error::InvalidBinary);
    }
    let inner = resolve_address(metadata, binary, element, active, depth)?;
    Ok(TypeRef::Array { element: Box::new(inner), rank: rank as usize, zero_based: false })
}

/// Decodes a generic instance record at `address`: base type, then argument list.
#[verifier::loop_isolation(false)]
fn generic_instance<B: BinaryImage>(
    metadata: &Metadata,
    binary: Option<&B>,
    address: u64,
    active: &mut HashSet<u64>,
    depth: usize,
) -> (r: Result<TypeRef>)
    requires
        1 <= depth <= MAX_TYPE_DEPTH,
    ensures
        match spec_decode(*metadata, binary, 0x15, address, old(active)@, depth - 1) {
            Ok(shape) => r matches Ok(t) && t@ == shape && final(active)@ == old(active)@,
            Err(e) => r matches Err(f) && f == e,
        },
    decreases MAX_TYPE_DEPTH - depth + 1, 0nat, 0nat,
{
    let ghost entry = active@;
    let base = image_read_pointer(binary, address)?;
    if address > u64::MAX - 8 {
        return Err(Error::InvalidBinary);
    }
    let instance = image_read_pointer(binary, address + 8)?;
    if base == 0 || instance == 0 {
        return Err(Error::InvalidBinary);
    }
    let count = image_read_u32(binary, instance)?;
    if count as usize > MAX_GENERIC_ARGUMENTS {
        return Err(Error::InvalidBinary);
    }
    if instance > u64::MAX - 8 {
        return Err(Error::InvalidBinary);
    }
    let pointer = image_read_pointer(binary, instance + 8)?;
    let mut arguments: Vec<TypeRef> = Vec::new();
    let mut index: usize = 0;
    while index < count as usize
        invariant
            index <= count,
            count <= MAX_GENERIC_ARGUMENTS,
            1 <= depth <= MAX_TYPE_DEPTH,
            active@ == entry,
            spec_arguments(*metadata, binary, pointer, index as nat, entry, depth as int)
                matches Ok(previous) && arguments@.len() == previous.len() && forall|k: int|
                0 <= k < previous.len() ==> (#[trigger] arguments@[k])@ == previous[k],
        decreases count - index,
    {
        proof {
            lemma_arguments_error_persists(
                *metadata,
                binary,
                pointer,
                (index + 1) as nat,
                count as nat,
                entry,
                depth as int,
            );
        }
        if index as u64 > (u64::MAX - pointer) / 8 {
            proof {
                assert(index * 8 > u64::MAX - pointer) by (nonlinear_arith)
                    requires
                        index > (u64::MAX - pointer) / 8,
                ;
            }
            return Err(Error::InvalidBinary);
        }
        assert(index * 8 <= u64::MAX - pointer) by (nonlinear_arith)
            requires
                index <= (u64::MAX - pointer) / 8,
        ;
        let argument = image_read_pointer(binary, pointer + index as u64 * 8)?;
        let resolved = resolve_address(metadata, binary, argument, active, depth)?;
        let ghost before = arguments@;
        arguments.push(resolved);
        proof {
            let previous = spec_arguments(
                *metadata,
                binary,
                pointer,
                index as nat,
                entry,
                depth as int,
            )->Ok_0;
            assert forall|k: int| 0 <= k < previous.len() + 1 implies (#[trigger] arguments@[k])@
                == previous.push(resolved@)[k] by {
                if k < previous.len() {
                    assert(arguments@[k] == before[k]);
                }
            }
        }
        index = index + 1;
    }
    let base_type = resolve_address(metadata, binary, base, active, depth)?;
    proof {
        let resolved = spec_arguments(
            *metadata,
            binary,
            pointer,
            count as nat,
            entry,
            depth as int,
        )->Ok_0;
        assert(shapes_of(arguments@, arguments@.len()) =~= resolved) by {
            lemma_shapes_of_elements(arguments@, resolved);
        }
    }
    Ok(TypeRef::GenericInstance { base: Box::new(base_type), arguments })
}

proof fn lemma_shapes_of_elements(types: Seq<TypeRef>, shapes: Seq<TypeShape>)
    requires
        types.len() == shapes.len(),
        forall|k: int| 0 <= k < types.len() ==> (#[trigger] types[k])@ == shapes[k],
    ensures
        shapes_of(types, types.len()) == shapes,
    decreases types.len(),
{
    if types.len() > 0 {
        let n = (types.len() - 1) as nat;
        lemma_shapes_of_elements(types.drop_last(), shapes.drop_last());
        lemma_shapes_of_prefix(types, n);
        assert(shapes_of(types, types.len()) =~= shapes);
    }
}

proof fn lemma_shapes_of_prefix(types: Seq<TypeRef>, n: nat)
    requires
        n <= types.len(),
    ensures
        shapes_of(types, n) == shapes_of(types.take(n as int), n),
    decreases n,
{
    if n > 0 {
        lemma_shapes_of_prefix(types, (n - 1) as nat);
        lemma_shapes_of_prefix(types.take(n as int), (n - 1) as nat);
        assert(types.take(n as int).take((n - 1) as int) =~= types.take((n - 1) as int));
    }
}


/// Resolves runtime `Il2CppType` records into stable [`TypeRef`] values.
pub struct TypeResolver<'a, B: BinaryImage> {
    metadata: &'a Metadata,
    binary: Option<&'a B>,
    runtime: Option<&'a RuntimeMetadata>,
    resolved: Option<&'a [TypeRef]>,
    resolved_attributes: Option<&'a [u16]>,
}

/// The generic parameters of the container a method names, if it exists.
pub open spec fn method_generic_parameters(metadata: Metadata, method: Method) -> Seq<GenericParameterId> {
    match method.generic_container_index {
        Some(i) => if i < metadata.generic_containers@.len() {
            metadata.generic_containers@[i as int].parameters@
        } else {
            Seq::empty()
        },
        None => Seq::empty(),
    }
}

/// An attribute table is given and its length differs from the type table's.
pub open spec fn attributes_mismatch(attributes: Option<&[u16]>, types: nat) -> bool {
    match attributes {
        Some(list) => list@.len() != types,
        None => false,
    }
}

/// The parameters of `method` name existing parameter records.
pub open spec fn parameters_in_range(metadata: Metadata, method: Method) -> bool {
    forall|k: int|
        0 <= k < method.parameters@.len() ==> (#[trigger] method.parameters@[k]).0
            < metadata.parameters@.len()
}

impl<'a, B: BinaryImage> TypeResolver<'a, B> {
    /// The metadata the resolver reads.
    pub closed spec fn spec_metadata(&self) -> Metadata {
        *self.metadata
    }

    /// The image type records are read from, if any.
    pub closed spec fn spec_binary(&self) -> Option<&'a B> {
        self.binary
    }

    /// The runtime type table, if any.
    pub closed spec fn spec_runtime(&self) -> Option<RuntimeMetadata> {
        match self.runtime {
            Some(runtime) => Some(*runtime),
            None => None,
        }
    }

    /// The already-normalized type table, if any.
    pub closed spec fn spec_resolved(&self) -> Option<Seq<TypeShape>> {
        match self.resolved {
            Some(list) => Some(list@.map_values(|t: TypeRef| t@)),
            None => None,
        }
    }

    /// The attributes of the already-normalized types, if any.
    pub closed spec fn spec_resolved_attributes(&self) -> Option<Seq<u16>> {
        match self.resolved_attributes {
            Some(list) => Some(list@),
            None => None,
        }
    }

    /// What `resolve` yields for a type index.
    #[verifier::opaque]
    pub open spec fn spec_resolve(&self, index: TypeIndex) -> Result<TypeShape> {
        match self.spec_resolved() {
            Some(list) => if index.0 < list.len() {
                Ok(list[index.0 as int])
            } else {
                Err(Error::InvalidTypeIndex(index.0))
            },
            None => match self.spec_runtime() {
                None => Ok(TypeShape::Unknown { type_index: Some(index.0), raw_type: None }),
                Some(runtime) => if index.0 < runtime.types().len() {
                    spec_resolve_address(
                        self.spec_metadata(),
                        self.spec_binary(),
                        runtime.types()[index.0 as int],
                        Set::empty(),
                        0,
                    )
                } else {
                    Err(Error::InvalidTypeIndex(index.0))
                },
            },
        }
    }

    /// What `attributes` yields for a type index.
    #[verifier::opaque]
    pub open spec fn spec_attributes(&self, index: TypeIndex) -> Result<u16> {
        match self.spec_resolved_attributes() {
            Some(list) => if index.0 < list.len() {
                Ok(list[index.0 as int])
            } else {
                Err(Error::InvalidTypeIndex(index.0))
            },
            None => if self.spec_resolved() is Some {
                Ok(0)
            } else {
                match self.spec_runtime() {
                    None => Ok(0),
                    Some(runtime) => if index.0 >= runtime.types().len() {
                        Err(Error::InvalidTypeIndex(index.0))
                    } else if runtime.types()[index.0 as int] > u64::MAX - 8 {
                        Err(Error::InvalidBinary)
                    } else {
                        match image_u32(
                            self.spec_binary(),
                            (runtime.types()[index.0 as int] + 8) as u64,
                        ) {
                            Err(e) => Err(e),
                            Ok(bits) => Ok((bits & 0xffff) as u16),
                        }
                    },
                }
            },
        }
    }

    /// Types and attributes of the first `n` parameters of `method`.
    pub open spec fn spec_parameter_types(&self, method: Method, n: nat) -> Result<
        Seq<(TypeShape, u16)>,
    >
        decreases n,
    {
        if n == 0 {
            Ok(Seq::empty())
        } else {
            match self.spec_parameter_types(method, (n - 1) as nat) {
                Err(e) => Err(e),
                Ok(previous) => {
                    let parameter = self.spec_metadata().parameters@[method.parameters@[n
                        - 1].0 as int];
                    match self.spec_resolve(parameter.parameter_type) {
                        Err(e) => Err(e),
                        Ok(ty) => match self.spec_attributes(parameter.parameter_type) {
                            Err(e) => Err(e),
                            Ok(attributes) => Ok(previous.push((ty, attributes))),
                        },
                    }
                },
            }
        }
    }

    /// Creates a metadata-only resolver. Type indexes remain explicit unknowns.
    pub fn metadata_only(metadata: &'a Metadata) -> (r: Self)
        ensures
            r.spec_metadata() == *metadata,
            r.spec_binary() is None,
            r.spec_runtime() is None,
            r.spec_resolved() is None,
            r.spec_resolved_attributes() is None,
    {
        TypeResolver {
            metadata,
            binary: None,
            runtime: None,
            resolved: None,
            resolved_attributes: None,
        }
    }

    /// Creates a resolver backed by validated runtime metadata registration.
    pub fn with_runtime(metadata: &'a Metadata, binary: &'a B, runtime: &'a RuntimeMetadata) -> (r:
        Self)
        ensures
            r.spec_metadata() == *metadata,
            r.spec_binary() == Some(binary),
            r.spec_runtime() == Some(*runtime),
            r.spec_resolved() is None,
            r.spec_resolved_attributes() is None,
    {
        TypeResolver {
            metadata,
            binary: Some(binary),
            runtime: Some(runtime),
            resolved: None,
            resolved_attributes: None,
        }
    }

    /// Creates a resolver over an already-normalized type table.
    pub fn from_resolved(
        metadata: &'a Metadata,
        resolved: &'a [TypeRef],
        attributes: Option<&'a [u16]>,
    ) -> (r: Result<Self>)
        ensures
            attributes_mismatch(attributes, resolved@.len()) ==> (r matches Err(e) && e
                == Error::InvalidMetadataTable("resolved type attributes")),
            !attributes_mismatch(attributes, resolved@.len()) ==> r is Ok,
            r matches Ok(resolver) ==> {
                &&& resolver.spec_metadata() == *metadata
                &&& resolver.spec_binary() is None
                &&& resolver.spec_runtime() is None
                &&& resolver.spec_resolved() == Some(resolved@.map_values(|t: TypeRef| t@))
                &&& resolver.spec_resolved_attributes() == match attributes {
                    Some(list) => Some(list@),
                    None => None::<Seq<u16>>,
                }
            },
    {
        match attributes {
            Some(list) => {
                if list.len() != resolved.len() {
                    return Err(Error::InvalidMetadataTable("resolved type attributes"));
                }
            },
            None => {},
        }
        Ok(
            TypeResolver {
                metadata,
                binary: None,
                runtime: None,
                resolved: Some(resolved),
                resolved_attributes: attributes,
            },
        )
    }

    /// The metadata this resolver reads.
    pub fn metadata(&self) -> (r: &'a Metadata)
        ensures
            *r == self.spec_metadata(),
    {
        self.metadata
    }

    /// Whether runtime type records or a normalized type table back this resolver.
    pub fn has_runtime_types(&self) -> (r: bool)
        ensures
            r == (self.spec_runtime() is Some || self.spec_resolved() is Some),
    {
        self.runtime.is_some() || self.resolved.is_some()
    }

    /// Resolves a runtime type index to a type expression.
    pub fn resolve(&self, index: TypeIndex) -> (r: Result<TypeRef>)
        ensures
            match self.spec_resolve(index) {
                Ok(shape) => r matches Ok(t) && t@ == shape,
                Err(e) => r matches Err(f) && f == e,
            },
    {
        reveal(TypeResolver::spec_resolve);
        match self.resolved {
            Some(list) => {
                if index.0 < list.len() {
                    return Ok(copy_type_ref(&list[index.0]));
                } else {
                    return Err(Error::InvalidTypeIndex(index.0));
                }
            },
            None => {},
        }
        let runtime = match self.runtime {
            Some(runtime) => runtime,
            None => return Ok(TypeRef::Unknown { type_index: Some(index.0), raw_type: None }),
        };
        let address = match runtime.type_address(index.0) {
            Some(address) => address,
            None => return Err(Error::InvalidTypeIndex(index.0)),
        };
        let mut active: HashSet<u64> = HashSet::new();
        resolve_address(self.metadata, self.binary, address, &mut active, 0)
    }

    /// Returns the attribute bits of a runtime type record.
    pub fn attributes(&self, index: TypeIndex) -> (r: Result<u16>)
        ensures
            r == self.spec_attributes(index),
    {
        reveal(TypeResolver::spec_attributes);
        match self.resolved_attributes {
            Some(list) => {
                if index.0 < list.len() {
                    return Ok(list[index.0]);
                } else {
                    return Err(Error::InvalidTypeIndex(index.0));
                }
            },
            None => {},
        }
        if self.resolved.is_some() {
            return Ok(0);
        }
        let runtime = match self.runtime {
            Some(runtime) => runtime,
            None => return Ok(0),
        };
        let address = match runtime.type_address(index.0) {
            Some(address) => address,
            None => return Err(Error::InvalidTypeIndex(index.0)),
        };
        if address > u64::MAX - 8 {
            return Err(Error::InvalidBinary);
        }
        let bits = image_read_u32(self.binary, address + 8)?;
        Ok((bits & 0xffff) as u16)
    }

    /// Resolves a field's type, attributes and runtime offset.
    pub fn field_signature(&self, field: &Field) -> (r: Result<FieldSignature>)
        ensures
            match self.spec_resolve(field.field_type) {
                Err(e) => r matches Err(f) && f == e,
                Ok(ty) => match self.spec_attributes(field.field_type) {
                    Err(e) => r matches Err(f) && f == e,
                    Ok(attributes) => r matches Ok(signature) && signature.ty@ == ty
                        && signature.attributes == attributes && signature.offset == match self.spec_runtime() {
                        Some(runtime) => if field.id.0 < runtime.offsets().len() {
                            runtime.offsets()[field.id.0 as int]
                        } else {
                            None
                        },
                        None => None,
                    },
                },
            },
    {
        let ty = self.resolve(field.field_type)?;
        let attributes = self.attributes(field.field_type)?;
        let offset = match self.runtime {
            Some(runtime) => runtime.field_offset(field.id),
            None => None,
        };
        Ok(FieldSignature { ty, attributes, offset })
    }

    /// Resolves a method's return and parameter types and lists its generic parameters.
    #[verifier::rlimit(50)]
    #[verifier::spinoff_prover]
    pub fn method_signature(&self, method: &Method) -> (r: Result<MethodSignature>)
        requires
            parameters_in_range(self.spec_metadata(), *method),
        ensures
            match self.spec_parameter_types(*method, method.parameters@.len()) {
                Err(e) => r matches Err(f) && f == e,
                Ok(types) => match self.spec_resolve(method.return_type) {
                    Err(e) => r matches Err(f) && f == e,
                    Ok(return_type) => match self.spec_attributes(method.return_type) {
                        Err(e) => r matches Err(f) && f == e,
                        Ok(return_attributes) => r matches Ok(signature)
                            && signature.return_type@ == return_type
                            && signature.return_attributes == return_attributes
                            && signature.generic_parameters@ == method_generic_parameters(
                            self.spec_metadata(),
                            *method,
                        ) && signature.parameters@.len() == types.len() && forall|k: int|
                            0 <= k < types.len() ==> parameter_matches(
                                #[trigger] signature.parameters@[k],
                                self.spec_metadata().parameters@[method.parameters@[k].0 as int],
                                types[k],
                                k,
                            ),
                    },
                },
            },
    {
        let mut parameters: Vec<ResolvedParameter> = Vec::new();
        let mut position: usize = 0;
        while position < method.parameters.len()
            invariant
                position <= method.parameters@.len(),
                parameters_in_range(self.spec_metadata(), *method),
                self.spec_metadata() == *self.metadata,
                self.spec_parameter_types(*method, position as nat) matches Ok(types)
                    && parameters@.len() == types.len() && forall|k: int|
                    0 <= k < types.len() ==> parameter_matches(
                        #[trigger] parameters@[k],
                        self.spec_metadata().parameters@[method.parameters@[k].0 as int],
                        types[k],
                        k,
                    ),
            decreases method.parameters@.len() - position,
        {
            proof {
                self.lemma_parameter_error_persists(
                    *method,
                    (position + 1) as nat,
                    method.parameters@.len(),
                );
            }
            let parameter = &self.metadata.parameters[method.parameters[position].0];
            let ty = self.resolve(parameter.parameter_type)?;
            let attributes = self.attributes(parameter.parameter_type)?;
            let ghost before = parameters@;
            parameters.push(
                ResolvedParameter {
                    id: parameter.id,
                    name: parameter.name.clone(),
                    ty,
                    position,
                    attributes,
                },
            );
            proof {
                self.lemma_parameter_types_len(*method, position as nat);
                let types = self.spec_parameter_types(*method, position as nat)->Ok_0;
                let next = types.push((ty@, attributes));
                assert forall|k: int| 0 <= k < next.len() implies parameter_matches(
                    #[trigger] parameters@[k],
                    self.spec_metadata().parameters@[method.parameters@[k].0 as int],
                    next[k],
                    k,
                ) by {
                    if k < types.len() {
                        assert(parameters@[k] == before[k]);
                    }
                }
            }
            position = position + 1;
        }
        let mut generic_parameters: Vec<GenericParameterId> = Vec::new();
        match method.generic_container_index {
            Some(index) => {
                if index < self.metadata.generic_containers.len() {
                    let source = &self.metadata.generic_containers[index].parameters;
                    let mut k: usize = 0;
                    while k < source.len()
                        invariant
                            k <= source@.len(),
                            generic_parameters@ == source@.take(k as int),
                        decreases source@.len() - k,
                    {
                        generic_parameters.push(source[k]);
                        k = k + 1;
                        assert(generic_parameters@ =~= source@.take(k as int));
                    }
                    assert(source@.take(source@.len() as int) =~= source@);
                }
            },
            None => {},
        }
        let return_type = self.resolve(method.return_type)?;
        let return_attributes = self.attributes(method.return_type)?;
        Ok(MethodSignature { return_type, return_attributes, parameters, generic_parameters })
    }

    proof fn lemma_parameter_types_len(&self, method: Method, n: nat)
        ensures
            self.spec_parameter_types(method, n) matches Ok(types) ==> types.len() == n,
        decreases n,
    {
        if n > 0 {
            self.lemma_parameter_types_len(method, (n - 1) as nat);
        }
    }

    proof fn lemma_parameter_error_persists(&self, method: Method, i: nat, n: nat)
        requires
            i <= n,
        ensures
            self.spec_parameter_types(method, i) is Err ==> self.spec_parameter_types(method, n)
                == self.spec_parameter_types(method, i),
        decreases n - i,
    {
        if i < n {
            self.lemma_parameter_error_persists(method, i + 1, n);
        }
    }
}

/// `resolved` describes `parameter` at `position` with the resolved type and attributes.
pub open spec fn parameter_matches(
    resolved: ResolvedParameter,
    parameter: crate::model::Parameter,
    types: (TypeShape, u16),
    position: int,
) -> bool {
    &&& resolved.id == parameter.id
    &&& resolved.name@ == parameter.name@
    &&& resolved.ty@ == types.0
    &&& resolved.attributes == types.1
    &&& resolved.position == position
}


/// The type each ECMA-335 element-type code that needs no further data stands for:
/// `void`, `bool`, `char`, the signed and unsigned integers from 8 to 64 bits, the two
/// floating-point types, `string`, `typedref`, native `int` and `uint`, function pointers
/// and `object`.
pub open spec fn element_type_shape(code: u8) -> Option<TypeShape> {
    if code == 0x01 {
        Some(TypeShape::Void)
    } else if code == 0x02 {
        Some(TypeShape::Boolean)
    } else if code == 0x03 {
        Some(TypeShape::Char)
    } else if code == 0x04 {
        Some(TypeShape::I8)
    } else if code == 0x05 {
        Some(TypeShape::U8)
    } else if code == 0x06 {
        Some(TypeShape::I16)
    } else if code == 0x07 {
        Some(TypeShape::U16)
    } else if code == 0x08 {
        Some(TypeShape::I32)
    } else if code == 0x09 {
        Some(TypeShape::U32)
    } else if code == 0x0a {
        Some(TypeShape::I64)
    } else if code == 0x0b {
        Some(TypeShape::U64)
    } else if code == 0x0c {
        Some(TypeShape::F32)
    } else if code == 0x0d {
        Some(TypeShape::F64)
    } else if code == 0x0e {
        Some(TypeShape::String)
    } else if code == 0x16 {
        Some(TypeShape::TypedReference)
    } else if code == 0x18 {
        Some(TypeShape::IntPtr)
    } else if code == 0x19 {
        Some(TypeShape::UIntPtr)
    } else if code == 0x1b {
        Some(TypeShape::FunctionPointer)
    } else if code == 0x1c {
        Some(TypeShape::Object)
    } else {
        None
    }
}

/// A record whose element-type code needs no further data decodes to the fixed type of
/// that code, whatever its data word, whenever the nesting limit is not reached.
pub proof fn law_element_codes_decode_to_their_type<B: BinaryImage>(
    metadata: Metadata,
    binary: Option<&B>,
    code: u8,
    data: u64,
    active: Set<u64>,
    depth: int,
)
    requires
        0 <= depth < MAX_TYPE_DEPTH,
        element_type_shape(code) is Some,
    ensures
        spec_decode(metadata, binary, code, data, active, depth) == Ok::<TypeShape, Error>(
            element_type_shape(code)->0,
        ),
{
}

/// A readable runtime type record that is not already being decoded, below the nesting
/// limit, whose type code (bits 16..24 of its second word) needs no further data, resolves
/// to the fixed type of that code, wrapped as a by-reference type when bit 29 is set.
pub proof fn law_element_records_resolve_to_their_type<B: BinaryImage>(
    metadata: Metadata,
    binary: Option<&B>,
    address: u64,
    active: Set<u64>,
    depth: int,
    bits: u32,
)
    requires
        0 <= depth < MAX_TYPE_DEPTH,
        !active.contains(address),
        image_pointer(binary, address) is Ok,
        address <= u64::MAX - 8,
        image_u32(binary, (address + 8) as u64) == Ok::<u32, Error>(bits),
        element_type_shape(((bits >> 16u32) & 0xff) as u8) is Some,
    ensures
        spec_resolve_address(metadata, binary, address, active, depth) == Ok::<TypeShape, Error>(
            if bits & BY_REF_BIT != 0 {
                TypeShape::ByRef(Box::new(element_type_shape(((bits >> 16u32) & 0xff) as u8)->0))
            } else {
                element_type_shape(((bits >> 16u32) & 0xff) as u8)->0
            },
        ),
{
    let code = type_code(bits);
    law_element_codes_decode_to_their_type(
        metadata,
        binary,
        code,
        image_pointer(binary, address)->Ok_0,
        active.insert(address),
        depth,
    );
}


/// Pointer (0x0f), by-reference (0x10) and single-dimension zero-based array (0x1d) records
/// wrap the type their data word points at, one level deeper: they decode to that type
/// under the wrapper, or fail as resolving it fails.
pub proof fn law_wrapper_codes_wrap_their_target<B: BinaryImage>(
    metadata: Metadata,
    binary: Option<&B>,
    data: u64,
    active: Set<u64>,
    depth: int,
)
    requires
        0 <= depth < MAX_TYPE_DEPTH,
    ensures
        match spec_resolve_address(metadata, binary, data, active, depth + 1) {
            Ok(inner) => {
                &&& spec_decode(metadata, binary, 0x0f, data, active, depth) == Ok::<TypeShape, Error>(
                    TypeShape::Pointer(Box::new(inner)),
                )
                &&& spec_decode(metadata, binary, 0x10, data, active, depth) == Ok::<TypeShape, Error>(
                    TypeShape::ByRef(Box::new(inner)),
                )
                &&& spec_decode(metadata, binary, 0x1d, data, active, depth) == Ok::<TypeShape, Error>(
                    TypeShape::Array { element: Box::new(inner), rank: 1, zero_based: true },
                )
            },
            Err(e) => {
                &&& spec_decode(metadata, binary, 0x0f, data, active, depth) == Err::<TypeShape, Error>(e)
                &&& spec_decode(metadata, binary, 0x10, data, active, depth) == Err::<TypeShape, Error>(e)
                &&& spec_decode(metadata, binary, 0x1d, data, active, depth) == Err::<TypeShape, Error>(e)
            },
        },
{
}

} // verus!
