//! Normalization of raw version 31 records into the public model, one table at a time.
use vstd::prelude::*;

use super::header::MetadataHeader;
use super::ranges::{
    spec_optional_index, checked_index, checked_range, optional_checked_index, optional_type_index,
    required_type_index, spec_optional_checked_index, spec_optional_type_index, spec_range,
};
use super::strings::{spec_string_at, string_at};
use super::versions::v31::{
    RawRecords, RawTables, RawAssembly, RawField, RawGenericContainer, RawGenericParameter, RawImage, RawMethod,
    RawParameter, RawProperty, RawTypeDefinition, RawTypeIndexEntry,
};
use crate::model::{
    Assembly, AssemblyId, Field, FieldId, GenericContainer, GenericContainerId, GenericOwner,
    GenericParameter, GenericParameterId, Image, ImageId, Method, MethodId, Parameter,
    ParameterId, Property, PropertyId, TypeDefinition, TypeId, TypeIndex,
};
use crate::{Error, Result};

verus! {

/// The identifier string at `index` resolves.
pub open spec fn name_ok(data: Seq<u8>, header: MetadataHeader, index: u32) -> bool {
    spec_string_at(data, header.strings, index) is Some
}

/// The identifier string at `index`.
pub open spec fn name_of(data: Seq<u8>, header: MetadataHeader, index: u32) -> Seq<char> {
    spec_string_at(data, header.strings, index).unwrap()
}

/// The bounds of a range already known to be valid.
pub open spec fn bounds(start: i32, count: int, total: int) -> (int, int) {
    spec_range(start, count, total).unwrap()
}

/// Identifiers `begin..end` of some table.
pub open spec fn id_range(b: (int, int)) -> Seq<usize> {
    Seq::new((b.1 - b.0) as nat, |k: int| (b.0 + k) as usize)
}

pub open spec fn type_ids(b: (int, int)) -> Seq<TypeId> {
    id_range(b).map_values(|i: usize| TypeId(i))
}

pub open spec fn field_ids(b: (int, int)) -> Seq<FieldId> {
    id_range(b).map_values(|i: usize| FieldId(i))
}

pub open spec fn method_ids(b: (int, int)) -> Seq<MethodId> {
    id_range(b).map_values(|i: usize| MethodId(i))
}

pub open spec fn parameter_ids(b: (int, int)) -> Seq<ParameterId> {
    id_range(b).map_values(|i: usize| ParameterId(i))
}

pub open spec fn property_ids(b: (int, int)) -> Seq<PropertyId> {
    id_range(b).map_values(|i: usize| PropertyId(i))
}

pub open spec fn generic_parameter_ids(b: (int, int)) -> Seq<GenericParameterId> {
    id_range(b).map_values(|i: usize| GenericParameterId(i))
}

pub fn type_id_range(begin: usize, end: usize) -> (r: Vec<TypeId>)
    requires
        begin <= end,
    ensures
        r@ == type_ids((begin as int, end as int)),
{
    let mut r: Vec<TypeId> = Vec::new();
    let mut i = begin;
    while i < end
        invariant
            begin <= i <= end,
            r@ == type_ids((begin as int, i as int)),
        decreases end - i,
    {
        r.push(TypeId(i));
        i = i + 1;
        assert(r@ =~= type_ids((begin as int, i as int)));
    }
    r
}

pub fn field_id_range(begin: usize, end: usize) -> (r: Vec<FieldId>)
    requires
        begin <= end,
    ensures
        r@ == field_ids((begin as int, end as int)),
{
    let mut r: Vec<FieldId> = Vec::new();
    let mut i = begin;
    while i < end
        invariant
            begin <= i <= end,
            r@ == field_ids((begin as int, i as int)),
        decreases end - i,
    {
        r.push(FieldId(i));
        i = i + 1;
        assert(r@ =~= field_ids((begin as int, i as int)));
    }
    r
}

pub fn method_id_range(begin: usize, end: usize) -> (r: Vec<MethodId>)
    requires
        begin <= end,
    ensures
        r@ == method_ids((begin as int, end as int)),
{
    let mut r: Vec<MethodId> = Vec::new();
    let mut i = begin;
    while i < end
        invariant
            begin <= i <= end,
            r@ == method_ids((begin as int, i as int)),
        decreases end - i,
    {
        r.push(MethodId(i));
        i = i + 1;
        assert(r@ =~= method_ids((begin as int, i as int)));
    }
    r
}

pub fn parameter_id_range(begin: usize, end: usize) -> (r: Vec<ParameterId>)
    requires
        begin <= end,
    ensures
        r@ == parameter_ids((begin as int, end as int)),
{
    let mut r: Vec<ParameterId> = Vec::new();
    let mut i = begin;
    while i < end
        invariant
            begin <= i <= end,
            r@ == parameter_ids((begin as int, i as int)),
        decreases end - i,
    {
        r.push(ParameterId(i));
        i = i + 1;
        assert(r@ =~= parameter_ids((begin as int, i as int)));
    }
    r
}

pub fn property_id_range(begin: usize, end: usize) -> (r: Vec<PropertyId>)
    requires
        begin <= end,
    ensures
        r@ == property_ids((begin as int, end as int)),
{
    let mut r: Vec<PropertyId> = Vec::new();
    let mut i = begin;
    while i < end
        invariant
            begin <= i <= end,
            r@ == property_ids((begin as int, i as int)),
        decreases end - i,
    {
        r.push(PropertyId(i));
        i = i + 1;
        assert(r@ =~= property_ids((begin as int, i as int)));
    }
    r
}

pub fn generic_parameter_id_range(begin: usize, end: usize) -> (r: Vec<GenericParameterId>)
    requires
        begin <= end,
    ensures
        r@ == generic_parameter_ids((begin as int, end as int)),
{
    let mut r: Vec<GenericParameterId> = Vec::new();
    let mut i = begin;
    while i < end
        invariant
            begin <= i <= end,
            r@ == generic_parameter_ids((begin as int, i as int)),
        decreases end - i,
    {
        r.push(GenericParameterId(i));
        i = i + 1;
        assert(r@ =~= generic_parameter_ids((begin as int, i as int)));
    }
    r
}

/// Entries `b` of a type-index table are non-negative and, when `bound` is given, below it.
pub open spec fn entries_ok(entries: Seq<RawTypeIndexEntry>, b: (int, int), bound: Option<int>) -> bool {
    forall|k: int|
        b.0 <= k < b.1 ==> 0 <= (#[trigger] entries[k]).type_index && (bound matches Some(n) ==> entries[k].type_index < n)
}

/// The type indexes stored in entries `b`.
pub open spec fn entry_type_indexes(entries: Seq<RawTypeIndexEntry>, b: (int, int)) -> Seq<TypeIndex> {
    Seq::new((b.1 - b.0) as nat, |k: int| TypeIndex(entries[b.0 + k].type_index as usize))
}

/// The type ids stored in entries `b`.
pub open spec fn entry_type_ids(entries: Seq<RawTypeIndexEntry>, b: (int, int)) -> Seq<TypeId> {
    Seq::new((b.1 - b.0) as nat, |k: int| TypeId(entries[b.0 + k].type_index as usize))
}

/// Reads the type indexes of entries `begin..end`, each non-negative and below `bound` if given.
pub fn entry_indexes(
    entries: &Vec<RawTypeIndexEntry>,
    begin: usize,
    end: usize,
    bound: Option<usize>,
    name: &'static str,
) -> (r: Result<Vec<TypeIndex>>)
    requires
        begin <= end <= entries@.len(),
    ensures
        r is Ok <==> entries_ok(
            entries@,
            (begin as int, end as int),
            match bound {
                Some(n) => Some(n as int),
                None => None,
            },
        ),
        r matches Ok(v) ==> v@ == entry_type_indexes(entries@, (begin as int, end as int)),
        r matches Err(e) ==> e == Error::InvalidMetadataTable(name),
{
    let ghost gb = match bound {
        Some(n) => Some(n as int),
        None => None::<int>,
    };
    let mut r: Vec<TypeIndex> = Vec::new();
    let mut k = begin;
    while k < end
        invariant
            begin <= k <= end <= entries@.len(),
            gb == match bound {
                Some(n) => Some(n as int),
                None => None::<int>,
            },
            entries_ok(entries@, (begin as int, k as int), gb),
            r@ == entry_type_indexes(entries@, (begin as int, k as int)),
        decreases end - k,
    {
        let value = entries[k].type_index;
        if value < 0 {
            assert(!entries_ok(entries@, (begin as int, end as int), gb));
            return Err(Error::InvalidMetadataTable(name));
        }
        match bound {
            Some(n) => if value as usize >= n {
                assert(!entries_ok(entries@, (begin as int, end as int), gb));
                return Err(Error::InvalidMetadataTable(name));
            },
            None => {},
        }
        r.push(TypeIndex(value as usize));
        k = k + 1;
        assert(r@ =~= entry_type_indexes(entries@, (begin as int, k as int)));
    }
    Ok(r)
}


// ---------------------------------------------------------------- errors

/// The first error of a sequence of per-record outcomes.
pub open spec fn first_error(s: Seq<Option<Error>>) -> Option<Error>
    decreases s.len(),
{
    if s.len() == 0 {
        None
    } else if s[0] is Some {
        s[0]
    } else {
        first_error(s.drop_first())
    }
}

/// The first error is that of the first record that has one.
pub proof fn lemma_first_error_at(s: Seq<Option<Error>>, i: int)
    requires
        0 <= i < s.len(),
        forall|j: int| 0 <= j < i ==> (#[trigger] s[j]) is None,
        s[i] is Some,
    ensures
        first_error(s) == s[i],
    decreases i,
{
    if i > 0 {
        let rest = s.drop_first();
        assert forall|j: int| 0 <= j < i - 1 implies (#[trigger] rest[j]) is None by {
            assert(rest[j] == s[j + 1]);
        }
        assert(rest[i - 1] == s[i]);
        lemma_first_error_at(rest, i - 1);
    }
}

/// Without a failing record there is no first error.
pub proof fn lemma_first_error_none(s: Seq<Option<Error>>)
    requires
        forall|j: int| 0 <= j < s.len() ==> (#[trigger] s[j]) is None,
    ensures
        first_error(s) is None,
    decreases s.len(),
{
    if s.len() > 0 {
        let rest = s.drop_first();
        assert forall|j: int| 0 <= j < rest.len() implies (#[trigger] rest[j]) is None by {
            assert(rest[j] == s[j + 1]);
        }
        lemma_first_error_none(rest);
    }
}

/// The error reading the identifier at `index` gives, if any.
pub open spec fn name_error(data: Seq<u8>, header: MetadataHeader, index: u32) -> Option<Error> {
    if name_ok(data, header, index) {
        None
    } else if index >= header.strings.byte_count || header.strings.fits(data.len() as int) {
        Some(Error::InvalidMetadataString(index))
    } else {
        Some(Error::InvalidMetadata)
    }
}

/// The error a range check named `name` gives, if any.
pub open spec fn range_error(start: i32, count: int, total: int, name: &'static str) -> Option<Error> {
    if spec_range(start, count, total) is Some {
        None
    } else {
        Some(Error::InvalidMetadataTable(name))
    }
}

/// The error an index check named `name` gives, if any.
pub open spec fn index_error(index: i32, total: int, name: &'static str) -> Option<Error> {
    if 0 <= index < total {
        None
    } else {
        Some(Error::InvalidMetadataTable(name))
    }
}

/// The error a required type index named `name` gives, if any.
pub open spec fn required_error(index: i32, name: &'static str) -> Option<Error> {
    if index >= 0 {
        None
    } else {
        Some(Error::InvalidMetadataTable(name))
    }
}

/// The error an optional index gives, if any.
pub open spec fn optional_error(index: i32) -> Option<Error> {
    if spec_optional_index(index) is Some {
        None
    } else {
        Some(Error::InvalidMetadata)
    }
}

/// The error an optional index into a table of `total` items gives, if any.
pub open spec fn optional_checked_error(index: i32, total: int, name: &'static str) -> Option<Error> {
    if index < -1 {
        Some(Error::InvalidMetadata)
    } else if index >= 0 && index >= total {
        Some(Error::InvalidMetadataTable(name))
    } else {
        None
    }
}

/// The error a check of type-index entries named `name` gives, if any.
pub open spec fn entries_error(entries: Seq<RawTypeIndexEntry>, b: (int, int), bound: Option<int>, name: &'static str) -> Option<Error> {
    if entries_ok(entries, b, bound) {
        None
    } else {
        Some(Error::InvalidMetadataTable(name))
    }
}

/// `a` when it is an error, otherwise `b`.
pub open spec fn or_else(a: Option<Error>, b: Option<Error>) -> Option<Error> {
    if a is Some {
        a
    } else {
        b
    }
}

// ---------------------------------------------------------------- assemblies

pub open spec fn assembly_valid(
    data: Seq<u8>,
    header: MetadataHeader,
    images: Seq<RawImage>,
    index: int,
    a: RawAssembly,
) -> bool {
    &&& 0 <= a.image_index < images.len()
    &&& images[a.image_index as int].assembly_index == index
    &&& name_ok(data, header, a.name_index)
}

pub open spec fn assembly_matches(
    data: Seq<u8>,
    header: MetadataHeader,
    index: int,
    a: RawAssembly,
    m: Assembly,
) -> bool {
    &&& m.id == AssemblyId(index as usize)
    &&& m.image == ImageId(a.image_index as usize)
    &&& m.name@ == name_of(data, header, a.name_index)
}

/// The error assembly record `index` gives, if any, in the order the checks run.
pub open spec fn assembly_error(data: Seq<u8>, header: MetadataHeader, images: Seq<RawImage>, index: int, a: RawAssembly) -> Option<Error> {
    if !(0 <= a.image_index < images.len()) {
        Some(Error::InvalidMetadataTable("assembly image"))
    } else if images[a.image_index as int].assembly_index < 0 || images[a.image_index as int].assembly_index != index {
        Some(Error::InvalidMetadataTable("assembly/image relationship"))
    } else {
        name_error(data, header, a.name_index)
    }
}

/// The outcome of each assembly record, in table order.
pub open spec fn assembly_errors(data: Seq<u8>, header: MetadataHeader, assemblies: Seq<RawAssembly>, images: Seq<RawImage>) -> Seq<Option<Error>> {
    Seq::new(assemblies.len(), |i: int| assembly_error(data, header, images, i, assemblies[i]))
}

pub fn build_assemblies(
    data: &[u8],
    header: &MetadataHeader,
    assemblies: &Vec<RawAssembly>,
    images: &Vec<RawImage>,
) -> (r: Result<Vec<Assembly>>)
    ensures
        r is Ok <==> forall|i: int|
            0 <= i < assemblies@.len() ==> assembly_valid(data@, *header, images@, i, #[trigger] assemblies@[i]),
        r matches Ok(v) ==> v@.len() == assemblies@.len() && forall|i: int|
            0 <= i < assemblies@.len() ==> assembly_matches(data@, *header, i, assemblies@[i], #[trigger] v@[i]),
        r matches Err(e) ==> first_error(assembly_errors(data@, *header, assemblies@, images@)) == Some(e),
        r is Ok ==> first_error(assembly_errors(data@, *header, assemblies@, images@)) is None,
{
    let ghost errs = assembly_errors(data@, *header, assemblies@, images@);
    let mut out: Vec<Assembly> = Vec::new();
    let mut i: usize = 0;
    while i < assemblies.len()
        invariant
            i <= assemblies@.len(),
            out@.len() == i,
            forall|j: int| 0 <= j < i ==> assembly_valid(data@, *header, images@, j, #[trigger] assemblies@[j]),
            forall|j: int| 0 <= j < i ==> assembly_matches(data@, *header, j, assemblies@[j], #[trigger] out@[j]),
            errs == assembly_errors(data@, *header, assemblies@, images@),
            forall|j: int| 0 <= j < i ==> (#[trigger] errs[j]) is None,
        decreases assemblies@.len() - i,
    {
        let a = assemblies[i];
        let image = match checked_index(a.image_index, images.len(), "assembly image") {
            Ok(image) => image,
            Err(e) => {
                assert(!assembly_valid(data@, *header, images@, i as int, assemblies@[i as int]));
                assert(errs[i as int] == Some(e));
                proof { lemma_first_error_at(errs, i as int); }
                return Err(e);
            },
        };
        if images[image].assembly_index < 0 || images[image].assembly_index as usize != i {
            assert(!assembly_valid(data@, *header, images@, i as int, assemblies@[i as int]));
            assert(errs[i as int] == Some(Error::InvalidMetadataTable("assembly/image relationship")));
            proof { lemma_first_error_at(errs, i as int); }
            return Err(Error::InvalidMetadataTable("assembly/image relationship"));
        }
        let name = match string_at(data, header, a.name_index) {
            Ok(name) => name,
            Err(e) => {
                assert(!assembly_valid(data@, *header, images@, i as int, assemblies@[i as int]));
                assert(errs[i as int] == Some(e));
                proof { lemma_first_error_at(errs, i as int); }
                return Err(e);
            },
        };
        out.push(Assembly { id: AssemblyId(i), name, image: ImageId(image) });
        assert(errs[i as int] is None);
        i = i + 1;
    }
    proof { lemma_first_error_none(errs); }
    Ok(out)
}

// ---------------------------------------------------------------- images

pub open spec fn image_valid(
    data: Seq<u8>,
    header: MetadataHeader,
    raw: RawTables,
    img: RawImage,
) -> bool {
    &&& 0 <= img.assembly_index < raw.assemblies.len()
    &&& spec_range(img.type_start, img.type_count as int, raw.types.len() as int) is Some
    &&& name_ok(data, header, img.name_index)
}

pub open spec fn image_matches(
    data: Seq<u8>,
    header: MetadataHeader,
    raw: RawTables,
    index: int,
    img: RawImage,
    m: Image,
) -> bool {
    &&& m.id == ImageId(index as usize)
    &&& m.assembly == AssemblyId(img.assembly_index as usize)
    &&& m.name@ == name_of(data, header, img.name_index)
    &&& m.types@ == type_ids(bounds(img.type_start, img.type_count as int, raw.types.len() as int))
}

/// The error image record `img` gives, if any, in the order the checks run.
pub open spec fn image_error(data: Seq<u8>, header: MetadataHeader, raw: RawTables, img: RawImage) -> Option<Error> {
    or_else(
        index_error(img.assembly_index, raw.assemblies.len() as int, "image assembly"),
        or_else(
            range_error(img.type_start, img.type_count as int, raw.types.len() as int, "image types"),
            name_error(data, header, img.name_index),
        ),
    )
}

pub open spec fn image_errors(data: Seq<u8>, header: MetadataHeader, raw: RawTables) -> Seq<Option<Error>> {
    Seq::new(raw.images.len(), |i: int| image_error(data, header, raw, raw.images[i]))
}

pub fn build_images(data: &[u8], header: &MetadataHeader, raw: &RawRecords) -> (r: Result<
    Vec<Image>,
>)
    ensures
        r is Ok <==> forall|i: int|
            0 <= i < raw.images@.len() ==> image_valid(data@, *header, raw@, #[trigger] raw.images@[i]),
        r matches Ok(v) ==> v@.len() == raw.images@.len() && forall|i: int|
            0 <= i < raw.images@.len() ==> image_matches(data@, *header, raw@, i, raw.images@[i], #[trigger] v@[i]),
        r matches Err(e) ==> first_error(image_errors(data@, *header, raw@)) == Some(e),
        r is Ok ==> first_error(image_errors(data@, *header, raw@)) is None,
{
    let ghost errs = image_errors(data@, *header, raw@);
    let mut out: Vec<Image> = Vec::new();
    let mut i: usize = 0;
    while i < raw.images.len()
        invariant
            i <= raw.images@.len(),
            out@.len() == i,
            forall|j: int| 0 <= j < i ==> image_valid(data@, *header, raw@, #[trigger] raw.images@[j]),
            forall|j: int| 0 <= j < i ==> image_matches(data@, *header, raw@, j, raw.images@[j], #[trigger] out@[j]),
            errs == image_errors(data@, *header, raw@),
            forall|j: int| 0 <= j < i ==> (#[trigger] errs[j]) is None,
        decreases raw.images@.len() - i,
    {
        let img = raw.images[i];
        let assembly = match checked_index(img.assembly_index, raw.assemblies.len(), "image assembly") {
            Ok(a) => a,
            Err(e) => {
                assert(!image_valid(data@, *header, raw@, raw.images@[i as int]));
                assert(errs[i as int] == Some(e));
                proof { lemma_first_error_at(errs, i as int); }
                return Err(e);
            },
        };
        let (begin, end) = match checked_range(img.type_start, img.type_count as usize, raw.types.len(), "image types") {
            Ok(b) => b,
            Err(e) => {
                assert(!image_valid(data@, *header, raw@, raw.images@[i as int]));
                assert(errs[i as int] == Some(e));
                proof { lemma_first_error_at(errs, i as int); }
                return Err(e);
            },
        };
        let name = match string_at(data, header, img.name_index) {
            Ok(name) => name,
            Err(e) => {
                assert(!image_valid(data@, *header, raw@, raw.images@[i as int]));
                assert(errs[i as int] == Some(e));
                proof { lemma_first_error_at(errs, i as int); }
                return Err(e);
            },
        };
        out.push(Image { id: ImageId(i), assembly: AssemblyId(assembly), name, types: type_id_range(begin, end) });
        assert(errs[i as int] is None);
        i = i + 1;
    }
    proof { lemma_first_error_none(errs); }
    Ok(out)
}

// ---------------------------------------------------------------- type definitions

pub open spec fn type_valid(data: Seq<u8>, header: MetadataHeader, raw: RawTables, t: RawTypeDefinition) -> bool {
    &&& name_ok(data, header, t.namespace_index)
    &&& name_ok(data, header, t.name_index)
    &&& t.byval_type_index >= 0
    &&& spec_optional_type_index(t.declaring_type_index) is Some
    &&& spec_optional_type_index(t.parent_index) is Some
    &&& spec_optional_type_index(t.element_type_index) is Some
    &&& spec_optional_checked_index(t.generic_container_index, raw.generic_containers.len() as int) is Some
    &&& spec_range(t.field_start, t.field_count as int, raw.fields.len() as int) is Some
    &&& spec_range(t.method_start, t.method_count as int, raw.methods.len() as int) is Some
    &&& spec_range(t.property_start, t.property_count as int, raw.properties.len() as int) is Some
    &&& spec_range(t.nested_types_start, t.nested_types_count as int, raw.nested_types.len() as int) is Some
    &&& entries_ok(
        raw.nested_types,
        bounds(t.nested_types_start, t.nested_types_count as int, raw.nested_types.len() as int),
        Some(raw.types.len() as int),
    )
    &&& spec_range(t.interfaces_start, t.interfaces_count as int, raw.interfaces.len() as int) is Some
    &&& entries_ok(
        raw.interfaces,
        bounds(t.interfaces_start, t.interfaces_count as int, raw.interfaces.len() as int),
        None,
    )
}

pub open spec fn type_matches(
    data: Seq<u8>,
    header: MetadataHeader,
    raw: RawTables,
    index: int,
    owner: usize,
    t: RawTypeDefinition,
    m: TypeDefinition,
) -> bool {
    &&& m.id == TypeId(index as usize)
    &&& m.image == ImageId(owner)
    &&& m.namespace@ == name_of(data, header, t.namespace_index)
    &&& m.name@ == name_of(data, header, t.name_index)
    &&& m.byval_type == TypeIndex(t.byval_type_index as usize)
    &&& m.declaring_type == spec_optional_type_index(t.declaring_type_index).unwrap()
    &&& m.parent == spec_optional_type_index(t.parent_index).unwrap()
    &&& m.element_type == spec_optional_type_index(t.element_type_index).unwrap()
    &&& m.generic_container_index == spec_optional_checked_index(
        t.generic_container_index,
        raw.generic_containers.len() as int,
    ).unwrap()
    &&& m.flags == t.flags
    &&& m.bitfield == t.bitfield
    &&& m.token == t.token
    &&& m.fields@ == field_ids(bounds(t.field_start, t.field_count as int, raw.fields.len() as int))
    &&& m.methods@ == method_ids(bounds(t.method_start, t.method_count as int, raw.methods.len() as int))
    &&& m.properties@ == property_ids(
        bounds(t.property_start, t.property_count as int, raw.properties.len() as int),
    )
    &&& m.nested_types@ == entry_type_ids(
        raw.nested_types,
        bounds(t.nested_types_start, t.nested_types_count as int, raw.nested_types.len() as int),
    )
    &&& m.interfaces@ == entry_type_indexes(
        raw.interfaces,
        bounds(t.interfaces_start, t.interfaces_count as int, raw.interfaces.len() as int),
    )
}

fn type_ids_of(indexes: &Vec<TypeIndex>) -> (r: Vec<TypeId>)
    ensures
        r@.len() == indexes@.len(),
        forall|k: int| 0 <= k < indexes@.len() ==> #[trigger] r@[k] == TypeId(indexes@[k].0),
{
    let mut r: Vec<TypeId> = Vec::new();
    let mut k: usize = 0;
    while k < indexes.len()
        invariant
            k <= indexes@.len(),
            r@.len() == k,
            forall|j: int| 0 <= j < k ==> #[trigger] r@[j] == TypeId(indexes@[j].0),
        decreases indexes@.len() - k,
    {
        r.push(TypeId(indexes[k].0));
        k = k + 1;
    }
    r
}

/// The error type definition `t` gives, if any, in the order the checks run.
pub open spec fn type_error(data: Seq<u8>, header: MetadataHeader, raw: RawTables, t: RawTypeDefinition) -> Option<Error> {
    or_else(range_error(t.field_start, t.field_count as int, raw.fields.len() as int, "type fields"),
    or_else(range_error(t.method_start, t.method_count as int, raw.methods.len() as int, "type methods"),
    or_else(range_error(t.property_start, t.property_count as int, raw.properties.len() as int, "type properties"),
    or_else(range_error(t.nested_types_start, t.nested_types_count as int, raw.nested_types.len() as int, "nested types"),
    or_else(entries_error(
        raw.nested_types,
        bounds(t.nested_types_start, t.nested_types_count as int, raw.nested_types.len() as int),
        Some(raw.types.len() as int),
        "nested types",
    ),
    or_else(range_error(t.interfaces_start, t.interfaces_count as int, raw.interfaces.len() as int, "type interfaces"),
    or_else(entries_error(
        raw.interfaces,
        bounds(t.interfaces_start, t.interfaces_count as int, raw.interfaces.len() as int),
        None,
        "type interfaces",
    ),
    or_else(name_error(data, header, t.namespace_index),
    or_else(name_error(data, header, t.name_index),
    or_else(required_error(t.byval_type_index, "type byval type"),
    or_else(optional_error(t.declaring_type_index),
    or_else(optional_error(t.parent_index),
    or_else(optional_error(t.element_type_index),
    optional_checked_error(t.generic_container_index, raw.generic_containers.len() as int, "type generic container"),
    )))))))))))))
}

pub open spec fn type_errors(data: Seq<u8>, header: MetadataHeader, raw: RawTables) -> Seq<Option<Error>> {
    Seq::new(raw.types.len(), |i: int| type_error(data, header, raw, raw.types[i]))
}

fn build_type(
    data: &[u8],
    header: &MetadataHeader,
    raw: &RawRecords,
    index: usize,
    owner: usize,
    t: RawTypeDefinition,
) -> (r: Result<TypeDefinition>)
    ensures
        r is Ok <==> type_valid(data@, *header, raw@, t),
        r matches Ok(m) ==> type_matches(data@, *header, raw@, index as int, owner, t, m),
        r matches Err(e) ==> type_error(data@, *header, raw@, t) == Some(e),
        r is Ok ==> type_error(data@, *header, raw@, t) is None,
{
    let (field_begin, field_end) = checked_range(t.field_start, t.field_count as usize, raw.fields.len(), "type fields")?;
    let (method_begin, method_end) = checked_range(t.method_start, t.method_count as usize, raw.methods.len(), "type methods")?;
    let (property_begin, property_end) = checked_range(t.property_start, t.property_count as usize, raw.properties.len(), "type properties")?;
    let (nested_begin, nested_end) = checked_range(t.nested_types_start, t.nested_types_count as usize, raw.nested_types.len(), "nested types")?;
    let nested = entry_indexes(&raw.nested_types, nested_begin, nested_end, Some(raw.types.len()), "nested types")?;
    let nested_ids = type_ids_of(&nested);
    assert(nested_ids@ =~= entry_type_ids(raw.nested_types@, (nested_begin as int, nested_end as int)));
    let (interface_begin, interface_end) = checked_range(t.interfaces_start, t.interfaces_count as usize, raw.interfaces.len(), "type interfaces")?;
    let interfaces = entry_indexes(&raw.interfaces, interface_begin, interface_end, None, "type interfaces")?;
    let namespace = string_at(data, header, t.namespace_index)?;
    let name = string_at(data, header, t.name_index)?;
    let byval_type = required_type_index(t.byval_type_index, "type byval type")?;
    let declaring_type = optional_type_index(t.declaring_type_index)?;
    let parent = optional_type_index(t.parent_index)?;
    let element_type = optional_type_index(t.element_type_index)?;
    let generic_container_index = optional_checked_index(
        t.generic_container_index,
        raw.generic_containers.len(),
        "type generic container",
    )?;
    Ok(TypeDefinition {
        id: TypeId(index),
        image: ImageId(owner),
        namespace,
        name,
        byval_type,
        declaring_type,
        parent,
        element_type,
        generic_container_index,
        flags: t.flags,
        bitfield: t.bitfield,
        token: t.token,
        methods: method_id_range(method_begin, method_end),
        fields: field_id_range(field_begin, field_end),
        properties: property_id_range(property_begin, property_end),
        nested_types: nested_ids,
        interfaces,
    })
}

pub fn build_types(
    data: &[u8],
    header: &MetadataHeader,
    raw: &RawRecords,
    owners: &Vec<usize>,
) -> (r: Result<Vec<TypeDefinition>>)
    requires
        owners@.len() == raw.types@.len(),
    ensures
        r is Ok <==> forall|i: int|
            0 <= i < raw.types@.len() ==> type_valid(data@, *header, raw@, #[trigger] raw.types@[i]),
        r matches Ok(v) ==> v@.len() == raw.types@.len() && forall|i: int|
            0 <= i < raw.types@.len() ==> type_matches(data@, *header, raw@, i, owners@[i], raw.types@[i], #[trigger] v@[i]),
        r matches Err(e) ==> first_error(type_errors(data@, *header, raw@)) == Some(e),
        r is Ok ==> first_error(type_errors(data@, *header, raw@)) is None,
{
    let ghost errs = type_errors(data@, *header, raw@);
    let mut out: Vec<TypeDefinition> = Vec::new();
    let mut i: usize = 0;
    while i < raw.types.len()
        invariant
            owners@.len() == raw.types@.len(),
            i <= raw.types@.len(),
            out@.len() == i,
            forall|j: int| 0 <= j < i ==> type_valid(data@, *header, raw@, #[trigger] raw.types@[j]),
            forall|j: int| 0 <= j < i ==> type_matches(data@, *header, raw@, j, owners@[j], raw.types@[j], #[trigger] out@[j]),
            errs == type_errors(data@, *header, raw@),
            forall|j: int| 0 <= j < i ==> (#[trigger] errs[j]) is None,
        decreases raw.types@.len() - i,
    {
        let t = match build_type(data, header, raw, i, owners[i], raw.types[i]) {
            Ok(t) => t,
            Err(e) => {
                proof { lemma_first_error_at(errs, i as int); }
                return Err(e);
            },
        };
        out.push(t);
        i = i + 1;
    }
    proof { lemma_first_error_none(errs); }
    Ok(out)
}

// ---------------------------------------------------------------- fields and parameters

pub open spec fn field_valid(data: Seq<u8>, header: MetadataHeader, f: RawField) -> bool {
    &&& name_ok(data, header, f.name_index)
    &&& f.type_index >= 0
}

pub open spec fn field_matches(
    data: Seq<u8>,
    header: MetadataHeader,
    index: int,
    owner: usize,
    f: RawField,
    m: Field,
) -> bool {
    &&& m.id == FieldId(index as usize)
    &&& m.declaring_type == TypeId(owner)
    &&& m.name@ == name_of(data, header, f.name_index)
    &&& m.field_type == TypeIndex(f.type_index as usize)
    &&& m.token == f.token
    &&& m.offset is None
}

/// The error field record `f` gives, if any, in the order the checks run.
pub open spec fn field_error(data: Seq<u8>, header: MetadataHeader, f: RawField) -> Option<Error> {
    or_else(name_error(data, header, f.name_index), required_error(f.type_index, "field type"))
}

pub open spec fn field_errors(data: Seq<u8>, header: MetadataHeader, raw: RawTables) -> Seq<Option<Error>> {
    Seq::new(raw.fields.len(), |i: int| field_error(data, header, raw.fields[i]))
}

pub fn build_fields(
    data: &[u8],
    header: &MetadataHeader,
    raw: &RawRecords,
    owners: &Vec<usize>,
) -> (r: Result<Vec<Field>>)
    requires
        owners@.len() == raw.fields@.len(),
    ensures
        r is Ok <==> forall|i: int|
            0 <= i < raw.fields@.len() ==> field_valid(data@, *header, #[trigger] raw.fields@[i]),
        r matches Ok(v) ==> v@.len() == raw.fields@.len() && forall|i: int|
            0 <= i < raw.fields@.len() ==> field_matches(data@, *header, i, owners@[i], raw.fields@[i], #[trigger] v@[i]),
        r matches Err(e) ==> first_error(field_errors(data@, *header, raw@)) == Some(e),
        r is Ok ==> first_error(field_errors(data@, *header, raw@)) is None,
{
    let ghost errs = field_errors(data@, *header, raw@);
    let mut out: Vec<Field> = Vec::new();
    let mut i: usize = 0;
    while i < raw.fields.len()
        invariant
            owners@.len() == raw.fields@.len(),
            i <= raw.fields@.len(),
            out@.len() == i,
            forall|j: int| 0 <= j < i ==> field_valid(data@, *header, #[trigger] raw.fields@[j]),
            forall|j: int| 0 <= j < i ==> field_matches(data@, *header, j, owners@[j], raw.fields@[j], #[trigger] out@[j]),
            errs == field_errors(data@, *header, raw@),
            forall|j: int| 0 <= j < i ==> (#[trigger] errs[j]) is None,
        decreases raw.fields@.len() - i,
    {
        let f = raw.fields[i];
        let name = match string_at(data, header, f.name_index) {
            Ok(name) => name,
            Err(e) => {
                assert(!field_valid(data@, *header, raw.fields@[i as int]));
                assert(errs[i as int] == Some(e));
                proof { lemma_first_error_at(errs, i as int); }
                return Err(e);
            },
        };
        let field_type = match required_type_index(f.type_index, "field type") {
            Ok(t) => t,
            Err(e) => {
                assert(!field_valid(data@, *header, raw.fields@[i as int]));
                assert(errs[i as int] == Some(e));
                proof { lemma_first_error_at(errs, i as int); }
                return Err(e);
            },
        };
        out.push(Field { id: FieldId(i), declaring_type: TypeId(owners[i]), name, field_type, token: f.token, offset: None });
        assert(errs[i as int] is None);
        i = i + 1;
    }
    proof { lemma_first_error_none(errs); }
    Ok(out)
}

pub open spec fn parameter_valid(data: Seq<u8>, header: MetadataHeader, p: RawParameter) -> bool {
    &&& name_ok(data, header, p.name_index)
    &&& p.type_index >= 0
}

pub open spec fn parameter_matches(
    data: Seq<u8>,
    header: MetadataHeader,
    index: int,
    owner: usize,
    p: RawParameter,
    m: Parameter,
) -> bool {
    &&& m.id == ParameterId(index as usize)
    &&& m.declaring_method == MethodId(owner)
    &&& m.name@ == name_of(data, header, p.name_index)
    &&& m.parameter_type == TypeIndex(p.type_index as usize)
    &&& m.token == p.token
}

/// The error parameter record `p` gives, if any, in the order the checks run.
pub open spec fn parameter_error(data: Seq<u8>, header: MetadataHeader, p: RawParameter) -> Option<Error> {
    or_else(name_error(data, header, p.name_index), required_error(p.type_index, "parameter type"))
}

pub open spec fn parameter_errors(data: Seq<u8>, header: MetadataHeader, raw: RawTables) -> Seq<Option<Error>> {
    Seq::new(raw.parameters.len(), |i: int| parameter_error(data, header, raw.parameters[i]))
}

pub fn build_parameters(
    data: &[u8],
    header: &MetadataHeader,
    raw: &RawRecords,
    owners: &Vec<usize>,
) -> (r: Result<Vec<Parameter>>)
    requires
        owners@.len() == raw.parameters@.len(),
    ensures
        r is Ok <==> forall|i: int|
            0 <= i < raw.parameters@.len() ==> parameter_valid(data@, *header, #[trigger] raw.parameters@[i]),
        r matches Ok(v) ==> v@.len() == raw.parameters@.len() && forall|i: int|
            0 <= i < raw.parameters@.len() ==> parameter_matches(data@, *header, i, owners@[i], raw.parameters@[i], #[trigger] v@[i]),
        r matches Err(e) ==> first_error(parameter_errors(data@, *header, raw@)) == Some(e),
        r is Ok ==> first_error(parameter_errors(data@, *header, raw@)) is None,
{
    let ghost errs = parameter_errors(data@, *header, raw@);
    let mut out: Vec<Parameter> = Vec::new();
    let mut i: usize = 0;
    while i < raw.parameters.len()
        invariant
            owners@.len() == raw.parameters@.len(),
            i <= raw.parameters@.len(),
            out@.len() == i,
            forall|j: int| 0 <= j < i ==> parameter_valid(data@, *header, #[trigger] raw.parameters@[j]),
            forall|j: int| 0 <= j < i ==> parameter_matches(data@, *header, j, owners@[j], raw.parameters@[j], #[trigger] out@[j]),
            errs == parameter_errors(data@, *header, raw@),
            forall|j: int| 0 <= j < i ==> (#[trigger] errs[j]) is None,
        decreases raw.parameters@.len() - i,
    {
        let p = raw.parameters[i];
        let name = match string_at(data, header, p.name_index) {
            Ok(name) => name,
            Err(e) => {
                assert(!parameter_valid(data@, *header, raw.parameters@[i as int]));
                assert(errs[i as int] == Some(e));
                proof { lemma_first_error_at(errs, i as int); }
                return Err(e);
            },
        };
        let parameter_type = match required_type_index(p.type_index, "parameter type") {
            Ok(t) => t,
            Err(e) => {
                assert(!parameter_valid(data@, *header, raw.parameters@[i as int]));
                assert(errs[i as int] == Some(e));
                proof { lemma_first_error_at(errs, i as int); }
                return Err(e);
            },
        };
        out.push(Parameter { id: ParameterId(i), declaring_method: MethodId(owners[i]), name, parameter_type, token: p.token });
        assert(errs[i as int] is None);
        i = i + 1;
    }
    proof { lemma_first_error_none(errs); }
    Ok(out)
}

// ---------------------------------------------------------------- methods

pub open spec fn method_valid(
    data: Seq<u8>,
    header: MetadataHeader,
    raw: RawTables,
    owner: usize,
    m: RawMethod,
) -> bool {
    &&& 0 <= m.declaring_type < raw.types.len()
    &&& owner == m.declaring_type
    &&& spec_range(m.parameter_start, m.parameter_count as int, raw.parameters.len() as int) is Some
    &&& name_ok(data, header, m.name_index)
    &&& m.return_type >= 0
    &&& spec_optional_checked_index(m.generic_container_index, raw.generic_containers.len() as int) is Some
}

pub open spec fn method_matches(
    data: Seq<u8>,
    header: MetadataHeader,
    raw: RawTables,
    index: int,
    m: RawMethod,
    out: Method,
) -> bool {
    &&& out.id == MethodId(index as usize)
    &&& out.declaring_type == TypeId(m.declaring_type as usize)
    &&& out.name@ == name_of(data, header, m.name_index)
    &&& out.return_type == TypeIndex(m.return_type as usize)
    &&& out.return_parameter_token == m.return_parameter_token
    &&& out.parameters@ == parameter_ids(
        bounds(m.parameter_start, m.parameter_count as int, raw.parameters.len() as int),
    )
    &&& out.generic_container_index == spec_optional_checked_index(
        m.generic_container_index,
        raw.generic_containers.len() as int,
    ).unwrap()
    &&& out.token == m.token
    &&& out.flags == m.flags
    &&& out.implementation_flags == m.iflags
    &&& out.slot == m.slot
    &&& out.relative_address is None
    &&& out.virtual_address is None
}

/// The error method record `m`, listed under type `owner`, gives, if any, in the order the
/// checks run.
pub open spec fn method_error(data: Seq<u8>, header: MetadataHeader, raw: RawTables, owner: usize, m: RawMethod) -> Option<Error> {
    or_else(index_error(m.declaring_type, raw.types.len() as int, "method declaring type"),
    or_else(if owner as int != m.declaring_type as int {
        Some(Error::InvalidMetadataTable("method/type relationship"))
    } else {
        None
    },
    or_else(range_error(m.parameter_start, m.parameter_count as int, raw.parameters.len() as int, "method parameters"),
    or_else(name_error(data, header, m.name_index),
    or_else(required_error(m.return_type, "method return type"),
    optional_checked_error(m.generic_container_index, raw.generic_containers.len() as int, "method generic container"),
    )))))
}

pub open spec fn method_errors(data: Seq<u8>, header: MetadataHeader, raw: RawTables, owners: Seq<usize>) -> Seq<Option<Error>> {
    Seq::new(raw.methods.len(), |i: int| method_error(data, header, raw, owners[i], raw.methods[i]))
}

fn build_method(
    data: &[u8],
    header: &MetadataHeader,
    raw: &RawRecords,
    index: usize,
    owner: usize,
    m: RawMethod,
) -> (r: Result<Method>)
    ensures
        r is Ok <==> method_valid(data@, *header, raw@, owner, m),
        r matches Ok(out) ==> method_matches(data@, *header, raw@, index as int, m, out),
        r matches Err(e) ==> method_error(data@, *header, raw@, owner, m) == Some(e),
        r is Ok ==> method_error(data@, *header, raw@, owner, m) is None,
{
    let declaring_type = checked_index(m.declaring_type, raw.types.len(), "method declaring type")?;
    if owner != declaring_type {
        return Err(Error::InvalidMetadataTable("method/type relationship"));
    }
    let (begin, end) = checked_range(m.parameter_start, m.parameter_count as usize, raw.parameters.len(), "method parameters")?;
    let name = string_at(data, header, m.name_index)?;
    let return_type = required_type_index(m.return_type, "method return type")?;
    let generic_container_index = optional_checked_index(
        m.generic_container_index,
        raw.generic_containers.len(),
        "method generic container",
    )?;
    Ok(Method {
        id: MethodId(index),
        declaring_type: TypeId(declaring_type),
        name,
        return_type,
        return_parameter_token: m.return_parameter_token,
        parameters: parameter_id_range(begin, end),
        generic_container_index,
        token: m.token,
        flags: m.flags,
        implementation_flags: m.iflags,
        slot: m.slot,
        relative_address: None,
        virtual_address: None,
    })
}

pub fn build_methods(
    data: &[u8],
    header: &MetadataHeader,
    raw: &RawRecords,
    owners: &Vec<usize>,
) -> (r: Result<Vec<Method>>)
    requires
        owners@.len() == raw.methods@.len(),
    ensures
        r is Ok <==> forall|i: int|
            0 <= i < raw.methods@.len() ==> method_valid(data@, *header, raw@, owners@[i], #[trigger] raw.methods@[i]),
        r matches Ok(v) ==> v@.len() == raw.methods@.len() && forall|i: int|
            0 <= i < raw.methods@.len() ==> method_matches(data@, *header, raw@, i, raw.methods@[i], #[trigger] v@[i]),
        r matches Err(e) ==> first_error(method_errors(data@, *header, raw@, owners@)) == Some(e),
        r is Ok ==> first_error(method_errors(data@, *header, raw@, owners@)) is None,
{
    let ghost errs = method_errors(data@, *header, raw@, owners@);
    let mut out: Vec<Method> = Vec::new();
    let mut i: usize = 0;
    while i < raw.methods.len()
        invariant
            owners@.len() == raw.methods@.len(),
            i <= raw.methods@.len(),
            out@.len() == i,
            forall|j: int| 0 <= j < i ==> method_valid(data@, *header, raw@, owners@[j], #[trigger] raw.methods@[j]),
            forall|j: int| 0 <= j < i ==> method_matches(data@, *header, raw@, j, raw.methods@[j], #[trigger] out@[j]),
            errs == method_errors(data@, *header, raw@, owners@),
            forall|j: int| 0 <= j < i ==> (#[trigger] errs[j]) is None,
        decreases raw.methods@.len() - i,
    {
        let m = match build_method(data, header, raw, i, owners[i], raw.methods[i]) {
            Ok(v) => v,
            Err(e) => {
                proof { lemma_first_error_at(errs, i as int); }
                return Err(e);
            },
        };
        out.push(m);
        i = i + 1;
    }
    proof { lemma_first_error_none(errs); }
    Ok(out)
}

// ---------------------------------------------------------------- properties

/// An accessor slot: -1 for none, otherwise an offset into the declaring type's methods.
pub open spec fn accessor_ok(value: i32, t: RawTypeDefinition) -> bool {
    value == -1 || (0 <= value < t.method_count)
}

/// The method an accessor slot names.
pub open spec fn accessor_of(value: i32, t: RawTypeDefinition) -> Option<MethodId> {
    if value == -1 {
        None
    } else {
        Some(MethodId((t.method_start + value) as usize))
    }
}

pub open spec fn property_valid(
    data: Seq<u8>,
    header: MetadataHeader,
    raw: RawTables,
    owner: usize,
    p: RawProperty,
) -> bool {
    &&& name_ok(data, header, p.name_index)
    &&& accessor_ok(p.get, raw.types[owner as int])
    &&& accessor_ok(p.set, raw.types[owner as int])
}

pub open spec fn property_matches(
    data: Seq<u8>,
    header: MetadataHeader,
    raw: RawTables,
    index: int,
    owner: usize,
    p: RawProperty,
    m: Property,
) -> bool {
    &&& m.id == PropertyId(index as usize)
    &&& m.declaring_type == TypeId(owner)
    &&& m.name@ == name_of(data, header, p.name_index)
    &&& m.getter == accessor_of(p.get, raw.types[owner as int])
    &&& m.setter == accessor_of(p.set, raw.types[owner as int])
    &&& m.attributes == p.attrs
    &&& m.token == p.token
}

/// The error an accessor slot gives, if any.
pub open spec fn accessor_error(value: i32, t: RawTypeDefinition) -> Option<Error> {
    if accessor_ok(value, t) {
        None
    } else {
        Some(Error::InvalidMetadataTable("property accessor"))
    }
}

/// The error property record `p`, listed under type `owner`, gives, if any, in the order the
/// checks run.
pub open spec fn property_error(data: Seq<u8>, header: MetadataHeader, raw: RawTables, owner: usize, p: RawProperty) -> Option<Error> {
    or_else(name_error(data, header, p.name_index),
    or_else(accessor_error(p.get, raw.types[owner as int]), accessor_error(p.set, raw.types[owner as int])))
}

pub open spec fn property_errors(data: Seq<u8>, header: MetadataHeader, raw: RawTables, owners: Seq<usize>) -> Seq<Option<Error>> {
    Seq::new(raw.properties.len(), |i: int| property_error(data, header, raw, owners[i], raw.properties[i]))
}

fn accessor(value: i32, t: RawTypeDefinition, method_total: usize) -> (r: Result<Option<MethodId>>)
    requires
        spec_range(t.method_start, t.method_count as int, method_total as int) is Some,
    ensures
        r is Ok <==> accessor_ok(value, t),
        r matches Ok(a) ==> a == accessor_of(value, t),
        r matches Err(e) ==> e == Error::InvalidMetadataTable("property accessor"),
{
    if value == -1 {
        return Ok(None);
    }
    if value < 0 || value as usize >= t.method_count as usize {
        return Err(Error::InvalidMetadataTable("property accessor"));
    }
    Ok(Some(MethodId(t.method_start as usize + value as usize)))
}

pub fn build_properties(
    data: &[u8],
    header: &MetadataHeader,
    raw: &RawRecords,
    owners: &Vec<usize>,
) -> (r: Result<Vec<Property>>)
    requires
        owners@.len() == raw.properties@.len(),
        forall|i: int| 0 <= i < owners@.len() ==> #[trigger] owners@[i] < raw.types@.len(),
        forall|i: int|
            0 <= i < raw.types@.len() ==> spec_range(
                (#[trigger] raw.types@[i]).method_start,
                raw.types@[i].method_count as int,
                raw.methods@.len() as int,
            ) is Some,
    ensures
        r is Ok <==> forall|i: int|
            0 <= i < raw.properties@.len() ==> property_valid(data@, *header, raw@, owners@[i], #[trigger] raw.properties@[i]),
        r matches Ok(v) ==> v@.len() == raw.properties@.len() && forall|i: int|
            0 <= i < raw.properties@.len() ==> property_matches(data@, *header, raw@, i, owners@[i], raw.properties@[i], #[trigger] v@[i]),
        r matches Err(e) ==> first_error(property_errors(data@, *header, raw@, owners@)) == Some(e),
        r is Ok ==> first_error(property_errors(data@, *header, raw@, owners@)) is None,
{
    let ghost errs = property_errors(data@, *header, raw@, owners@);
    let mut out: Vec<Property> = Vec::new();
    let mut i: usize = 0;
    while i < raw.properties.len()
        invariant
            owners@.len() == raw.properties@.len(),
            forall|i: int| 0 <= i < owners@.len() ==> #[trigger] owners@[i] < raw.types@.len(),
            forall|i: int|
                0 <= i < raw.types@.len() ==> spec_range(
                    (#[trigger] raw.types@[i]).method_start,
                    raw.types@[i].method_count as int,
                    raw.methods@.len() as int,
                ) is Some,
            i <= raw.properties@.len(),
            out@.len() == i,
            forall|j: int| 0 <= j < i ==> property_valid(data@, *header, raw@, owners@[j], #[trigger] raw.properties@[j]),
            forall|j: int| 0 <= j < i ==> property_matches(data@, *header, raw@, j, owners@[j], raw.properties@[j], #[trigger] out@[j]),
            errs == property_errors(data@, *header, raw@, owners@),
            forall|j: int| 0 <= j < i ==> (#[trigger] errs[j]) is None,
        decreases raw.properties@.len() - i,
    {
        let p = raw.properties[i];
        let owner = owners[i];
        let t = raw.types[owner];
        let name = match string_at(data, header, p.name_index) {
            Ok(name) => name,
            Err(e) => {
                assert(!property_valid(data@, *header, raw@, owners@[i as int], raw.properties@[i as int]));
                assert(errs[i as int] == Some(e));
                proof { lemma_first_error_at(errs, i as int); }
                return Err(e);
            },
        };
        let getter = match accessor(p.get, t, raw.methods.len()) {
            Ok(a) => a,
            Err(e) => {
                assert(!property_valid(data@, *header, raw@, owners@[i as int], raw.properties@[i as int]));
                assert(errs[i as int] == Some(e));
                proof { lemma_first_error_at(errs, i as int); }
                return Err(e);
            },
        };
        let setter = match accessor(p.set, t, raw.methods.len()) {
            Ok(a) => a,
            Err(e) => {
                assert(!property_valid(data@, *header, raw@, owners@[i as int], raw.properties@[i as int]));
                assert(errs[i as int] == Some(e));
                proof { lemma_first_error_at(errs, i as int); }
                return Err(e);
            },
        };
        out.push(Property {
            id: PropertyId(i),
            declaring_type: TypeId(owner),
            name,
            getter,
            setter,
            attributes: p.attrs,
            token: p.token,
        });
        assert(errs[i as int] is None);
        i = i + 1;
    }
    proof { lemma_first_error_none(errs); }
    Ok(out)
}

// ---------------------------------------------------------------- generics

pub open spec fn container_valid(raw: RawTables, c: RawGenericContainer) -> bool {
    &&& if c.is_method != 0 {
        0 <= c.owner_index < raw.methods.len()
    } else {
        0 <= c.owner_index < raw.types.len()
    }
    &&& c.type_argc >= 0
    &&& spec_range(c.generic_parameter_start, c.type_argc as int, raw.generic_parameters.len() as int) is Some
}

pub open spec fn container_matches(raw: RawTables, index: int, c: RawGenericContainer, m: GenericContainer) -> bool {
    &&& m.id == GenericContainerId(index as usize)
    &&& m.owner == if c.is_method != 0 {
        GenericOwner::Method(MethodId(c.owner_index as usize))
    } else {
        GenericOwner::Type(TypeId(c.owner_index as usize))
    }
    &&& m.parameters@ == generic_parameter_ids(
        bounds(c.generic_parameter_start, c.type_argc as int, raw.generic_parameters.len() as int),
    )
}

/// The error generic container `c` gives, if any, in the order the checks run.
pub open spec fn container_error(raw: RawTables, c: RawGenericContainer) -> Option<Error> {
    or_else(if c.is_method != 0 {
        index_error(c.owner_index, raw.methods.len() as int, "generic container owner")
    } else {
        index_error(c.owner_index, raw.types.len() as int, "generic container owner")
    },
    or_else(if c.type_argc < 0 {
        Some(Error::InvalidMetadataTable("generic container parameters"))
    } else {
        None
    },
    range_error(c.generic_parameter_start, c.type_argc as int, raw.generic_parameters.len() as int, "generic container parameters")))
}

pub open spec fn container_errors(raw: RawTables) -> Seq<Option<Error>> {
    Seq::new(raw.generic_containers.len(), |i: int| container_error(raw, raw.generic_containers[i]))
}

fn build_container(raw: &RawRecords, index: usize, c: RawGenericContainer) -> (r: Result<GenericContainer>)
    ensures
        r is Ok <==> container_valid(raw@, c),
        r matches Ok(m) ==> container_matches(raw@, index as int, c, m),
        r matches Err(e) ==> container_error(raw@, c) == Some(e),
        r is Ok ==> container_error(raw@, c) is None,
{
    let owner = if c.is_method != 0 {
        GenericOwner::Method(MethodId(checked_index(c.owner_index, raw.methods.len(), "generic container owner")?))
    } else {
        GenericOwner::Type(TypeId(checked_index(c.owner_index, raw.types.len(), "generic container owner")?))
    };
    if c.type_argc < 0 {
        return Err(Error::InvalidMetadataTable("generic container parameters"));
    }
    let (begin, end) = checked_range(
        c.generic_parameter_start,
        c.type_argc as usize,
        raw.generic_parameters.len(),
        "generic container parameters",
    )?;
    Ok(GenericContainer { id: GenericContainerId(index), owner, parameters: generic_parameter_id_range(begin, end) })
}

pub fn build_generic_containers(raw: &RawRecords) -> (r: Result<Vec<GenericContainer>>)
    ensures
        r is Ok <==> forall|i: int|
            0 <= i < raw.generic_containers@.len() ==> container_valid(raw@, #[trigger] raw.generic_containers@[i]),
        r matches Ok(v) ==> v@.len() == raw.generic_containers@.len() && forall|i: int|
            0 <= i < raw.generic_containers@.len() ==> container_matches(raw@, i, raw.generic_containers@[i], #[trigger] v@[i]),
        r matches Err(e) ==> first_error(container_errors(raw@)) == Some(e),
        r is Ok ==> first_error(container_errors(raw@)) is None,
{
    let ghost errs = container_errors(raw@);
    let mut out: Vec<GenericContainer> = Vec::new();
    let mut i: usize = 0;
    while i < raw.generic_containers.len()
        invariant
            i <= raw.generic_containers@.len(),
            out@.len() == i,
            forall|j: int| 0 <= j < i ==> container_valid(raw@, #[trigger] raw.generic_containers@[j]),
            forall|j: int| 0 <= j < i ==> container_matches(raw@, j, raw.generic_containers@[j], #[trigger] out@[j]),
            errs == container_errors(raw@),
            forall|j: int| 0 <= j < i ==> (#[trigger] errs[j]) is None,
        decreases raw.generic_containers@.len() - i,
    {
        let c = match build_container(raw, i, raw.generic_containers[i]) {
            Ok(v) => v,
            Err(e) => {
                proof { lemma_first_error_at(errs, i as int); }
                return Err(e);
            },
        };
        out.push(c);
        i = i + 1;
    }
    proof { lemma_first_error_none(errs); }
    Ok(out)
}

pub open spec fn generic_parameter_valid(data: Seq<u8>, header: MetadataHeader, raw: RawTables, g: RawGenericParameter) -> bool {
    &&& 0 <= g.owner_index < raw.generic_containers.len()
    &&& name_ok(data, header, g.name_index)
    &&& g.constraints_count >= 0
    &&& spec_range(g.constraints_start as i32, g.constraints_count as int, raw.constraints.len() as int) is Some
    &&& entries_ok(
        raw.constraints,
        bounds(g.constraints_start as i32, g.constraints_count as int, raw.constraints.len() as int),
        None,
    )
}

pub open spec fn generic_parameter_matches(
    data: Seq<u8>,
    header: MetadataHeader,
    raw: RawTables,
    index: int,
    g: RawGenericParameter,
    m: GenericParameter,
) -> bool {
    &&& m.id == GenericParameterId(index as usize)
    &&& m.container == GenericContainerId(g.owner_index as usize)
    &&& m.name@ == name_of(data, header, g.name_index)
    &&& m.position == g.num
    &&& m.flags == g.flags
    &&& m.constraints@ == entry_type_indexes(
        raw.constraints,
        bounds(g.constraints_start as i32, g.constraints_count as int, raw.constraints.len() as int),
    )
}

/// The error generic parameter `g` gives, if any, in the order the checks run.
pub open spec fn generic_parameter_error(data: Seq<u8>, header: MetadataHeader, raw: RawTables, g: RawGenericParameter) -> Option<Error> {
    or_else(index_error(g.owner_index, raw.generic_containers.len() as int, "generic parameter owner"),
    or_else(name_error(data, header, g.name_index),
    or_else(if g.constraints_count < 0 {
        Some(Error::InvalidMetadataTable("generic parameter constraints"))
    } else {
        None
    },
    or_else(range_error(g.constraints_start as i32, g.constraints_count as int, raw.constraints.len() as int, "generic parameter constraints"),
    entries_error(
        raw.constraints,
        bounds(g.constraints_start as i32, g.constraints_count as int, raw.constraints.len() as int),
        None,
        "generic parameter constraints",
    )))))
}

pub open spec fn generic_parameter_errors(data: Seq<u8>, header: MetadataHeader, raw: RawTables) -> Seq<Option<Error>> {
    Seq::new(raw.generic_parameters.len(), |i: int| generic_parameter_error(data, header, raw, raw.generic_parameters[i]))
}

fn build_generic_parameter(
    data: &[u8],
    header: &MetadataHeader,
    raw: &RawRecords,
    index: usize,
    g: RawGenericParameter,
) -> (r: Result<GenericParameter>)
    ensures
        r is Ok <==> generic_parameter_valid(data@, *header, raw@, g),
        r matches Ok(m) ==> generic_parameter_matches(data@, *header, raw@, index as int, g, m),
        r matches Err(e) ==> generic_parameter_error(data@, *header, raw@, g) == Some(e),
        r is Ok ==> generic_parameter_error(data@, *header, raw@, g) is None,
{
    let container = checked_index(g.owner_index, raw.generic_containers.len(), "generic parameter owner")?;
    let name = string_at(data, header, g.name_index)?;
    if g.constraints_count < 0 {
        return Err(Error::InvalidMetadataTable("generic parameter constraints"));
    }
    let (begin, end) = checked_range(
        g.constraints_start as i32,
        g.constraints_count as usize,
        raw.constraints.len(),
        "generic parameter constraints",
    )?;
    let constraints = entry_indexes(&raw.constraints, begin, end, None, "generic parameter constraints")?;
    Ok(GenericParameter {
        id: GenericParameterId(index),
        container: GenericContainerId(container),
        name,
        position: g.num,
        flags: g.flags,
        constraints,
    })
}

pub fn build_generic_parameters(data: &[u8], header: &MetadataHeader, raw: &RawRecords) -> (r: Result<
    Vec<GenericParameter>,
>)
    ensures
        r is Ok <==> forall|i: int|
            0 <= i < raw.generic_parameters@.len() ==> generic_parameter_valid(data@, *header, raw@, #[trigger] raw.generic_parameters@[i]),
        r matches Ok(v) ==> v@.len() == raw.generic_parameters@.len() && forall|i: int|
            0 <= i < raw.generic_parameters@.len() ==> generic_parameter_matches(data@, *header, raw@, i, raw.generic_parameters@[i], #[trigger] v@[i]),
        r matches Err(e) ==> first_error(generic_parameter_errors(data@, *header, raw@)) == Some(e),
        r is Ok ==> first_error(generic_parameter_errors(data@, *header, raw@)) is None,
{
    let ghost errs = generic_parameter_errors(data@, *header, raw@);
    let mut out: Vec<GenericParameter> = Vec::new();
    let mut i: usize = 0;
    while i < raw.generic_parameters.len()
        invariant
            i <= raw.generic_parameters@.len(),
            out@.len() == i,
            forall|j: int| 0 <= j < i ==> generic_parameter_valid(data@, *header, raw@, #[trigger] raw.generic_parameters@[j]),
            forall|j: int| 0 <= j < i ==> generic_parameter_matches(data@, *header, raw@, j, raw.generic_parameters@[j], #[trigger] out@[j]),
            errs == generic_parameter_errors(data@, *header, raw@),
            forall|j: int| 0 <= j < i ==> (#[trigger] errs[j]) is None,
        decreases raw.generic_parameters@.len() - i,
    {
        let g = match build_generic_parameter(data, header, raw, i, raw.generic_parameters[i]) {
            Ok(v) => v,
            Err(e) => {
                proof { lemma_first_error_at(errs, i as int); }
                return Err(e);
            },
        };
        out.push(g);
        i = i + 1;
    }
    proof { lemma_first_error_none(errs); }
    Ok(out)
}

} // verus!
