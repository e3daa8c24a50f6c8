//! Full parse of a version 31 metadata file into the normalized model.
use vstd::prelude::*;

use super::header::{spec_table_at, spec_table_name, HEADER_SIZE, spec_v31_header, MetadataHeader, MetadataVersion, METADATA_SANITY};
use super::normalize::{
    assembly_errors, container_errors, field_errors, first_error, generic_parameter_errors,
    image_errors, method_errors, or_else, parameter_errors, property_errors, type_errors,
    bounds, field_ids, id_range, method_ids, parameter_ids, property_ids, type_ids,
    assembly_matches, assembly_valid, build_assemblies, build_fields, build_generic_containers,
    build_generic_parameters, build_images, build_methods, build_parameters, build_properties,
    build_types, container_matches, container_valid, field_matches, field_valid,
    generic_parameter_matches, generic_parameter_valid, image_matches, image_valid,
    method_matches, method_valid, parameter_matches, parameter_valid, property_matches,
    property_valid, type_matches, type_valid,
};
use super::ranges::{assign_ranges, has_owner, owns, ranges_partition, spec_range};
use super::reader::{prefix_ok, spec_u32, MetadataReader};
use super::strings::{decode_string_literals, literal_in_bounds, literal_matches, literals_in_bounds};
use super::versions::v31::{
    first_offending, first_unfit, lemma_header_is_v31, parse_header, parse_records, record_tables_whole,
    v31_tables_fit, v31_tables_ordered, spec_raw_tables, v31_header_valid,
    RawImage, RawMethod, RawRecords, RawTables, RawTypeDefinition, VERSION,
};
use super::Metadata;
use crate::cli::methods_well_typed;
use crate::desktop::state::entries_well_typed;
use crate::desktop::tree::navigation_well_typed;
use crate::analysis::type_system::parameters_in_range;
use crate::desktop::views::property_well_typed;
use crate::model::{AssemblyId, FieldId, ImageId, MethodId, ParameterId, PropertyId, TypeId};
use crate::{Error, Result};

verus! {

pub open spec fn image_type_ranges(images: Seq<RawImage>) -> Seq<(i32, usize)> {
    images.map_values(|img: RawImage| (img.type_start, img.type_count as usize))
}

pub open spec fn type_field_ranges(types: Seq<RawTypeDefinition>) -> Seq<(i32, usize)> {
    types.map_values(|t: RawTypeDefinition| (t.field_start, t.field_count as usize))
}

pub open spec fn type_method_ranges(types: Seq<RawTypeDefinition>) -> Seq<(i32, usize)> {
    types.map_values(|t: RawTypeDefinition| (t.method_start, t.method_count as usize))
}

pub open spec fn type_property_ranges(types: Seq<RawTypeDefinition>) -> Seq<(i32, usize)> {
    types.map_values(|t: RawTypeDefinition| (t.property_start, t.property_count as usize))
}

pub open spec fn method_parameter_ranges(methods: Seq<RawMethod>) -> Seq<(i32, usize)> {
    methods.map_values(|m: RawMethod| (m.parameter_start, m.parameter_count as usize))
}

/// The owner whose range holds `item` (meaningful when the ranges partition the items).
pub open spec fn owner_of(ranges: Seq<(i32, usize)>, total: int, item: int) -> usize {
    (choose|o: int| owns(ranges, total, o, item)) as usize
}

/// The prefix, header and record tables of `data` are well formed.
pub open spec fn metadata_layout_valid(data: Seq<u8>) -> bool {
    &&& data.len() >= 8
    &&& spec_u32(data, 0) == METADATA_SANITY
    &&& spec_u32(data, 4) == VERSION
    &&& v31_header_valid(data)
    &&& record_tables_whole(spec_v31_header(data))
}

/// The cross-table structure of the records is consistent.
pub open spec fn tables_valid(data: Seq<u8>, h: MetadataHeader, t: RawTables) -> bool {
    &&& literals_in_bounds(t.string_literals, h.string_literal_data)
    &&& ranges_partition(image_type_ranges(t.images), t.types.len() as int)
    &&& ranges_partition(type_field_ranges(t.types), t.fields.len() as int)
    &&& ranges_partition(type_method_ranges(t.types), t.methods.len() as int)
    &&& ranges_partition(method_parameter_ranges(t.methods), t.parameters.len() as int)
    &&& ranges_partition(type_property_ranges(t.types), t.properties.len() as int)
    &&& forall|i: int|
        0 <= i < t.assemblies.len() ==> assembly_valid(data, h, t.images, i, #[trigger] t.assemblies[i])
    &&& forall|i: int| 0 <= i < t.images.len() ==> image_valid(data, h, t, #[trigger] t.images[i])
    &&& forall|i: int| 0 <= i < t.types.len() ==> type_valid(data, h, t, #[trigger] t.types[i])
    &&& forall|i: int| 0 <= i < t.fields.len() ==> field_valid(data, h, #[trigger] t.fields[i])
    &&& forall|i: int| 0 <= i < t.parameters.len() ==> parameter_valid(data, h, #[trigger] t.parameters[i])
    &&& forall|i: int|
        0 <= i < t.methods.len() ==> method_valid(
            data,
            h,
            t,
            owner_of(type_method_ranges(t.types), t.methods.len() as int, i),
            #[trigger] t.methods[i],
        )
    &&& forall|i: int|
        0 <= i < t.properties.len() ==> property_valid(
            data,
            h,
            t,
            owner_of(type_property_ranges(t.types), t.properties.len() as int, i),
            #[trigger] t.properties[i],
        )
    &&& forall|i: int|
        0 <= i < t.generic_containers.len() ==> container_valid(t, #[trigger] t.generic_containers[i])
    &&& forall|i: int|
        0 <= i < t.generic_parameters.len() ==> generic_parameter_valid(
            data,
            h,
            t,
            #[trigger] t.generic_parameters[i],
        )
}

/// `data` is a well-formed version 31 metadata file.
pub open spec fn metadata_valid(data: Seq<u8>) -> bool {
    &&& metadata_layout_valid(data)
    &&& tables_valid(data, spec_v31_header(data), spec_raw_tables(data, spec_v31_header(data)))
}

/// The normalized tables of `m` are those that `data` describes.
pub open spec fn model_matches(data: Seq<u8>, m: Metadata) -> bool {
    let h = spec_v31_header(data);
    let t = spec_raw_tables(data, h);
    &&& m.version == MetadataVersion::V31
    &&& m.data@ == data
    &&& m.header == h
    &&& m.string_literals@.len() == t.string_literals.len()
    &&& forall|i: int|
        0 <= i < t.string_literals.len() ==> literal_matches(
            data,
            t.string_literals,
            h.string_literal_data,
            i,
            #[trigger] m.string_literals@[i],
        )
    &&& m.assemblies@.len() == t.assemblies.len()
    &&& forall|i: int|
        0 <= i < t.assemblies.len() ==> assembly_matches(data, h, i, t.assemblies[i], #[trigger] m.assemblies@[i])
    &&& m.images@.len() == t.images.len()
    &&& forall|i: int|
        0 <= i < t.images.len() ==> image_matches(data, h, t, i, t.images[i], #[trigger] m.images@[i])
    &&& m.types@.len() == t.types.len()
    &&& forall|i: int|
        0 <= i < t.types.len() ==> type_matches(
            data,
            h,
            t,
            i,
            owner_of(image_type_ranges(t.images), t.types.len() as int, i),
            t.types[i],
            #[trigger] m.types@[i],
        )
    &&& m.fields@.len() == t.fields.len()
    &&& forall|i: int|
        0 <= i < t.fields.len() ==> field_matches(
            data,
            h,
            i,
            owner_of(type_field_ranges(t.types), t.fields.len() as int, i),
            t.fields[i],
            #[trigger] m.fields@[i],
        )
    &&& m.parameters@.len() == t.parameters.len()
    &&& forall|i: int|
        0 <= i < t.parameters.len() ==> parameter_matches(
            data,
            h,
            i,
            owner_of(method_parameter_ranges(t.methods), t.parameters.len() as int, i),
            t.parameters[i],
            #[trigger] m.parameters@[i],
        )
    &&& m.methods@.len() == t.methods.len()
    &&& forall|i: int|
        0 <= i < t.methods.len() ==> method_matches(data, h, t, i, t.methods[i], #[trigger] m.methods@[i])
    &&& m.properties@.len() == t.properties.len()
    &&& forall|i: int|
        0 <= i < t.properties.len() ==> property_matches(
            data,
            h,
            t,
            i,
            owner_of(type_property_ranges(t.types), t.properties.len() as int, i),
            t.properties[i],
            #[trigger] m.properties@[i],
        )
    &&& m.generic_containers@.len() == t.generic_containers.len()
    &&& forall|i: int|
        0 <= i < t.generic_containers.len() ==> container_matches(
            t,
            i,
            t.generic_containers[i],
            #[trigger] m.generic_containers@[i],
        )
    &&& m.generic_parameters@.len() == t.generic_parameters.len()
    &&& forall|i: int|
        0 <= i < t.generic_parameters.len() ==> generic_parameter_matches(
            data,
            h,
            t,
            i,
            t.generic_parameters[i],
            #[trigger] m.generic_parameters@[i],
        )
}

fn image_type_range_list(raw: &RawRecords) -> (r: Vec<(i32, usize)>)
    ensures
        r@ == image_type_ranges(raw@.images),
{
    let mut r: Vec<(i32, usize)> = Vec::new();
    let mut i: usize = 0;
    while i < raw.images.len()
        invariant
            i <= raw.images@.len(),
            r@ == image_type_ranges(raw.images@.take(i as int)),
        decreases raw.images@.len() - i,
    {
        r.push((raw.images[i].type_start, raw.images[i].type_count as usize));
        i = i + 1;
        assert(r@ =~= image_type_ranges(raw.images@.take(i as int)));
    }
    assert(raw.images@.take(i as int) =~= raw.images@);
    r
}

fn type_field_range_list(raw: &RawRecords) -> (r: Vec<(i32, usize)>)
    ensures
        r@ == type_field_ranges(raw@.types),
{
    let mut r: Vec<(i32, usize)> = Vec::new();
    let mut i: usize = 0;
    while i < raw.types.len()
        invariant
            i <= raw.types@.len(),
            r@ == type_field_ranges(raw.types@.take(i as int)),
        decreases raw.types@.len() - i,
    {
        r.push((raw.types[i].field_start, raw.types[i].field_count as usize));
        i = i + 1;
        assert(r@ =~= type_field_ranges(raw.types@.take(i as int)));
    }
    assert(raw.types@.take(i as int) =~= raw.types@);
    r
}

fn type_method_range_list(raw: &RawRecords) -> (r: Vec<(i32, usize)>)
    ensures
        r@ == type_method_ranges(raw@.types),
{
    let mut r: Vec<(i32, usize)> = Vec::new();
    let mut i: usize = 0;
    while i < raw.types.len()
        invariant
            i <= raw.types@.len(),
            r@ == type_method_ranges(raw.types@.take(i as int)),
        decreases raw.types@.len() - i,
    {
        r.push((raw.types[i].method_start, raw.types[i].method_count as usize));
        i = i + 1;
        assert(r@ =~= type_method_ranges(raw.types@.take(i as int)));
    }
    assert(raw.types@.take(i as int) =~= raw.types@);
    r
}

fn type_property_range_list(raw: &RawRecords) -> (r: Vec<(i32, usize)>)
    ensures
        r@ == type_property_ranges(raw@.types),
{
    let mut r: Vec<(i32, usize)> = Vec::new();
    let mut i: usize = 0;
    while i < raw.types.len()
        invariant
            i <= raw.types@.len(),
            r@ == type_property_ranges(raw.types@.take(i as int)),
        decreases raw.types@.len() - i,
    {
        r.push((raw.types[i].property_start, raw.types[i].property_count as usize));
        i = i + 1;
        assert(r@ =~= type_property_ranges(raw.types@.take(i as int)));
    }
    assert(raw.types@.take(i as int) =~= raw.types@);
    r
}

fn method_parameter_range_list(raw: &RawRecords) -> (r: Vec<(i32, usize)>)
    ensures
        r@ == method_parameter_ranges(raw@.methods),
{
    let mut r: Vec<(i32, usize)> = Vec::new();
    let mut i: usize = 0;
    while i < raw.methods.len()
        invariant
            i <= raw.methods@.len(),
            r@ == method_parameter_ranges(raw.methods@.take(i as int)),
        decreases raw.methods@.len() - i,
    {
        r.push((raw.methods[i].parameter_start, raw.methods[i].parameter_count as usize));
        i = i + 1;
        assert(r@ =~= method_parameter_ranges(raw.methods@.take(i as int)));
    }
    assert(raw.methods@.take(i as int) =~= raw.methods@);
    r
}

/// The owners that `assign_ranges` found are the owners the ranges define.
proof fn lemma_owners(ranges: Seq<(i32, usize)>, total: int, owners: Seq<usize>)
    requires
        ranges_partition(ranges, total),
        owners.len() == total,
        forall|k: int| 0 <= k < total ==> owns(ranges, total, #[trigger] owners[k] as int, k),
    ensures
        forall|k: int| 0 <= k < total ==> #[trigger] owners[k] == owner_of(ranges, total, k),
        forall|k: int| 0 <= k < total ==> owner_of(ranges, total, k) < ranges.len(),
{
    assert forall|k: int| 0 <= k < total implies #[trigger] owners[k] == owner_of(ranges, total, k) by {
        assert(owns(ranges, total, owners[k] as int, k));
        let o = choose|o: int| owns(ranges, total, o, k);
        assert(owns(ranges, total, o, k));
    }
    assert forall|k: int| 0 <= k < total implies #[trigger] owner_of(ranges, total, k) < ranges.len() by {
        assert(owners[k] == owner_of(ranges, total, k));
        assert(owns(ranges, total, owners[k] as int, k));
    }
}

/// The file's layout and string literals are sound, so parsing reaches the ownership
/// ranges, which it checks in the order images, fields, methods, parameters, properties.
pub open spec fn ranges_checked(data: Seq<u8>) -> bool {
    &&& metadata_layout_valid(data)
    &&& literals_in_bounds(
        spec_raw_tables(data, spec_v31_header(data)).string_literals,
        spec_v31_header(data).string_literal_data,
    )
}

/// The declaring type of each method, as the method ranges assign them.
pub open spec fn method_owner_seq(t: RawTables) -> Seq<usize> {
    Seq::new(t.methods.len(), |i: int| owner_of(type_method_ranges(t.types), t.methods.len() as int, i))
}

/// The declaring type of each property, as the property ranges assign them.
pub open spec fn property_owner_seq(t: RawTables) -> Seq<usize> {
    Seq::new(t.properties.len(), |i: int| owner_of(type_property_ranges(t.types), t.properties.len() as int, i))
}

/// The first record error, with the tables taken in the order parsing builds them:
/// assemblies, images, types, fields, parameters, methods, properties, generic containers,
/// generic parameters.
pub open spec fn records_error(data: Seq<u8>) -> Option<Error> {
    let h = spec_v31_header(data);
    let t = spec_raw_tables(data, h);
    or_else(first_error(assembly_errors(data, h, t.assemblies, t.images)),
    or_else(first_error(image_errors(data, h, t)),
    or_else(first_error(type_errors(data, h, t)),
    or_else(first_error(field_errors(data, h, t)),
    or_else(first_error(parameter_errors(data, h, t)),
    or_else(first_error(method_errors(data, h, t, method_owner_seq(t))),
    or_else(first_error(property_errors(data, h, t, property_owner_seq(t))),
    or_else(first_error(container_errors(t)), first_error(generic_parameter_errors(data, h, t))))))))))
}

/// What parsing `data` gives: `Ok` exactly for a valid file, holding the model the file
/// describes, and otherwise the error that the first failing check names.
pub open spec fn parse_outcome(data: Seq<u8>, r: Result<Metadata>) -> bool {
    let h = spec_v31_header(data);
    let t = spec_raw_tables(data, h);
    let images_ok = ranges_partition(image_type_ranges(t.images), t.types.len() as int);
    let fields_ok = ranges_partition(type_field_ranges(t.types), t.fields.len() as int);
    let methods_ok = ranges_partition(type_method_ranges(t.types), t.methods.len() as int);
    let parameters_ok = ranges_partition(method_parameter_ranges(t.methods), t.parameters.len() as int);
    let properties_ok = ranges_partition(type_property_ranges(t.types), t.properties.len() as int);
    &&& (r is Ok <==> metadata_valid(data))
    &&& (r matches Ok(m) ==> model_matches(data, m))
    &&& (!prefix_ok(data) ==> r == Err::<Metadata, Error>(Error::InvalidMetadata))
    &&& (prefix_ok(data) && spec_u32(data, 4) != VERSION ==> r == Err::<Metadata, Error>(
        Error::UnsupportedMetadataVersion(spec_u32(data, 4) as u32),
    ))
    &&& (prefix_ok(data) && spec_u32(data, 4) == VERSION && data.len() < HEADER_SIZE ==> r
        == Err::<Metadata, Error>(Error::MetadataOutOfBounds { offset: 0, length: HEADER_SIZE }))
    &&& (prefix_ok(data) && spec_u32(data, 4) == VERSION && data.len() >= HEADER_SIZE
        && !v31_tables_fit(data) ==> exists|k: int|
        #[trigger] first_unfit(data, k) && r == Err::<Metadata, Error>(
            Error::MetadataOutOfBounds {
                offset: spec_table_at(data, k).offset,
                length: spec_table_at(data, k).byte_count,
            },
        ))
    &&& (prefix_ok(data) && spec_u32(data, 4) == VERSION && v31_header_valid(data)
        && !record_tables_whole(h) ==> r == Err::<Metadata, Error>(Error::InvalidMetadata))
    &&& (prefix_ok(data) && spec_u32(data, 4) == VERSION && data.len() >= HEADER_SIZE
        && v31_tables_fit(data) && !v31_tables_ordered(data) ==> exists|k: int|
        #[trigger] first_offending(data, k) && (r matches Err(Error::InvalidMetadataTable(name))
            && name@ == spec_table_name(k as usize)))
    &&& (metadata_layout_valid(data) && !literals_in_bounds(t.string_literals, h.string_literal_data)
        ==> exists|i: int|
        0 <= i < t.string_literals.len() && !literal_in_bounds(
            #[trigger] t.string_literals[i],
            h.string_literal_data,
        ) && (forall|j: int| 0 <= j < i ==> literal_in_bounds(
            #[trigger] t.string_literals[j],
            h.string_literal_data,
        )) && r == Err::<Metadata, Error>(Error::InvalidStringLiteral(i as usize)))
    &&& (ranges_checked(data) && !images_ok ==> r == Err::<Metadata, Error>(
        Error::InvalidMetadataTable("images/type definitions"),
    ))
    &&& (ranges_checked(data) && images_ok && !fields_ok ==> r == Err::<Metadata, Error>(
        Error::InvalidMetadataTable("type fields"),
    ))
    &&& (ranges_checked(data) && images_ok && fields_ok && !methods_ok ==> r == Err::<
        Metadata,
        Error,
    >(Error::InvalidMetadataTable("type methods")))
    &&& (ranges_checked(data) && images_ok && fields_ok && methods_ok && !parameters_ok ==> r
        == Err::<Metadata, Error>(Error::InvalidMetadataTable("method parameters")))
    &&& (ranges_checked(data) && images_ok && fields_ok && methods_ok && parameters_ok
        && !properties_ok ==> r == Err::<Metadata, Error>(
        Error::InvalidMetadataTable("type properties"),
    ))
    &&& (ranges_checked(data) && images_ok && fields_ok && methods_ok && parameters_ok
        && properties_ok ==> match records_error(data) {
        Some(e) => r == Err::<Metadata, Error>(e),
        None => r is Ok,
    })
}

/// Parses a version 31 metadata file into the normalized model.
pub fn parse(data: Vec<u8>) -> (r: Result<Metadata>)
    ensures
        parse_outcome(data@, r),
{
    let ghost d = data@;
    let reader = MetadataReader::new(data.as_slice());
    let prefix = reader.header()?;
    if prefix.version != VERSION {
        return Err(Error::UnsupportedMetadataVersion(prefix.version));
    }
    let header = parse_header(&reader, prefix.sanity, prefix.version)?;
    proof {
        lemma_header_is_v31(header, d);
        assert(header == spec_v31_header(d));
        assert forall|i: int| 0 <= i < 31 implies (#[trigger] header.table(i)).fits(d.len() as int) by {
            assert(header.table(i) == super::header::spec_table_at(d, i));
        }
    }
    let raw = parse_records(&reader, &header)?;
    let ghost h = header;
    let ghost t = raw@;
    assert(t == spec_raw_tables(d, h));
    assert(h.string_literal_data == h.table(1));
    let string_literals = decode_string_literals(data.as_slice(), &raw.string_literals, header.string_literal_data)?;

    let type_owners = assign_ranges(&image_type_range_list(&raw), raw.types.len(), "images/type definitions")?;
    let field_owners = assign_ranges(&type_field_range_list(&raw), raw.fields.len(), "type fields")?;
    let method_owners = assign_ranges(&type_method_range_list(&raw), raw.methods.len(), "type methods")?;
    let parameter_owners = assign_ranges(&method_parameter_range_list(&raw), raw.parameters.len(), "method parameters")?;
    let property_owners = assign_ranges(&type_property_range_list(&raw), raw.properties.len(), "type properties")?;
    proof {
        lemma_owners(image_type_ranges(t.images), t.types.len() as int, type_owners@);
        lemma_owners(type_field_ranges(t.types), t.fields.len() as int, field_owners@);
        lemma_owners(type_method_ranges(t.types), t.methods.len() as int, method_owners@);
        lemma_owners(method_parameter_ranges(t.methods), t.parameters.len() as int, parameter_owners@);
        lemma_owners(type_property_ranges(t.types), t.properties.len() as int, property_owners@);
        assert(method_owners@ =~= method_owner_seq(t));
        assert(property_owners@ =~= property_owner_seq(t));
    }

    assert(t.images == raw.images@ && t.assemblies == raw.assemblies@);
    let assemblies = match build_assemblies(data.as_slice(), &header, &raw.assemblies, &raw.images) {
        Ok(v) => v,
        Err(e) => {
            assert(!(forall|i: int| 0 <= i < t.assemblies.len() ==> assembly_valid(d, h, t.images, i, #[trigger] t.assemblies[i])));
            assert(!tables_valid(d, h, t));
            return Err(e);
        },
    };
    let images = build_images(data.as_slice(), &header, &raw)?;
    let types = build_types(data.as_slice(), &header, &raw, &type_owners)?;
    let fields = build_fields(data.as_slice(), &header, &raw, &field_owners)?;
    let parameters = build_parameters(data.as_slice(), &header, &raw, &parameter_owners)?;
    let methods = build_methods(data.as_slice(), &header, &raw, &method_owners)?;
    proof {
        assert forall|i: int| 0 <= i < property_owners@.len() implies #[trigger] property_owners@[i] < raw.types@.len() by {
            assert(property_owners@[i] == owner_of(type_property_ranges(t.types), t.properties.len() as int, i));
        }
        assert forall|i: int| 0 <= i < raw.types@.len() implies super::ranges::spec_range(
            (#[trigger] raw.types@[i]).method_start,
            raw.types@[i].method_count as int,
            raw.methods@.len() as int,
        ) is Some by {
            assert(type_valid(d, h, t, t.types[i]));
        }
    }
    let properties = build_properties(data.as_slice(), &header, &raw, &property_owners)?;
    assert(t == raw@);
    assert(t.generic_containers == raw.generic_containers@);
    let generic_containers = match build_generic_containers(&raw) {
        Ok(v) => v,
        Err(e) => {
            assert(!(forall|i: int| 0 <= i < t.generic_containers.len() ==> container_valid(t, #[trigger] t.generic_containers[i])));
            assert(!tables_valid(d, h, t));
            return Err(e);
        },
    };
    assert(t.generic_parameters == raw.generic_parameters@);
    let generic_parameters = match build_generic_parameters(data.as_slice(), &header, &raw) {
        Ok(v) => v,
        Err(e) => {
            assert(!(forall|i: int| 0 <= i < t.generic_parameters.len() ==> generic_parameter_valid(d, h, t, #[trigger] t.generic_parameters[i])));
            assert(!tables_valid(d, h, t));
            return Err(e);
        },
    };
    let m = Metadata {
        version: MetadataVersion::V31,
        assemblies,
        images,
        types,
        methods,
        fields,
        parameters,
        properties,
        generic_containers,
        generic_parameters,
        string_literals,
        header,
        data,
    };
    proof {
        assert(metadata_valid(d));
        assert(model_matches(d, m));
    }
    Ok(m)
}


/// An owner chosen for an item of a partition is one of the owners.
proof fn lemma_owner_in_range(ranges: Seq<(i32, usize)>, total: int, item: int)
    requires
        ranges_partition(ranges, total),
        0 <= item < total,
    ensures
        owner_of(ranges, total, item) < ranges.len(),
{
    assert(has_owner(ranges, total, item));
    let o = choose|o: int| owns(ranges, total, o, item);
    assert(owns(ranges, total, o, item));
}

/// Parsed metadata refers only to records it holds: every method, field and property
/// names an existing declaring type, every type an existing identifier, every assembly
/// an existing image, and every image lists existing types.
pub proof fn law_parsed_references_exist(data: Seq<u8>, m: Metadata)
    requires
        metadata_valid(data),
        model_matches(data, m),
    ensures
        methods_well_typed(m),
        entries_well_typed(m),
        navigation_well_typed(m),
        forall|k: int|
            0 <= k < m.properties@.len() ==> (#[trigger] m.properties@[k]).declaring_type.0
                < m.types@.len(),
        forall|k: int| 0 <= k < m.methods@.len() ==> parameters_in_range(m, #[trigger] m.methods@[k]),
        forall|k: int|
            0 <= k < m.properties@.len() ==> property_well_typed(#[trigger] m.properties@[k], m),
{
    let h = spec_v31_header(data);
    let t = spec_raw_tables(data, h);
    assert forall|k: int| 0 <= k < m.methods@.len() implies parameters_in_range(
        m,
        #[trigger] m.methods@[k],
    ) by {
        let raw = t.methods[k];
        assert(method_matches(data, h, t, k, raw, m.methods@[k]));
        assert(method_valid(
            data,
            h,
            t,
            owner_of(type_method_ranges(t.types), t.methods.len() as int, k),
            raw,
        ));
        let b = bounds(raw.parameter_start, raw.parameter_count as int, t.parameters.len() as int);
        assert forall|j: int| 0 <= j < m.methods@[k].parameters@.len() implies (
        #[trigger] m.methods@[k].parameters@[j]).0 < m.parameters@.len() by {
            assert(m.methods@[k].parameters@[j] == ParameterId((b.0 + j) as usize));
        }
    }
    assert forall|k: int| 0 <= k < m.properties@.len() implies property_well_typed(
        #[trigger] m.properties@[k],
        m,
    ) by {
        let ranges = type_property_ranges(t.types);
        lemma_owner_in_range(ranges, t.properties.len() as int, k);
        let o = owner_of(ranges, t.properties.len() as int, k);
        assert(property_matches(data, h, t, k, o, t.properties[k], m.properties@[k]));
        assert(property_valid(data, h, t, o, t.properties[k]));
        let method_ranges = type_method_ranges(t.types);
        assert(method_ranges[o as int] == (t.types[o as int].method_start, t.types[o as int].method_count as usize));
        assert(spec_range(method_ranges[o as int].0, method_ranges[o as int].1 as int, t.methods.len() as int) is Some);
    }
    assert forall|k: int| 0 <= k < m.methods@.len() implies (#[trigger] m.methods@[k]).declaring_type.0
        < m.types@.len() by {
        assert(method_matches(data, h, t, k, t.methods[k], m.methods@[k]));
        assert(method_valid(
            data,
            h,
            t,
            owner_of(type_method_ranges(t.types), t.methods.len() as int, k),
            t.methods[k],
        ));
    }
    assert forall|k: int| 0 <= k < m.fields@.len() implies (#[trigger] m.fields@[k]).declaring_type.0
        < m.types@.len() by {
        lemma_owner_in_range(type_field_ranges(t.types), t.fields.len() as int, k);
        assert(field_matches(
            data,
            h,
            k,
            owner_of(type_field_ranges(t.types), t.fields.len() as int, k),
            t.fields[k],
            m.fields@[k],
        ));
    }
    assert forall|k: int| 0 <= k < m.properties@.len() implies (#[trigger] m.properties@[k]).declaring_type.0
        < m.types@.len() by {
        lemma_owner_in_range(type_property_ranges(t.types), t.properties.len() as int, k);
        assert(property_matches(
            data,
            h,
            t,
            k,
            owner_of(type_property_ranges(t.types), t.properties.len() as int, k),
            t.properties[k],
            m.properties@[k],
        ));
    }
    assert forall|k: int| 0 <= k < m.types@.len() implies (#[trigger] m.types@[k]).id.0
        < m.types@.len() by {
        assert(type_matches(
            data,
            h,
            t,
            k,
            owner_of(image_type_ranges(t.images), t.types.len() as int, k),
            t.types[k],
            m.types@[k],
        ));
    }
    assert forall|a: int| 0 <= a < m.assemblies@.len() implies (#[trigger] m.assemblies@[a]).image.0
        < m.images@.len() by {
        assert(assembly_matches(data, h, a, t.assemblies[a], m.assemblies@[a]));
        assert(assembly_valid(data, h, t.images, a, t.assemblies[a]));
    }
    assert forall|i: int, k: int|
        0 <= i < m.images@.len() && 0 <= k < m.images@[i].types@.len() implies (
        #[trigger] m.images@[i].types@[k]).0 < m.types@.len() by {
        let img = t.images[i];
        assert(image_matches(data, h, t, i, img, m.images@[i]));
        assert(image_valid(data, h, t, img));
        let b = bounds(img.type_start, img.type_count as int, t.types.len() as int);
        assert(m.images@[i].types@[k] == TypeId((b.0 + k) as usize));
    }
}


/// An item lies in an owner's range exactly when that owner is the one the partition
/// assigns to it.
proof fn lemma_range_owner(ranges: Seq<(i32, usize)>, total: int, o: int, k: int)
    requires
        ranges_partition(ranges, total),
        0 <= o < ranges.len() <= usize::MAX,
        0 <= k < total,
    ensures
        spec_range(ranges[o].0, ranges[o].1 as int, total) is Some,
        ({
            let b = bounds(ranges[o].0, ranges[o].1 as int, total);
            0 <= b.0 <= b.1 <= total && (b.0 <= k < b.1 <==> owner_of(ranges, total, k) == o)
        }),
{
    assert(spec_range(ranges[o].0, ranges[o].1 as int, total) is Some);
    assert(has_owner(ranges, total, k));
    let w = choose|w: int| owns(ranges, total, w, k);
    assert(owns(ranges, total, w, k));
    assert(owner_of(ranges, total, k) as int == w);
    let b = bounds(ranges[o].0, ranges[o].1 as int, total);
    if b.0 <= k < b.1 {
        assert(owns(ranges, total, o, k));
    }
}

/// The identifiers of a range hold `k` exactly when `k` lies in the range.
proof fn lemma_ids_contain(b: (int, int), k: int)
    requires
        0 <= b.0 <= b.1 <= usize::MAX,
        0 <= k <= usize::MAX,
    ensures
        type_ids(b).contains(TypeId(k as usize)) <==> b.0 <= k < b.1,
        field_ids(b).contains(FieldId(k as usize)) <==> b.0 <= k < b.1,
        method_ids(b).contains(MethodId(k as usize)) <==> b.0 <= k < b.1,
        parameter_ids(b).contains(ParameterId(k as usize)) <==> b.0 <= k < b.1,
        property_ids(b).contains(PropertyId(k as usize)) <==> b.0 <= k < b.1,
{
    let ids = id_range(b);
    if b.0 <= k < b.1 {
        let j = k - b.0;
        assert(ids[j] == k as usize);
        assert(type_ids(b)[j] == TypeId(k as usize));
        assert(field_ids(b)[j] == FieldId(k as usize));
        assert(method_ids(b)[j] == MethodId(k as usize));
        assert(parameter_ids(b)[j] == ParameterId(k as usize));
        assert(property_ids(b)[j] == PropertyId(k as usize));
    }
    if type_ids(b).contains(TypeId(k as usize)) {
        let j = choose|j: int| 0 <= j < type_ids(b).len() && type_ids(b)[j] == TypeId(k as usize);
        assert(ids[j] == (b.0 + j) as usize);
    }
    if field_ids(b).contains(FieldId(k as usize)) {
        let j = choose|j: int| 0 <= j < field_ids(b).len() && field_ids(b)[j] == FieldId(k as usize);
        assert(ids[j] == (b.0 + j) as usize);
    }
    if method_ids(b).contains(MethodId(k as usize)) {
        let j = choose|j: int| 0 <= j < method_ids(b).len() && method_ids(b)[j] == MethodId(k as usize);
        assert(ids[j] == (b.0 + j) as usize);
    }
    if parameter_ids(b).contains(ParameterId(k as usize)) {
        let j = choose|j: int|
            0 <= j < parameter_ids(b).len() && parameter_ids(b)[j] == ParameterId(k as usize);
        assert(ids[j] == (b.0 + j) as usize);
    }
    if property_ids(b).contains(PropertyId(k as usize)) {
        let j = choose|j: int|
            0 <= j < property_ids(b).len() && property_ids(b)[j] == PropertyId(k as usize);
        assert(ids[j] == (b.0 + j) as usize);
    }
}

/// Parsed metadata gives every record one owner, named from both sides: a type lists a
/// field, method or property exactly when that record names the type as its declaring
/// type, an image lists a type exactly when the type names the image, a method lists a
/// parameter exactly when the parameter names the method, and the image an assembly
/// names points back at the assembly. Every record's identifier is its position.
pub proof fn law_parsed_ownership(data: Seq<u8>, m: Metadata)
    requires
        metadata_valid(data),
        model_matches(data, m),
    ensures
        forall|i: int| 0 <= i < m.assemblies@.len() ==> (#[trigger] m.assemblies@[i]).id == AssemblyId(i as usize),
        forall|i: int| 0 <= i < m.images@.len() ==> (#[trigger] m.images@[i]).id == ImageId(i as usize),
        forall|i: int| 0 <= i < m.types@.len() ==> (#[trigger] m.types@[i]).id == TypeId(i as usize),
        forall|i: int| 0 <= i < m.fields@.len() ==> (#[trigger] m.fields@[i]).id == FieldId(i as usize),
        forall|i: int| 0 <= i < m.methods@.len() ==> (#[trigger] m.methods@[i]).id == MethodId(i as usize),
        forall|i: int|
            0 <= i < m.parameters@.len() ==> (#[trigger] m.parameters@[i]).id == ParameterId(i as usize),
        forall|i: int|
            0 <= i < m.properties@.len() ==> (#[trigger] m.properties@[i]).id == PropertyId(i as usize),
        forall|a: int|
            0 <= a < m.assemblies@.len() ==> (#[trigger] m.assemblies@[a]).image.0 < m.images@.len()
                && m.images@[m.assemblies@[a].image.0 as int].assembly == AssemblyId(a as usize),
        forall|i: int, t: int|
            0 <= i < m.images@.len() && 0 <= t < m.types@.len() ==> ((#[trigger] m.images@[i]).types@.contains(
                TypeId(t as usize),
            ) <==> (#[trigger] m.types@[t]).image == ImageId(i as usize)),
        forall|t: int, f: int|
            0 <= t < m.types@.len() && 0 <= f < m.fields@.len() ==> ((#[trigger] m.types@[t]).fields@.contains(
                FieldId(f as usize),
            ) <==> (#[trigger] m.fields@[f]).declaring_type == TypeId(t as usize)),
        forall|t: int, k: int|
            0 <= t < m.types@.len() && 0 <= k < m.methods@.len() ==> ((#[trigger] m.types@[t]).methods@.contains(
                MethodId(k as usize),
            ) <==> (#[trigger] m.methods@[k]).declaring_type == TypeId(t as usize)),
        forall|t: int, k: int|
            0 <= t < m.types@.len() && 0 <= k < m.properties@.len() ==> ((#[trigger] m.types@[t]).properties@.contains(
                PropertyId(k as usize),
            ) <==> (#[trigger] m.properties@[k]).declaring_type == TypeId(t as usize)),
        forall|k: int, p: int|
            0 <= k < m.methods@.len() && 0 <= p < m.parameters@.len() ==> ((#[trigger] m.methods@[k]).parameters@.contains(
                ParameterId(p as usize),
            ) <==> (#[trigger] m.parameters@[p]).declaring_method == MethodId(k as usize)),
{
    let h = spec_v31_header(data);
    let t = spec_raw_tables(data, h);
    assert forall|i: int| 0 <= i < m.assemblies@.len() implies (#[trigger] m.assemblies@[i]).id == AssemblyId(i as usize) by {
        assert(assembly_matches(data, h, i, t.assemblies[i], m.assemblies@[i]));
    }
    assert forall|i: int| 0 <= i < m.images@.len() implies (#[trigger] m.images@[i]).id == ImageId(i as usize) by {
        assert(image_matches(data, h, t, i, t.images[i], m.images@[i]));
    }
    assert forall|i: int| 0 <= i < m.types@.len() implies (#[trigger] m.types@[i]).id == TypeId(i as usize) by {
        assert(type_matches(data, h, t, i, owner_of(image_type_ranges(t.images), t.types.len() as int, i), t.types[i], m.types@[i]));
    }
    assert forall|i: int| 0 <= i < m.fields@.len() implies (#[trigger] m.fields@[i]).id == FieldId(i as usize) by {
        assert(field_matches(data, h, i, owner_of(type_field_ranges(t.types), t.fields.len() as int, i), t.fields[i], m.fields@[i]));
    }
    assert forall|i: int| 0 <= i < m.methods@.len() implies (#[trigger] m.methods@[i]).id == MethodId(i as usize) by {
        assert(method_matches(data, h, t, i, t.methods[i], m.methods@[i]));
    }
    assert forall|i: int| 0 <= i < m.parameters@.len() implies (#[trigger] m.parameters@[i]).id == ParameterId(i as usize) by {
        assert(parameter_matches(data, h, i, owner_of(method_parameter_ranges(t.methods), t.parameters.len() as int, i), t.parameters[i], m.parameters@[i]));
    }
    assert forall|i: int| 0 <= i < m.properties@.len() implies (#[trigger] m.properties@[i]).id == PropertyId(i as usize) by {
        assert(property_matches(data, h, t, i, owner_of(type_property_ranges(t.types), t.properties.len() as int, i), t.properties[i], m.properties@[i]));
    }
    assert forall|a: int| 0 <= a < m.assemblies@.len() implies (#[trigger] m.assemblies@[a]).image.0 < m.images@.len()
        && m.images@[m.assemblies@[a].image.0 as int].assembly == AssemblyId(a as usize) by {
        let raw = t.assemblies[a];
        assert(assembly_matches(data, h, a, raw, m.assemblies@[a]));
        assert(assembly_valid(data, h, t.images, a, raw));
        let i = raw.image_index as int;
        assert(image_matches(data, h, t, i, t.images[i], m.images@[i]));
    }
    assert forall|i: int, k: int|
        0 <= i < m.images@.len() && 0 <= k < m.types@.len() implies ((#[trigger] m.images@[i]).types@.contains(
            TypeId(k as usize),
        ) <==> (#[trigger] m.types@[k]).image == ImageId(i as usize)) by {
        let ranges = image_type_ranges(t.images);
        let total = t.types.len() as int;
        lemma_range_owner(ranges, total, i, k);
        lemma_owner_in_range(ranges, total, k);
        assert(image_matches(data, h, t, i, t.images[i], m.images@[i]));
        assert(type_matches(data, h, t, k, owner_of(ranges, total, k), t.types[k], m.types@[k]));
        assert(ranges[i] == (t.images[i].type_start, t.images[i].type_count as usize));
        lemma_ids_contain(bounds(ranges[i].0, ranges[i].1 as int, total), k);
    }
    assert forall|ty: int, f: int|
        0 <= ty < m.types@.len() && 0 <= f < m.fields@.len() implies ((#[trigger] m.types@[ty]).fields@.contains(
            FieldId(f as usize),
        ) <==> (#[trigger] m.fields@[f]).declaring_type == TypeId(ty as usize)) by {
        let ranges = type_field_ranges(t.types);
        let total = t.fields.len() as int;
        lemma_range_owner(ranges, total, ty, f);
        lemma_owner_in_range(ranges, total, f);
        assert(type_matches(data, h, t, ty, owner_of(image_type_ranges(t.images), t.types.len() as int, ty), t.types[ty], m.types@[ty]));
        assert(field_matches(data, h, f, owner_of(ranges, total, f), t.fields[f], m.fields@[f]));
        assert(ranges[ty] == (t.types[ty].field_start, t.types[ty].field_count as usize));
        lemma_ids_contain(bounds(ranges[ty].0, ranges[ty].1 as int, total), f);
    }
    assert forall|ty: int, k: int|
        0 <= ty < m.types@.len() && 0 <= k < m.properties@.len() implies ((#[trigger] m.types@[ty]).properties@.contains(
            PropertyId(k as usize),
        ) <==> (#[trigger] m.properties@[k]).declaring_type == TypeId(ty as usize)) by {
        let ranges = type_property_ranges(t.types);
        let total = t.properties.len() as int;
        lemma_range_owner(ranges, total, ty, k);
        lemma_owner_in_range(ranges, total, k);
        assert(type_matches(data, h, t, ty, owner_of(image_type_ranges(t.images), t.types.len() as int, ty), t.types[ty], m.types@[ty]));
        assert(property_matches(data, h, t, k, owner_of(ranges, total, k), t.properties[k], m.properties@[k]));
        assert(ranges[ty] == (t.types[ty].property_start, t.types[ty].property_count as usize));
        lemma_ids_contain(bounds(ranges[ty].0, ranges[ty].1 as int, total), k);
    }
    assert forall|ty: int, k: int|
        0 <= ty < m.types@.len() && 0 <= k < m.methods@.len() implies ((#[trigger] m.types@[ty]).methods@.contains(
            MethodId(k as usize),
        ) <==> (#[trigger] m.methods@[k]).declaring_type == TypeId(ty as usize)) by {
        let ranges = type_method_ranges(t.types);
        let total = t.methods.len() as int;
        lemma_range_owner(ranges, total, ty, k);
        lemma_owner_in_range(ranges, total, k);
        assert(type_matches(data, h, t, ty, owner_of(image_type_ranges(t.images), t.types.len() as int, ty), t.types[ty], m.types@[ty]));
        assert(method_matches(data, h, t, k, t.methods[k], m.methods@[k]));
        assert(method_valid(data, h, t, owner_of(ranges, total, k), t.methods[k]));
        assert(ranges[ty] == (t.types[ty].method_start, t.types[ty].method_count as usize));
        lemma_ids_contain(bounds(ranges[ty].0, ranges[ty].1 as int, total), k);
    }
    assert forall|k: int, p: int|
        0 <= k < m.methods@.len() && 0 <= p < m.parameters@.len() implies ((#[trigger] m.methods@[k]).parameters@.contains(
            ParameterId(p as usize),
        ) <==> (#[trigger] m.parameters@[p]).declaring_method == MethodId(k as usize)) by {
        let ranges = method_parameter_ranges(t.methods);
        let total = t.parameters.len() as int;
        lemma_range_owner(ranges, total, k, p);
        lemma_owner_in_range(ranges, total, p);
        assert(method_matches(data, h, t, k, t.methods[k], m.methods@[k]));
        assert(parameter_matches(data, h, p, owner_of(ranges, total, p), t.parameters[p], m.parameters@[p]));
        assert(ranges[k] == (t.methods[k].parameter_start, t.methods[k].parameter_count as usize));
        lemma_ids_contain(bounds(ranges[k].0, ranges[k].1 as int, total), p);
    }
}

} // verus!
