use vstd::prelude::*;

use super::reader::spec_u32;
use crate::{Error, Result};

verus! {

/// Sanity value at the start of an unprotected IL2CPP metadata file.
pub const METADATA_SANITY: u32 = 0xFAB1_1BAF;

/// Number of table descriptors in a version 31 header.
pub const TABLE_COUNT: usize = 31;

/// Byte size of a version 31 header.
pub const HEADER_SIZE: usize = 256;

/// Supported metadata format families.
#[derive(Debug, Clone, Copy, PartialEq, Eq, Hash)]
pub enum MetadataVersion {
    V24,
    V27,
    V29,
    V31,
    Unknown(u32),
}

impl MetadataVersion {
    /// The integer stored in the metadata header for this version.
    pub open spec fn spec_raw(self) -> u32 {
        match self {
            MetadataVersion::V24 => 24,
            MetadataVersion::V27 => 27,
            MetadataVersion::V29 => 29,
            MetadataVersion::V31 => 31,
            MetadataVersion::Unknown(version) => version,
        }
    }

    /// Returns the integer stored in the metadata header.
    pub fn raw(self) -> (r: u32)
        ensures
            r == self.spec_raw(),
    {
        match self {
            MetadataVersion::V24 => 24,
            MetadataVersion::V27 => 27,
            MetadataVersion::V29 => 29,
            MetadataVersion::V31 => 31,
            MetadataVersion::Unknown(version) => version,
        }
    }
}

/// Location of one table inside the metadata file.
#[derive(Debug, Clone, Copy, PartialEq, Eq, Hash)]
pub struct MetadataTable {
    pub offset: usize,
    pub byte_count: usize,
}

impl MetadataTable {
    /// One past the last byte of the table.
    pub open spec fn spec_end(self) -> int {
        self.offset + self.byte_count
    }

    /// The table lies inside a file of `file_size` bytes.
    pub open spec fn fits(self, file_size: int) -> bool {
        self.spec_end() <= file_size
    }

    /// Builds a table descriptor from the two header words.
    pub fn from_raw(offset: u32, byte_count: u32) -> (t: Self)
        ensures
            t.offset == offset,
            t.byte_count == byte_count,
    {
        MetadataTable { offset: offset as usize, byte_count: byte_count as usize }
    }

    /// Checks that the table lies inside the file and returns its end offset.
    pub fn validate(&self, file_size: usize) -> (r: Result<usize>)
        ensures
            self.fits(file_size as int) ==> r == Ok::<usize, Error>(self.spec_end() as usize),
            !self.fits(file_size as int) ==> r == Err::<usize, Error>(
                Error::MetadataOutOfBounds { offset: self.offset, length: self.byte_count },
            ),
    {
        if self.offset <= file_size && self.byte_count <= file_size - self.offset {
            Ok(self.offset + self.byte_count)
        } else {
            Err(Error::MetadataOutOfBounds { offset: self.offset, length: self.byte_count })
        }
    }

    /// Number of `record_size`-byte records stored in the table.
    pub fn entry_count(&self, record_size: usize, file_size: usize) -> (r: Result<usize>)
        requires
            record_size > 0,
        ensures
            !self.fits(file_size as int) ==> r == Err::<usize, Error>(
                Error::MetadataOutOfBounds { offset: self.offset, length: self.byte_count },
            ),
            self.fits(file_size as int) && self.byte_count % record_size != 0 ==> r == Err::<
                usize,
                Error,
            >(Error::InvalidMetadata),
            self.fits(file_size as int) && self.byte_count % record_size == 0 ==> r == Ok::<
                usize,
                Error,
            >(self.byte_count / record_size),
    {
        self.validate(file_size)?;
        if self.byte_count % record_size != 0 {
            return Err(Error::InvalidMetadata);
        }
        Ok(self.byte_count / record_size)
    }
}

/// Validated metadata header: the common prefix and, for version 31, the table descriptors.
#[derive(Debug, Clone, Copy, PartialEq, Eq, Hash)]
pub struct MetadataHeader {
    pub sanity: u32,
    pub version: u32,
    pub string_literals: MetadataTable,
    pub string_literal_data: MetadataTable,
    pub strings: MetadataTable,
    pub events: MetadataTable,
    pub properties: MetadataTable,
    pub methods: MetadataTable,
    pub parameter_default_values: MetadataTable,
    pub field_default_values: MetadataTable,
    pub default_value_data: MetadataTable,
    pub field_marshaled_sizes: MetadataTable,
    pub parameters: MetadataTable,
    pub fields: MetadataTable,
    pub generic_parameters: MetadataTable,
    pub generic_parameter_constraints: MetadataTable,
    pub generic_containers: MetadataTable,
    pub nested_types: MetadataTable,
    pub interfaces: MetadataTable,
    pub vtable_methods: MetadataTable,
    pub interface_offsets: MetadataTable,
    pub type_definitions: MetadataTable,
    pub images: MetadataTable,
    pub assemblies: MetadataTable,
    pub field_refs: MetadataTable,
    pub referenced_assemblies: MetadataTable,
    pub attribute_data: MetadataTable,
    pub attribute_data_ranges: MetadataTable,
    pub unresolved_virtual_call_parameter_types: MetadataTable,
    pub unresolved_virtual_call_parameter_ranges: MetadataTable,
    pub windows_runtime_type_names: MetadataTable,
    pub windows_runtime_strings: MetadataTable,
    pub exported_type_definitions: MetadataTable,
}

/// The table descriptor stored in header slot `index` of `data`.
pub open spec fn spec_table_at(data: Seq<u8>, index: int) -> MetadataTable {
    MetadataTable {
        offset: spec_u32(data, 8 + 8 * index) as usize,
        byte_count: spec_u32(data, 12 + 8 * index) as usize,
    }
}

/// The header that the first bytes of `data` describe, read with the version 31 layout.
pub open spec fn spec_v31_header(data: Seq<u8>) -> MetadataHeader {
    MetadataHeader {
        sanity: spec_u32(data, 0) as u32,
        version: spec_u32(data, 4) as u32,
        string_literals: spec_table_at(data, 0),
        string_literal_data: spec_table_at(data, 1),
        strings: spec_table_at(data, 2),
        events: spec_table_at(data, 3),
        properties: spec_table_at(data, 4),
        methods: spec_table_at(data, 5),
        parameter_default_values: spec_table_at(data, 6),
        field_default_values: spec_table_at(data, 7),
        default_value_data: spec_table_at(data, 8),
        field_marshaled_sizes: spec_table_at(data, 9),
        parameters: spec_table_at(data, 10),
        fields: spec_table_at(data, 11),
        generic_parameters: spec_table_at(data, 12),
        generic_parameter_constraints: spec_table_at(data, 13),
        generic_containers: spec_table_at(data, 14),
        nested_types: spec_table_at(data, 15),
        interfaces: spec_table_at(data, 16),
        vtable_methods: spec_table_at(data, 17),
        interface_offsets: spec_table_at(data, 18),
        type_definitions: spec_table_at(data, 19),
        images: spec_table_at(data, 20),
        assemblies: spec_table_at(data, 21),
        field_refs: spec_table_at(data, 22),
        referenced_assemblies: spec_table_at(data, 23),
        attribute_data: spec_table_at(data, 24),
        attribute_data_ranges: spec_table_at(data, 25),
        unresolved_virtual_call_parameter_types: spec_table_at(data, 26),
        unresolved_virtual_call_parameter_ranges: spec_table_at(data, 27),
        windows_runtime_type_names: spec_table_at(data, 28),
        windows_runtime_strings: spec_table_at(data, 29),
        exported_type_definitions: spec_table_at(data, 30),
    }
}

/// An empty table descriptor.
pub open spec fn empty_table() -> MetadataTable {
    MetadataTable { offset: 0, byte_count: 0 }
}

impl MetadataHeader {
    /// The table descriptor in header slot `index`, in file order.
    pub open spec fn table(self, index: int) -> MetadataTable {
        if index == 0 {
            self.string_literals
        } else if index == 1 {
            self.string_literal_data
        } else if index == 2 {
            self.strings
        } else if index == 3 {
            self.events
        } else if index == 4 {
            self.properties
        } else if index == 5 {
            self.methods
        } else if index == 6 {
            self.parameter_default_values
        } else if index == 7 {
            self.field_default_values
        } else if index == 8 {
            self.default_value_data
        } else if index == 9 {
            self.field_marshaled_sizes
        } else if index == 10 {
            self.parameters
        } else if index == 11 {
            self.fields
        } else if index == 12 {
            self.generic_parameters
        } else if index == 13 {
            self.generic_parameter_constraints
        } else if index == 14 {
            self.generic_containers
        } else if index == 15 {
            self.nested_types
        } else if index == 16 {
            self.interfaces
        } else if index == 17 {
            self.vtable_methods
        } else if index == 18 {
            self.interface_offsets
        } else if index == 19 {
            self.type_definitions
        } else if index == 20 {
            self.images
        } else if index == 21 {
            self.assemblies
        } else if index == 22 {
            self.field_refs
        } else if index == 23 {
            self.referenced_assemblies
        } else if index == 24 {
            self.attribute_data
        } else if index == 25 {
            self.attribute_data_ranges
        } else if index == 26 {
            self.unresolved_virtual_call_parameter_types
        } else if index == 27 {
            self.unresolved_virtual_call_parameter_ranges
        } else if index == 28 {
            self.windows_runtime_type_names
        } else if index == 29 {
            self.windows_runtime_strings
        } else {
            self.exported_type_definitions
        }
    }

    /// Every slot holds the descriptor of `tables` at the same index.
    pub open spec fn has_tables(self, tables: Seq<MetadataTable>) -> bool {
        &&& tables.len() == TABLE_COUNT
        &&& forall|i: int| 0 <= i < TABLE_COUNT ==> #[trigger] self.table(i) == tables[i]
    }

    /// Lists every table descriptor with its name, in header order.
    pub fn tables(&self) -> (r: Vec<(&'static str, MetadataTable)>)
        ensures
            r@.len() == TABLE_COUNT,
            forall|i: int| 0 <= i < TABLE_COUNT ==> (#[trigger] r@[i]).1 == self.table(i),
            forall|i: int| 0 <= i < TABLE_COUNT ==> (#[trigger] r@[i]).0@ == spec_table_name(i as usize),
    {
        let mut r: Vec<(&'static str, MetadataTable)> = Vec::new();
        let mut i: usize = 0;
        while i < TABLE_COUNT
            invariant
                i <= TABLE_COUNT,
                r@.len() == i,
                forall|k: int| 0 <= k < i ==> (#[trigger] r@[k]).1 == self.table(k),
                forall|k: int| 0 <= k < i ==> (#[trigger] r@[k]).0@ == spec_table_name(k as usize),
            decreases TABLE_COUNT - i,
        {
            r.push((table_name(i), self.table_by_index(i)));
            i = i + 1;
        }
        r
    }

    /// The table descriptor in header slot `index`.
    pub fn table_by_index(&self, index: usize) -> (t: MetadataTable)
        requires
            index < TABLE_COUNT,
        ensures
            t == self.table(index as int),
    {
        match index {
            0 => self.string_literals,
            1 => self.string_literal_data,
            2 => self.strings,
            3 => self.events,
            4 => self.properties,
            5 => self.methods,
            6 => self.parameter_default_values,
            7 => self.field_default_values,
            8 => self.default_value_data,
            9 => self.field_marshaled_sizes,
            10 => self.parameters,
            11 => self.fields,
            12 => self.generic_parameters,
            13 => self.generic_parameter_constraints,
            14 => self.generic_containers,
            15 => self.nested_types,
            16 => self.interfaces,
            17 => self.vtable_methods,
            18 => self.interface_offsets,
            19 => self.type_definitions,
            20 => self.images,
            21 => self.assemblies,
            22 => self.field_refs,
            23 => self.referenced_assemblies,
            24 => self.attribute_data,
            25 => self.attribute_data_ranges,
            26 => self.unresolved_virtual_call_parameter_types,
            27 => self.unresolved_virtual_call_parameter_ranges,
            28 => self.windows_runtime_type_names,
            29 => self.windows_runtime_strings,
            _ => self.exported_type_definitions,
        }
    }

    /// Builds a header from the prefix words and the descriptors in slot order.
    pub fn from_tables(sanity: u32, version: u32, tables: &Vec<MetadataTable>) -> (h: Self)
        requires
            tables@.len() == TABLE_COUNT,
        ensures
            h.sanity == sanity,
            h.version == version,
            h.has_tables(tables@),
    {
        let h = MetadataHeader {
            sanity,
            version,
            string_literals: tables[0],
            string_literal_data: tables[1],
            strings: tables[2],
            events: tables[3],
            properties: tables[4],
            methods: tables[5],
            parameter_default_values: tables[6],
            field_default_values: tables[7],
            default_value_data: tables[8],
            field_marshaled_sizes: tables[9],
            parameters: tables[10],
            fields: tables[11],
            generic_parameters: tables[12],
            generic_parameter_constraints: tables[13],
            generic_containers: tables[14],
            nested_types: tables[15],
            interfaces: tables[16],
            vtable_methods: tables[17],
            interface_offsets: tables[18],
            type_definitions: tables[19],
            images: tables[20],
            assemblies: tables[21],
            field_refs: tables[22],
            referenced_assemblies: tables[23],
            attribute_data: tables[24],
            attribute_data_ranges: tables[25],
            unresolved_virtual_call_parameter_types: tables[26],
            unresolved_virtual_call_parameter_ranges: tables[27],
            windows_runtime_type_names: tables[28],
            windows_runtime_strings: tables[29],
            exported_type_definitions: tables[30],
        };
        h
    }

    /// A header that carries only the common prefix; every table is empty.
    pub fn prefix_only(sanity: u32, version: u32) -> (h: Self)
        ensures
            h.sanity == sanity,
            h.version == version,
            forall|i: int| 0 <= i < TABLE_COUNT ==> #[trigger] h.table(i) == empty_table(),
    {
        let e = MetadataTable { offset: 0, byte_count: 0 };
        MetadataHeader {
            sanity,
            version,
            string_literals: e,
            string_literal_data: e,
            strings: e,
            events: e,
            properties: e,
            methods: e,
            parameter_default_values: e,
            field_default_values: e,
            default_value_data: e,
            field_marshaled_sizes: e,
            parameters: e,
            fields: e,
            generic_parameters: e,
            generic_parameter_constraints: e,
            generic_containers: e,
            nested_types: e,
            interfaces: e,
            vtable_methods: e,
            interface_offsets: e,
            type_definitions: e,
            images: e,
            assemblies: e,
            field_refs: e,
            referenced_assemblies: e,
            attribute_data: e,
            attribute_data_ranges: e,
            unresolved_virtual_call_parameter_types: e,
            unresolved_virtual_call_parameter_ranges: e,
            windows_runtime_type_names: e,
            windows_runtime_strings: e,
            exported_type_definitions: e,
        }
    }
}

/// The name of the table in header slot `index`; slots past the last name the last table.
pub open spec fn spec_table_name(index: usize) -> Seq<char> {
    match index {
        0 => "string_literals"@,
        1 => "string_literal_data"@,
        2 => "strings"@,
        3 => "events"@,
        4 => "properties"@,
        5 => "methods"@,
        6 => "parameter_default_values"@,
        7 => "field_default_values"@,
        8 => "default_value_data"@,
        9 => "field_marshaled_sizes"@,
        10 => "parameters"@,
        11 => "fields"@,
        12 => "generic_parameters"@,
        13 => "generic_parameter_constraints"@,
        14 => "generic_containers"@,
        15 => "nested_types"@,
        16 => "interfaces"@,
        17 => "vtable_methods"@,
        18 => "interface_offsets"@,
        19 => "type_definitions"@,
        20 => "images"@,
        21 => "assemblies"@,
        22 => "field_refs"@,
        23 => "referenced_assemblies"@,
        24 => "attribute_data"@,
        25 => "attribute_data_ranges"@,
        26 => "unresolved_virtual_call_parameter_types"@,
        27 => "unresolved_virtual_call_parameter_ranges"@,
        28 => "windows_runtime_type_names"@,
        29 => "windows_runtime_strings"@,
        _ => "exported_type_definitions"@,
    }
}

/// Name of the table in header slot `index`.
pub fn table_name(index: usize) -> (r: &'static str)
    ensures
        r@ == spec_table_name(index),
{
    match index {
        0 => "string_literals",
        1 => "string_literal_data",
        2 => "strings",
        3 => "events",
        4 => "properties",
        5 => "methods",
        6 => "parameter_default_values",
        7 => "field_default_values",
        8 => "default_value_data",
        9 => "field_marshaled_sizes",
        10 => "parameters",
        11 => "fields",
        12 => "generic_parameters",
        13 => "generic_parameter_constraints",
        14 => "generic_containers",
        15 => "nested_types",
        16 => "interfaces",
        17 => "vtable_methods",
        18 => "interface_offsets",
        19 => "type_definitions",
        20 => "images",
        21 => "assemblies",
        22 => "field_refs",
        23 => "referenced_assemblies",
        24 => "attribute_data",
        25 => "attribute_data_ranges",
        26 => "unresolved_virtual_call_parameter_types",
        27 => "unresolved_virtual_call_parameter_ranges",
        28 => "windows_runtime_type_names",
        29 => "windows_runtime_strings",
        _ => "exported_type_definitions",
    }
}

} // verus!
