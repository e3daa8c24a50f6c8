//! Metadata-version dispatch. Format differences belong in this module tree.
pub mod v31;

use vstd::prelude::*;

use super::header::MetadataVersion;
use super::MetadataRecordSizes;
use crate::{Error, Result};

verus! {

/// The version family for a raw header version, if it is one this crate knows.
pub open spec fn spec_resolve(version: u32) -> Option<MetadataVersion> {
    if version == 29 {
        Some(MetadataVersion::V29)
    } else if version == 31 {
        Some(MetadataVersion::V31)
    } else {
        None
    }
}

/// Maps a raw header version to its format family.
pub fn resolve(version: u32) -> (r: Result<MetadataVersion>)
    ensures
        spec_resolve(version) matches Some(v) ==> r == Ok::<MetadataVersion, Error>(v),
        spec_resolve(version) is None ==> r == Err::<MetadataVersion, Error>(
            Error::UnsupportedMetadataVersion(version),
        ),
        r matches Ok(v) ==> v.spec_raw() == version,
{
    match version {
        29 => Ok(MetadataVersion::V29),
        31 => Ok(MetadataVersion::V31),
        unsupported => Err(Error::UnsupportedMetadataVersion(unsupported)),
    }
}

/// Record widths of the version 31 tables.
pub fn record_sizes() -> (r: MetadataRecordSizes)
    ensures
        r == (MetadataRecordSizes {
            image: v31::IMAGE_SIZE,
            assembly: v31::ASSEMBLY_SIZE,
            type_definition: v31::TYPE_DEFINITION_SIZE,
            field: v31::FIELD_SIZE,
            method: v31::METHOD_SIZE,
            parameter: v31::PARAMETER_SIZE,
        }),
{
    MetadataRecordSizes {
        image: v31::IMAGE_SIZE,
        assembly: v31::ASSEMBLY_SIZE,
        type_definition: v31::TYPE_DEFINITION_SIZE,
        field: v31::FIELD_SIZE,
        method: v31::METHOD_SIZE,
        parameter: v31::PARAMETER_SIZE,
    }
}

} // verus!
