use vstd::prelude::*;

verus! {

/// Errors produced while loading or analyzing IL2CPP data.
#[derive(Debug, Clone, Copy, PartialEq, Eq)]
pub enum Error {
    InvalidMetadata,
    MetadataOutOfBounds { offset: usize, length: usize },
    InvalidMetadataTable(&'static str),
    InvalidMetadataString(u32),
    InvalidStringLiteral(usize),
    UnsupportedMetadataVersion(u32),
    InvalidBinary,
    UnsupportedArchitecture,
    AddressTranslationFailed,
    RegistrationNotFound,
    InvalidTypeIndex(usize),
    RecursiveTypeReference(u64),
}

/// Result type used by this crate.
pub type Result<T> = core::result::Result<T, Error>;

} // verus!
