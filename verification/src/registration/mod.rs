//! Pluggable discovery of IL2CPP runtime registration structures.
pub mod discovery;
pub mod index;
pub mod native;
pub mod runtime;

use vstd::prelude::*;

use crate::binary::BinaryImage;
use crate::metadata::Metadata;
use crate::{Error, Result};

pub use index::NativeMethodIndex;
pub use native::{method_pointer_index, CodeGenModule, MethodAddress, RegistrationInfo};
pub use runtime::RuntimeMetadata;

verus! {

/// Addresses of the native IL2CPP registration structures.
#[derive(Debug, Clone, Copy, Default, PartialEq, Eq, Hash, Structural)]
pub struct Registration {
    pub code_registration: Option<u64>,
    pub metadata_registration: Option<u64>,
}

/// Strategy for locating IL2CPP registration structures in a binary.
pub trait RegistrationResolver {
    fn resolve<B: BinaryImage>(&self, binary: &B, metadata: &Metadata) -> Result<Registration>;
}

/// Registration strategy using addresses supplied by a caller.
#[derive(Debug, Clone, Copy)]
pub struct ManualResolver {
    registration: Registration,
}

impl View for ManualResolver {
    type V = Registration;

    closed spec fn view(&self) -> Registration {
        self.registration
    }
}

impl ManualResolver {
    /// Creates a resolver that returns the supplied addresses unchanged.
    pub fn new(registration: Registration) -> (r: ManualResolver)
        ensures
            r@ == registration,
    {
        ManualResolver { registration }
    }
}

impl RegistrationResolver for ManualResolver {
    fn resolve<B: BinaryImage>(&self, binary: &B, metadata: &Metadata) -> (r: Result<Registration>)
        ensures
            r == Ok::<Registration, Error>(self@),
    {
        Ok(self.registration)
    }
}

/// Registration strategy using executable patterns and metadata counts.
#[derive(Debug, Default)]
pub struct HeuristicResolver;

impl RegistrationResolver for HeuristicResolver {
    fn resolve<B: BinaryImage>(&self, binary: &B, metadata: &Metadata) -> (r: Result<Registration>)
        ensures
            r == Err::<Registration, Error>(Error::RegistrationNotFound),
    {
        Err(Error::RegistrationNotFound)
    }
}

/// Registration strategy using exported or debug symbols.
#[derive(Debug, Default)]
pub struct SymbolResolver;

impl RegistrationResolver for SymbolResolver {
    fn resolve<B: BinaryImage>(&self, binary: &B, metadata: &Metadata) -> (r: Result<Registration>)
        ensures
            r == Err::<Registration, Error>(Error::RegistrationNotFound),
    {
        Err(Error::RegistrationNotFound)
    }
}

} // verus!
