//! A loaded executable and its matching normalized IL2CPP metadata.
use vstd::prelude::*;

use crate::binary::elf::{object_accepts, ElfImage};
use crate::binary::{Architecture, BinaryFormat, BinaryImage, BinaryKind, Endianness};
use crate::metadata::parser::{metadata_valid, model_matches, parse_outcome};
use crate::metadata::{Metadata, MetadataVersion};
use crate::registration::discovery::discovery_contract;
use crate::registration::index::{first_resolution_error, index_describes, resolutions_succeed, resolved_addresses};
use crate::registration::runtime::spec_runtime_parts;
use crate::registration::{NativeMethodIndex, Registration, RegistrationInfo, RuntimeMetadata};
use crate::{Error, Result};

verus! {

/// A loaded executable and its matching normalized IL2CPP metadata.
pub struct Il2CppProject {
    binary: ElfImage,
    binary_format: BinaryFormat,
    metadata: Metadata,
    registration_info: Option<RegistrationInfo>,
    runtime_metadata: Option<RuntimeMetadata>,
    native_methods: Option<NativeMethodIndex>,
}

impl Il2CppProject {
    #[verifier::type_invariant]
    closed spec fn well_formed(self) -> bool {
        &&& self.runtime_metadata is Some ==> self.registration_info is Some
        &&& self.native_methods is Some ==> self.registration_info is Some
    }

    /// The executable image.
    pub closed spec fn spec_binary(&self) -> ElfImage {
        self.binary
    }

    /// The normalized metadata.
    pub closed spec fn spec_metadata(&self) -> Metadata {
        self.metadata
    }

    /// The discovered registrations, if discovery has run.
    pub closed spec fn spec_registration_info(&self) -> Option<RegistrationInfo> {
        self.registration_info
    }

    /// The runtime type table, if analysis has been prepared.
    pub closed spec fn spec_runtime(&self) -> Option<RuntimeMetadata> {
        self.runtime_metadata
    }

    /// The native method index, if analysis has been prepared.
    pub closed spec fn spec_native_methods(&self) -> Option<NativeMethodIndex> {
        self.native_methods
    }

    /// A project with nothing discovered yet.
    pub open spec fn fresh(&self) -> bool {
        &&& self.spec_registration_info() is None
        &&& self.spec_runtime() is None
        &&& self.spec_native_methods() is None
    }

    /// Loads an ELF64 binary and an unprotected `global-metadata.dat` payload.
    pub fn load(binary: Vec<u8>, metadata: &[u8]) -> (r: Result<Il2CppProject>)
        ensures
            !object_accepts(binary@) ==> r == Err::<Il2CppProject, Error>(Error::InvalidBinary),
            object_accepts(binary@) ==> (r is Ok <==> metadata_valid(metadata@)),
            object_accepts(binary@) ==> (r matches Err(e) ==> parse_outcome(
                metadata@,
                Err::<Metadata, Error>(e),
            )),
            r matches Ok(project) ==> {
                &&& project.fresh()
                &&& project.spec_binary().bytes() == binary@
                &&& model_matches(metadata@, project.spec_metadata())
            },
    {
        let image = ElfImage::parse(binary)?;
        let metadata = Metadata::from_bytes(metadata)?;
        Ok(
            Il2CppProject {
                binary: image,
                binary_format: BinaryFormat::Elf64,
                metadata,
                registration_info: None,
                runtime_metadata: None,
                native_methods: None,
            },
        )
    }

    /// Loads metadata without an executable: registration, addresses and native inspection
    /// are unavailable, and the stand-in image maps nothing.
    pub fn load_metadata_only(metadata: &[u8]) -> (r: Result<Il2CppProject>)
        ensures
            r is Ok <==> metadata_valid(metadata@),
            r matches Err(e) ==> parse_outcome(metadata@, Err::<Metadata, Error>(e)),
            r matches Ok(project) ==> {
                &&& project.fresh()
                &&& project.spec_binary().bytes().len() == 0
                &&& project.spec_binary().spec_segments().len() == 0
                &&& project.spec_binary().spec_architecture() == Architecture::Unknown
                &&& model_matches(metadata@, project.spec_metadata())
            },
    {
        let metadata = Metadata::from_bytes(metadata)?;
        let binary = ElfImage::from_parts(
            Vec::new(),
            Architecture::Unknown,
            Endianness::Little,
            BinaryKind::Unknown,
            0,
            0,
            Vec::new(),
            Vec::new(),
            Vec::new(),
            true,
        );
        Ok(
            Il2CppProject {
                binary,
                binary_format: BinaryFormat::Elf64,
                metadata,
                registration_info: None,
                runtime_metadata: None,
                native_methods: None,
            },
        )
    }

    /// Returns the executable-format family.
    pub fn binary_format(&self) -> (r: BinaryFormat)
        ensures
            r == BinaryFormat::Elf64,
    {
        BinaryFormat::Elf64
    }

    /// Returns the executable architecture.
    pub fn architecture(&self) -> (r: Architecture)
        ensures
            r == self.spec_binary().spec_architecture(),
    {
        self.binary.architecture()
    }

    /// Returns the parsed metadata version.
    pub fn metadata_version(&self) -> (r: MetadataVersion)
        ensures
            r == self.spec_metadata().version,
    {
        self.metadata.version
    }

    /// Returns the normalized metadata model.
    pub fn metadata(&self) -> (r: &Metadata)
        ensures
            *r == self.spec_metadata(),
    {
        &self.metadata
    }

    /// Returns the executable image.
    pub fn binary(&self) -> (r: &ElfImage)
        ensures
            *r == self.spec_binary(),
    {
        &self.binary
    }

    /// Returns resolved registration addresses, if discovery has run.
    pub fn registration(&self) -> (r: Option<&Registration>)
        ensures
            match self.spec_registration_info() {
                Some(info) => r == Some(&info.registration),
                None => r is None,
            },
    {
        match &self.registration_info {
            Some(info) => Some(&info.registration),
            None => None,
        }
    }

    /// Returns native method mappings once analysis has been prepared.
    pub fn native_methods(&self) -> (r: Option<&NativeMethodIndex>)
        ensures
            match self.spec_native_methods() {
                Some(index) => r == Some(&index),
                None => r is None,
            },
    {
        match &self.native_methods {
            Some(index) => Some(index),
            None => None,
        }
    }

    /// Returns runtime type and field metadata once analysis has been prepared.
    pub fn runtime_metadata(&self) -> (r: Option<&RuntimeMetadata>)
        ensures
            match self.spec_runtime() {
                Some(runtime) => r == Some(&runtime),
                None => r is None,
            },
    {
        match &self.runtime_metadata {
            Some(runtime) => Some(runtime),
            None => None,
        }
    }

    /// Discovers native registration roots once and keeps them on this project.
    pub fn discover_registration(&mut self) -> (r: Result<Registration>)
        ensures
            final(self).spec_binary() == old(self).spec_binary(),
            final(self).spec_metadata() == old(self).spec_metadata(),
            final(self).spec_runtime() == old(self).spec_runtime(),
            final(self).spec_native_methods() == old(self).spec_native_methods(),
            old(self).spec_registration_info() matches Some(info) ==> r == Ok::<
                Registration,
                Error,
            >(info.registration) && final(self).spec_registration_info() == Some(info),
            old(self).spec_registration_info() is None ==> match r {
                Ok(registration) => final(self).spec_registration_info() matches Some(info)
                    && info.registration == registration && discovery_contract(
                    &old(self).spec_binary(),
                    old(self).spec_metadata(),
                    Ok::<RegistrationInfo, Error>(info),
                ),
                Err(e) => final(self).spec_registration_info() is None && discovery_contract(
                    &old(self).spec_binary(),
                    old(self).spec_metadata(),
                    Err::<RegistrationInfo, Error>(e),
                ),
            },
    {
        proof {
            use_type_invariant(&*self);
        }
        match &self.registration_info {
            Some(info) => {
                return Ok(info.registration);
            },
            None => {},
        }
        let info = RegistrationInfo::discover(&self.binary, &self.metadata)?;
        let registration = info.registration;
        self.registration_info = Some(info);
        Ok(registration)
    }

    /// Discovers registrations, runtime type data, field offsets, and native method mappings.
    pub fn prepare_analysis(&mut self) -> (r: Result<()>)
        ensures
            final(self).spec_binary() == old(self).spec_binary(),
            final(self).spec_metadata() == old(self).spec_metadata(),
            old(self).spec_native_methods() is Some && old(self).spec_runtime() is Some ==> r
                is Ok && final(self).spec_registration_info() == old(
                self,
            ).spec_registration_info() && final(self).spec_runtime() == old(self).spec_runtime()
                && final(self).spec_native_methods() == old(self).spec_native_methods(),
            !(old(self).spec_native_methods() is Some && old(self).spec_runtime() is Some)
                ==> preparation(*old(self), *final(self), r),
            r is Ok ==> final(self).spec_registration_info() is Some && final(self).spec_runtime()
                is Some && final(self).spec_native_methods() is Some,
            r is Ok && !(old(self).spec_native_methods() is Some && old(self).spec_runtime()
                is Some) ==> runtime_prepared(
                final(self).spec_binary(),
                final(self).spec_metadata(),
                final(self).spec_registration_info()->0,
                final(self).spec_runtime()->0,
            ),
    {
        proof {
            use_type_invariant(&*self);
        }
        if self.native_methods.is_some() && self.runtime_metadata.is_some() {
            return Ok(());
        }
        self.discover_registration()?;
        proof {
            use_type_invariant(&*self);
        }
        let info = match &self.registration_info {
            Some(info) => info,
            None => return Err(Error::RegistrationNotFound),
        };
        let runtime = info.runtime_metadata(&self.binary, &self.metadata)?;
        self.runtime_metadata = Some(runtime);
        let index = NativeMethodIndex::build(&self.binary, &self.metadata, info)?;
        self.native_methods = Some(index);
        Ok(())
    }
}

/// Preparing `before` gives `after` and `r`, step by step: the registration already found or
/// the one discovery finds; the runtime type table its metadata registration yields; then the
/// index of every method's native address. The first step that fails gives the error, and
/// what that step and later ones would set stays as it was.
pub open spec fn preparation(before: Il2CppProject, after: Il2CppProject, r: Result<()>) -> bool {
    let binary = before.spec_binary();
    let metadata = before.spec_metadata();
    let n = metadata.methods@.len();
    &&& (before.spec_registration_info() matches Some(info) ==> after.spec_registration_info()
        == Some(info))
    &&& (before.spec_registration_info() is None ==> match after.spec_registration_info() {
        Some(info) => discovery_contract(&binary, metadata, Ok::<RegistrationInfo, Error>(info)),
        None => r matches Err(e) && discovery_contract(
            &binary,
            metadata,
            Err::<RegistrationInfo, Error>(e),
        ) && after.spec_runtime() == before.spec_runtime() && after.spec_native_methods()
            == before.spec_native_methods(),
    })
    &&& (after.spec_registration_info() matches Some(info) ==> match info.registration.metadata_registration {
        None => r == Err::<(), Error>(Error::RegistrationNotFound) && after.spec_runtime()
            == before.spec_runtime() && after.spec_native_methods() == before.spec_native_methods(),
        Some(base) => match spec_runtime_parts(&binary, metadata, base) {
            Err(e) => r == Err::<(), Error>(e) && after.spec_runtime() == before.spec_runtime()
                && after.spec_native_methods() == before.spec_native_methods(),
            Ok(parts) => {
                &&& after.spec_runtime() matches Some(runtime) && runtime.types() == parts.0
                    && runtime.offsets() == parts.1
                &&& resolutions_succeed(info, &binary, metadata, n) ==> (r is Ok
                    && (after.spec_native_methods() matches Some(index) && index_describes(
                    index,
                    resolved_addresses(info, &binary, metadata, n),
                    n,
                )))
                &&& !resolutions_succeed(info, &binary, metadata, n) ==> (r matches Err(e)
                    && first_resolution_error(info, &binary, metadata, e)
                    && after.spec_native_methods() == before.spec_native_methods())
            },
        },
    })
}

/// `runtime` is what the metadata registration of `info` yields for the image.
pub open spec fn runtime_prepared(
    binary: ElfImage,
    metadata: Metadata,
    info: RegistrationInfo,
    runtime: RuntimeMetadata,
) -> bool {
    info.registration.metadata_registration matches Some(base) && spec_runtime_parts(
        &binary,
        metadata,
        base,
    ) matches Ok(parts) && runtime.types() == parts.0 && runtime.offsets() == parts.1
}

} // verus!
