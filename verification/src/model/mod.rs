//! Normalized IL2CPP domain models, independent of raw metadata layouts.
pub mod string_literal;
pub mod ty;
pub mod type_ref;

use vstd::prelude::*;

pub use string_literal::{StringLiteral, StringLiteralId};
pub use ty::{TypeDefinition, TypeId, TypeIndex, TypeKind};
pub use type_ref::TypeRef;

verus! {

/// Stable index into a project's assembly collection.
#[derive(Debug, Clone, Copy, PartialEq, Eq, Hash, Structural)]
pub struct AssemblyId(pub usize);

/// Normalized managed assembly.
#[derive(Debug, Clone, PartialEq, Eq, Hash)]
pub struct Assembly {
    pub id: AssemblyId,
    pub name: String,
    pub image: ImageId,
}

/// Stable index into a project's field collection.
#[derive(Debug, Clone, Copy, PartialEq, Eq, Hash, Structural)]
pub struct FieldId(pub usize);

/// Normalized managed field and optional runtime offset.
#[derive(Debug, Clone, PartialEq, Eq, Hash)]
pub struct Field {
    pub id: FieldId,
    pub declaring_type: TypeId,
    pub name: String,
    pub field_type: TypeIndex,
    pub token: u32,
    pub offset: Option<u64>,
}

#[derive(Debug, Clone, Copy, PartialEq, Eq, Hash, Structural)]
pub struct GenericContainerId(pub usize);

#[derive(Debug, Clone, Copy, PartialEq, Eq, Hash, Structural)]
pub struct GenericParameterId(pub usize);

/// Declaration that owns a generic container.
#[derive(Debug, Clone, Copy, PartialEq, Eq, Hash, Structural)]
pub enum GenericOwner {
    Type(TypeId),
    Method(MethodId),
}

/// Generic parameter list of a type or method.
#[derive(Debug, Clone, PartialEq, Eq, Hash)]
pub struct GenericContainer {
    pub id: GenericContainerId,
    pub owner: GenericOwner,
    pub parameters: Vec<GenericParameterId>,
}

/// One generic parameter and its constraints.
#[derive(Debug, Clone, PartialEq, Eq, Hash)]
pub struct GenericParameter {
    pub id: GenericParameterId,
    pub container: GenericContainerId,
    pub name: String,
    pub position: u16,
    pub flags: u16,
    pub constraints: Vec<TypeIndex>,
}

/// Stable index into a project's managed image collection.
#[derive(Debug, Clone, Copy, PartialEq, Eq, Hash, Structural)]
pub struct ImageId(pub usize);

/// Normalized managed image belonging to an assembly.
#[derive(Debug, Clone, PartialEq, Eq, Hash)]
pub struct Image {
    pub id: ImageId,
    pub assembly: AssemblyId,
    pub name: String,
    pub types: Vec<TypeId>,
}

/// Stable index into a project's method collection.
#[derive(Debug, Clone, Copy, PartialEq, Eq, Hash, Structural)]
pub struct MethodId(pub usize);

/// Normalized managed method and optional native address mapping.
#[derive(Debug, Clone, PartialEq, Eq, Hash)]
pub struct Method {
    pub id: MethodId,
    pub declaring_type: TypeId,
    pub name: String,
    pub return_type: TypeIndex,
    pub return_parameter_token: u32,
    pub parameters: Vec<ParameterId>,
    pub generic_container_index: Option<usize>,
    pub token: u32,
    pub flags: u16,
    pub implementation_flags: u16,
    pub slot: u16,
    pub relative_address: Option<u64>,
    pub virtual_address: Option<u64>,
}

/// Stable index into a project's parameter collection.
#[derive(Debug, Clone, Copy, PartialEq, Eq, Hash, Structural)]
pub struct ParameterId(pub usize);

/// Normalized managed method parameter.
#[derive(Debug, Clone, PartialEq, Eq, Hash)]
pub struct Parameter {
    pub id: ParameterId,
    pub declaring_method: MethodId,
    pub name: String,
    pub parameter_type: TypeIndex,
    pub token: u32,
}

/// Stable index into a project's property collection.
#[derive(Debug, Clone, Copy, PartialEq, Eq, Hash, Structural)]
pub struct PropertyId(pub usize);

/// Normalized managed property.
#[derive(Debug, Clone, PartialEq, Eq, Hash)]
pub struct Property {
    pub id: PropertyId,
    pub declaring_type: TypeId,
    pub name: String,
    pub getter: Option<MethodId>,
    pub setter: Option<MethodId>,
    pub attributes: u32,
    pub token: u32,
}

} // verus!
