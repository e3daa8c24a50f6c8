use vstd::prelude::*;

use super::{FieldId, ImageId, MethodId, PropertyId};

verus! {

/// Stable index into a project's type collection.
#[derive(Debug, Clone, Copy, PartialEq, Eq, Hash, Structural)]
pub struct TypeId(pub usize);

/// Index into runtime IL2CPP type metadata.
#[derive(Debug, Clone, Copy, PartialEq, Eq, Hash, Structural)]
pub struct TypeIndex(pub usize);

/// Normalized managed type definition.
#[derive(Debug, Clone, PartialEq, Eq, Hash)]
pub struct TypeDefinition {
    pub id: TypeId,
    pub image: ImageId,
    pub namespace: String,
    pub name: String,
    pub byval_type: TypeIndex,
    pub declaring_type: Option<TypeIndex>,
    pub parent: Option<TypeIndex>,
    pub element_type: Option<TypeIndex>,
    pub generic_container_index: Option<usize>,
    pub flags: u32,
    pub bitfield: u32,
    pub token: u32,
    pub methods: Vec<MethodId>,
    pub fields: Vec<FieldId>,
    pub properties: Vec<PropertyId>,
    pub nested_types: Vec<TypeId>,
    pub interfaces: Vec<TypeIndex>,
}

/// C#-relevant category encoded by one metadata type definition.
#[derive(Debug, Clone, Copy, PartialEq, Eq, Hash, Structural)]
pub enum TypeKind {
    Class,
    Struct,
    Interface,
    Enum,
}

/// Type attribute flag marking an interface.
pub const INTERFACE_FLAG: u32 = 0x20;

/// Bitfield bit marking a value type.
pub const VALUE_TYPE_BIT: u32 = 1;

/// Bitfield bit marking an enum.
pub const ENUM_TYPE_BIT: u32 = 2;

/// Category of a type from its attribute flags and bitfield: the interface flag wins over
/// the enum bit, which wins over the value-type bit; anything else is a class.
pub open spec fn spec_kind(flags: u32, bitfield: u32) -> TypeKind {
    if flags & INTERFACE_FLAG != 0 {
        TypeKind::Interface
    } else if bitfield & ENUM_TYPE_BIT != 0 {
        TypeKind::Enum
    } else if bitfield & VALUE_TYPE_BIT != 0 {
        TypeKind::Struct
    } else {
        TypeKind::Class
    }
}

impl TypeDefinition {
    pub fn kind(&self) -> (k: TypeKind)
        ensures
            k == spec_kind(self.flags, self.bitfield),
    {
        if self.flags & INTERFACE_FLAG != 0 {
            TypeKind::Interface
        } else if self.bitfield & ENUM_TYPE_BIT != 0 {
            TypeKind::Enum
        } else if self.bitfield & VALUE_TYPE_BIT != 0 {
            TypeKind::Struct
        } else {
            TypeKind::Class
        }
    }
}

} // verus!
