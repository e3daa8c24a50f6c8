use vstd::prelude::*;

use super::{GenericParameterId, TypeId};

verus! {

/// Version-independent IL2CPP type expression.
#[derive(Debug, PartialEq, Eq)]
pub enum TypeRef {
    Void,
    Boolean,
    Char,
    I8,
    U8,
    I16,
    U16,
    I32,
    U32,
    I64,
    U64,
    F32,
    F64,
    String,
    Object,
    IntPtr,
    UIntPtr,
    TypedReference,
    Type(TypeId),
    Array { element: Box<TypeRef>, rank: usize, zero_based: bool },
    Pointer(Box<TypeRef>),
    ByRef(Box<TypeRef>),
    GenericParameter { id: GenericParameterId, name: String, method: bool },
    GenericInstance { base: Box<TypeRef>, arguments: Vec<TypeRef> },
    FunctionPointer,
    Unknown { type_index: Option<usize>, raw_type: Option<u8> },
}


/// Mathematical form of a type expression: names as character sequences and argument
/// lists as sequences.
pub enum TypeShape {
    Void,
    Boolean,
    Char,
    I8,
    U8,
    I16,
    U16,
    I32,
    U32,
    I64,
    U64,
    F32,
    F64,
    String,
    Object,
    IntPtr,
    UIntPtr,
    TypedReference,
    Type(TypeId),
    Array { element: Box<TypeShape>, rank: usize, zero_based: bool },
    Pointer(Box<TypeShape>),
    ByRef(Box<TypeShape>),
    GenericParameter { id: GenericParameterId, name: Seq<char>, method: bool },
    GenericInstance { base: Box<TypeShape>, arguments: Seq<TypeShape> },
    FunctionPointer,
    Unknown { type_index: Option<usize>, raw_type: Option<u8> },
}

/// The shape of a type expression.
pub open spec fn shape_of(t: TypeRef) -> TypeShape
    decreases t, 0nat,
{
    match t {
        TypeRef::Void => TypeShape::Void,
        TypeRef::Boolean => TypeShape::Boolean,
        TypeRef::Char => TypeShape::Char,
        TypeRef::I8 => TypeShape::I8,
        TypeRef::U8 => TypeShape::U8,
        TypeRef::I16 => TypeShape::I16,
        TypeRef::U16 => TypeShape::U16,
        TypeRef::I32 => TypeShape::I32,
        TypeRef::U32 => TypeShape::U32,
        TypeRef::I64 => TypeShape::I64,
        TypeRef::U64 => TypeShape::U64,
        TypeRef::F32 => TypeShape::F32,
        TypeRef::F64 => TypeShape::F64,
        TypeRef::String => TypeShape::String,
        TypeRef::Object => TypeShape::Object,
        TypeRef::IntPtr => TypeShape::IntPtr,
        TypeRef::UIntPtr => TypeShape::UIntPtr,
        TypeRef::TypedReference => TypeShape::TypedReference,
        TypeRef::Type(id) => TypeShape::Type(id),
        TypeRef::Array { element, rank, zero_based } => TypeShape::Array {
            element: Box::new(shape_of(*element)),
            rank,
            zero_based,
        },
        TypeRef::Pointer(inner) => TypeShape::Pointer(Box::new(shape_of(*inner))),
        TypeRef::ByRef(inner) => TypeShape::ByRef(Box::new(shape_of(*inner))),
        TypeRef::GenericParameter { id, name, method } => TypeShape::GenericParameter {
            id,
            name: name@,
            method,
        },
        TypeRef::GenericInstance { base, arguments } => {
            proof {
                broadcast use vstd::std_specs::vec::axiom_vec_decreases_to_view;
            }
            TypeShape::GenericInstance {
                base: Box::new(shape_of(*base)),
                arguments: shapes_of(arguments@, arguments@.len()),
            }
        },
        TypeRef::FunctionPointer => TypeShape::FunctionPointer,
        TypeRef::Unknown { type_index, raw_type } => TypeShape::Unknown { type_index, raw_type },
    }
}

/// The shapes of the first `n` type expressions.
pub open spec fn shapes_of(types: Seq<TypeRef>, n: nat) -> Seq<TypeShape>
    decreases types, n,
{
    if n == 0 || n > types.len() {
        Seq::empty()
    } else {
        shapes_of(types, (n - 1) as nat).push(shape_of(types[n - 1]))
    }
}

impl View for TypeRef {
    type V = TypeShape;

    open spec fn view(&self) -> TypeShape {
        shape_of(*self)
    }
}

proof fn lemma_shapes_agree(a: Seq<TypeRef>, b: Seq<TypeRef>, n: nat)
    requires
        n <= a.len(),
        n <= b.len(),
        forall|k: int| 0 <= k < n ==> shape_of(#[trigger] a[k]) == shape_of(b[k]),
    ensures
        shapes_of(a, n) == shapes_of(b, n),
    decreases n,
{
    if n > 0 {
        lemma_shapes_agree(a, b, (n - 1) as nat);
    }
}

/// A copy of a type expression.
#[verifier::loop_isolation(false)]
pub fn copy_type_ref(t: &TypeRef) -> (r: TypeRef)
    ensures
        r@ == t@,
    decreases t,
{
    match t {
        TypeRef::Void => TypeRef::Void,
        TypeRef::Boolean => TypeRef::Boolean,
        TypeRef::Char => TypeRef::Char,
        TypeRef::I8 => TypeRef::I8,
        TypeRef::U8 => TypeRef::U8,
        TypeRef::I16 => TypeRef::I16,
        TypeRef::U16 => TypeRef::U16,
        TypeRef::I32 => TypeRef::I32,
        TypeRef::U32 => TypeRef::U32,
        TypeRef::I64 => TypeRef::I64,
        TypeRef::U64 => TypeRef::U64,
        TypeRef::F32 => TypeRef::F32,
        TypeRef::F64 => TypeRef::F64,
        TypeRef::String => TypeRef::String,
        TypeRef::Object => TypeRef::Object,
        TypeRef::IntPtr => TypeRef::IntPtr,
        TypeRef::UIntPtr => TypeRef::UIntPtr,
        TypeRef::TypedReference => TypeRef::TypedReference,
        TypeRef::Type(id) => TypeRef::Type(*id),
        TypeRef::Array { element, rank, zero_based } => TypeRef::Array {
            element: Box::new(copy_type_ref(element)),
            rank: *rank,
            zero_based: *zero_based,
        },
        TypeRef::Pointer(inner) => TypeRef::Pointer(Box::new(copy_type_ref(inner))),
        TypeRef::ByRef(inner) => TypeRef::ByRef(Box::new(copy_type_ref(inner))),
        TypeRef::GenericParameter { id, name, method } => TypeRef::GenericParameter {
            id: *id,
            name: name.clone(),
            method: *method,
        },
        TypeRef::GenericInstance { base, arguments } => {
            let mut copied: Vec<TypeRef> = Vec::new();
            let mut i: usize = 0;
            while i < arguments.len()
                invariant
                    i <= arguments@.len(),
                    copied@.len() == i,
                    forall|k: int| 0 <= k < i ==> shape_of(#[trigger] copied@[k]) == shape_of(
                        arguments@[k],
                    ),
                decreases arguments@.len() - i,
            {
                proof {
                    broadcast use vstd::std_specs::vec::axiom_vec_index_decreases;

                    assert(decreases_to!(*t => *arguments));
                    assert(decreases_to!(*arguments => arguments[i as int]));
                    assert(decreases_to!(*t => arguments[i as int]));
                }
                copied.push(copy_type_ref(&arguments[i]));
                i = i + 1;
            }
            proof {
                lemma_shapes_agree(copied@, arguments@, arguments@.len());
            }
            TypeRef::GenericInstance { base: Box::new(copy_type_ref(base)), arguments: copied }
        },
        TypeRef::FunctionPointer => TypeRef::FunctionPointer,
        TypeRef::Unknown { type_index, raw_type } => TypeRef::Unknown {
            type_index: *type_index,
            raw_type: *raw_type,
        },
    }
}

impl Clone for TypeRef {
    fn clone(&self) -> (r: Self)
        ensures
            r@ == self@,
    {
        copy_type_ref(self)
    }
}

} // verus!
