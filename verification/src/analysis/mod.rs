//! Type resolution and project-level analysis over a binary and its metadata.
pub mod address;
pub mod project;
pub mod type_system;

pub use address::Address;
pub use project::Il2CppProject;

pub use type_system::{FieldSignature, MethodSignature, ResolvedParameter, TypeResolver};
