//! Code generation support shared by the backends.
use vstd::prelude::*;
use crate::hir::types::Ty;

pub mod runtime;

verus! {

/// Which code-generation backend to use.
pub enum Backend {
    Cranelift,
}

/// The number of bytes the backends reserve on the heap for a value of a type: scalars
/// their width, composites a conservative estimate (8 bytes per tuple element or array
/// element, at least 8 for a tuple; 32 for an enum, 64 for a class or struct).
pub open spec fn type_size(ty: Ty) -> int {
    match ty {
        Ty::Bool | Ty::Int8 | Ty::UInt8 => 1,
        Ty::Int16 | Ty::UInt16 => 2,
        Ty::Int32 | Ty::UInt32 | Ty::Float32 | Ty::Char => 4,
        Ty::Int | Ty::Int64 | Ty::UInt | Ty::UInt64 | Ty::ISize | Ty::USize | Ty::Float
        | Ty::Float64 => 8,
        Ty::String => 24,
        Ty::Str => 16,
        Ty::Vec(_) => 24,
        Ty::Hash(_, _) | Ty::SetOf(_) => 48,
        Ty::Ref(_) | Ty::RefMut(_) | Ty::RefLifetime(_, _) | Ty::RefMutLifetime(_, _)
        | Ty::RawPtr(_) | Ty::RawPtrMut(_) | Ty::RawPtrVoid | Ty::RawPtrMutVoid => 8,
        Ty::Unit | Ty::Never => 0,
        Ty::Enum { .. } => 32,
        Ty::Class { .. } | Ty::Struct { .. } => 64,
        Ty::Option(_) => 16,
        Ty::Result(_, _) => 16,
        Ty::Tuple(elems) => if elems@.len() > 1 {
            (elems@.len() * 8) as int
        } else {
            8
        },
        Ty::Array(_, n) => (n * 8) as int,
        _ => 8,
    }
}

/// Size estimate for a heap allocation of a value of `ty`.
pub fn simple_type_size(ty: &Ty) -> (r: usize)
    requires
        type_size(*ty) <= usize::MAX,
    ensures
        r == type_size(*ty),
{
    match ty {
        Ty::Bool | Ty::Int8 | Ty::UInt8 => 1,
        Ty::Int16 | Ty::UInt16 => 2,
        Ty::Int32 | Ty::UInt32 | Ty::Float32 | Ty::Char => 4,
        Ty::Int | Ty::Int64 | Ty::UInt | Ty::UInt64 | Ty::ISize | Ty::USize | Ty::Float
        | Ty::Float64 => 8,
        Ty::String => 24,
        Ty::Str => 16,
        Ty::Vec(_) => 24,
        Ty::Hash(_, _) | Ty::SetOf(_) => 48,
        Ty::Ref(_) | Ty::RefMut(_) | Ty::RefLifetime(_, _) | Ty::RefMutLifetime(_, _)
        | Ty::RawPtr(_) | Ty::RawPtrMut(_) | Ty::RawPtrVoid | Ty::RawPtrMutVoid => 8,
        Ty::Unit | Ty::Never => 0,
        Ty::Enum { .. } => 32,
        Ty::Class { .. } | Ty::Struct { .. } => 64,
        Ty::Option(_) => 16,
        Ty::Result(_, _) => 16,
        Ty::Tuple(elems) => {
            let n = if elems.len() > 1 { elems.len() } else { 1 };
            n * 8
        },
        Ty::Array(_, n) => *n * 8,
        _ => 8,
    }
}

} // verus!
