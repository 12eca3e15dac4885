use vstd::prelude::*;

use crate::ir::type_::IRType;
use crate::lexer::types::Type;

verus! {

/// The machine type of a source type: `char` is `CHAR`, `float` and `double` are
/// `FLOAT`, the signed integer types and pointers are `INT`, and `unsigned`,
/// `void` and `Noreturn` are `UINT`.
pub open spec fn spec_type_mapping(typ: Type) -> IRType {
    match typ {
        Type::Char => IRType::CHAR,
        Type::Double | Type::Float => IRType::FLOAT,
        Type::Int | Type::Long | Type::Short | Type::Signed | Type::Pointer(_) => IRType::INT,
        Type::Unsigned | Type::Void | Type::Noreturn => IRType::UINT,
    }
}

/// Maps a source type onto its machine type.
pub fn type_mapping(typ: &Type) -> (r: IRType)
    ensures
        r == spec_type_mapping(*typ),
{
    match typ {
        Type::Char => IRType::CHAR,
        Type::Double | Type::Float => IRType::FLOAT,
        Type::Int | Type::Long | Type::Short | Type::Signed | Type::Pointer(_) => IRType::INT,
        Type::Unsigned | Type::Void | Type::Noreturn => IRType::UINT,
    }
}

} // verus!

verus! {

/// The machine type a source type is mapped to agrees with the type its values
/// are held in: a source type maps to `CHAR`, or to `FLOAT`, exactly when its
/// values are held as characters, or as floating values.
pub proof fn law_mapping_agrees_with_value_type(typ: Type)
    requires
        !(typ is Pointer),
    ensures
        (spec_type_mapping(typ) == IRType::CHAR) == (crate::ir::types::Type::of_ast(typ)
            == crate::ir::types::Type::CHAR),
        (spec_type_mapping(typ) == IRType::FLOAT) == (crate::ir::types::Type::of_ast(typ)
            == crate::ir::types::Type::FLOAT),
        (typ == Type::Char) == (spec_type_mapping(typ) == IRType::CHAR),
        (typ == Type::Float || typ == Type::Double) == (spec_type_mapping(typ) == IRType::FLOAT),
{
}

} // verus!
