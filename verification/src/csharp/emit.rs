//! Serialization of the intermediate model into object-oriented target
//! language text: type keywords, declarations, and whole artifacts.

use vstd::prelude::*;
use vstd::string::*;
use crate::ast::{ConstExpr, ConstExprV};
use crate::intermediate::{
    Function, FunctionV, Param, ParamV, Type, TypeV, is_user_data_spec, lemma_params_model_index,
    lemma_type_model_variants, params_model, Const, ConstV, Enum, EnumV, EnumVariantV, Field,
    FieldV, Struct, StructV, is_user_data,
};
use crate::naming::{pascal_of, to_pascal_case};
use crate::patterns::{
    array_field_at, array_pair_at, is_array_field, is_array_pair_at, is_meta_field, meta_field,
};
use crate::strutil::{dec_of, join_pieces, join_strings, u64_to_dec};

verus! {

/// The target-language keyword or name for a type.
pub open spec fn cs_type_name(t: TypeV) -> Seq<char>
    decreases t,
{
    match t {
        TypeV::Unit => "void"@,
        TypeV::Bool => "bool"@,
        TypeV::CChar => "char"@,
        TypeV::F32 => "float"@,
        TypeV::F64 => "double"@,
        TypeV::I8 => "sbyte"@,
        TypeV::I16 => "short"@,
        TypeV::I32 => "int"@,
        TypeV::I64 => "long"@,
        TypeV::ISize => "IntPtr"@,
        TypeV::U8 => "byte"@,
        TypeV::U16 => "ushort"@,
        TypeV::U32 => "uint"@,
        TypeV::U64 => "ulong"@,
        TypeV::USize => "UIntPtr"@,
        TypeV::StringPtr => "String"@,
        TypeV::Pointer(_) => "IntPtr"@,
        TypeV::Array(inner, _) => cs_type_name(*inner) + "[]"@,
        TypeV::Function(f) => cs_callback_name(*f),
        TypeV::User(n) => n,
    }
}

/// The word a type contributes to a generated callback name.
pub open spec fn cs_tag(t: TypeV) -> Seq<char>
    decreases t,
{
    match t {
        TypeV::Unit => "Void"@,
        TypeV::Bool => "Bool"@,
        TypeV::CChar => "Char"@,
        TypeV::F32 => "Float"@,
        TypeV::F64 => "Double"@,
        TypeV::I8 => "SByte"@,
        TypeV::I16 => "Short"@,
        TypeV::I32 => "Int"@,
        TypeV::I64 => "Long"@,
        TypeV::ISize => "ISize"@,
        TypeV::U8 => "Byte"@,
        TypeV::U16 => "UShort"@,
        TypeV::U32 => "UInt"@,
        TypeV::U64 => "ULong"@,
        TypeV::USize => "USize"@,
        TypeV::StringPtr => "String"@,
        TypeV::Pointer(_) => "Ptr"@,
        TypeV::Array(inner, _) => cs_tag(*inner) + "Array"@,
        TypeV::Function(_) => "Cb"@,
        TypeV::User(n) => n,
    }
}

/// The parameters of a callback with the conventional context parameters
/// removed.
pub open spec fn non_context_params(ps: Seq<ParamV>) -> Seq<ParamV>
    decreases ps,
{
    if ps.len() == 0 {
        Seq::empty()
    } else if is_user_data_spec(ps.last().name, ps.last().ty) {
        non_context_params(ps.drop_last())
    } else {
        non_context_params(ps.drop_last()).push(ps.last())
    }
}

pub open spec fn cs_tags(ps: Seq<ParamV>) -> Seq<char>
    decreases ps,
{
    if ps.len() == 0 {
        Seq::empty()
    } else {
        cs_tags(ps.drop_last()) + cs_tag(ps.last().ty)
    }
}

/// The shared name of the generated interface for a callback: determined by
/// its non-context parameter types alone.
pub open spec fn cs_callback_name(f: FunctionV) -> Seq<char> {
    "Callback"@ + cs_tags(non_context_params(f.inputs))
}

/// Two callbacks with the same non-context parameter list share one
/// generated interface name.
pub proof fn lemma_callback_name_shared(f1: FunctionV, f2: FunctionV)
    requires
        non_context_params(f1.inputs) == non_context_params(f2.inputs),
    ensures
        cs_callback_name(f1) == cs_callback_name(f2),
{
}

/// The primitive variants of the type algebra: those that emit as a single
/// keyword.
pub open spec fn is_primitive(t: TypeV) -> bool {
    match t {
        TypeV::Pointer(_) | TypeV::Array(_, _) | TypeV::Function(_) | TypeV::User(_) => false,
        _ => true,
    }
}

/// No two distinct primitive variants emit the same keyword.
#[verifier::rlimit(60)]
pub proof fn lemma_primitive_keywords_injective(t1: TypeV, t2: TypeV)
    requires
        is_primitive(t1),
        is_primitive(t2),
        cs_type_name(t1) == cs_type_name(t2),
    ensures
        t1 == t2,
{
    broadcast use vstd::string::group_string_axioms;

    reveal_strlit("void");
    reveal_strlit("bool");
    reveal_strlit("char");
    reveal_strlit("float");
    reveal_strlit("double");
    reveal_strlit("sbyte");
    reveal_strlit("short");
    reveal_strlit("int");
    reveal_strlit("long");
    reveal_strlit("IntPtr");
    reveal_strlit("byte");
    reveal_strlit("ushort");
    reveal_strlit("uint");
    reveal_strlit("ulong");
    reveal_strlit("UIntPtr");
    reveal_strlit("String");
    assert("void"@.len() == 4);
    assert("bool"@.len() == 4);
    assert("char"@.len() == 4);
    assert("float"@.len() == 5);
    assert("double"@.len() == 6);
    assert("sbyte"@.len() == 5);
    assert("short"@.len() == 5);
    assert("int"@.len() == 3);
    assert("long"@.len() == 4);
    assert("IntPtr"@.len() == 6);
    assert("byte"@.len() == 4);
    assert("ushort"@.len() == 6);
    assert("uint"@.len() == 4);
    assert("ulong"@.len() == 5);
    assert("UIntPtr"@.len() == 7);
    assert("String"@.len() == 6);
    assert("void"@ != "bool"@) by {
        assert("void"@[0] != "bool"@[0]);
    }
    assert("void"@ != "char"@) by {
        assert("void"@[0] != "char"@[0]);
    }
    assert("void"@ != "long"@) by {
        assert("void"@[0] != "long"@[0]);
    }
    assert("void"@ != "byte"@) by {
        assert("void"@[0] != "byte"@[0]);
    }
    assert("void"@ != "uint"@) by {
        assert("void"@[0] != "uint"@[0]);
    }
    assert("bool"@ != "char"@) by {
        assert("bool"@[0] != "char"@[0]);
    }
    assert("bool"@ != "long"@) by {
        assert("bool"@[0] != "long"@[0]);
    }
    assert("bool"@ != "byte"@) by {
        assert("bool"@[1] != "byte"@[1]);
    }
    assert("bool"@ != "uint"@) by {
        assert("bool"@[0] != "uint"@[0]);
    }
    assert("char"@ != "long"@) by {
        assert("char"@[0] != "long"@[0]);
    }
    assert("char"@ != "byte"@) by {
        assert("char"@[0] != "byte"@[0]);
    }
    assert("char"@ != "uint"@) by {
        assert("char"@[0] != "uint"@[0]);
    }
    assert("float"@ != "sbyte"@) by {
        assert("float"@[0] != "sbyte"@[0]);
    }
    assert("float"@ != "short"@) by {
        assert("float"@[0] != "short"@[0]);
    }
    assert("float"@ != "ulong"@) by {
        assert("float"@[0] != "ulong"@[0]);
    }
    assert("double"@ != "IntPtr"@) by {
        assert("double"@[0] != "IntPtr"@[0]);
    }
    assert("double"@ != "ushort"@) by {
        assert("double"@[0] != "ushort"@[0]);
    }
    assert("double"@ != "String"@) by {
        assert("double"@[0] != "String"@[0]);
    }
    assert("sbyte"@ != "short"@) by {
        assert("sbyte"@[1] != "short"@[1]);
    }
    assert("sbyte"@ != "ulong"@) by {
        assert("sbyte"@[0] != "ulong"@[0]);
    }
    assert("short"@ != "ulong"@) by {
        assert("short"@[0] != "ulong"@[0]);
    }
    assert("long"@ != "byte"@) by {
        assert("long"@[0] != "byte"@[0]);
    }
    assert("long"@ != "uint"@) by {
        assert("long"@[0] != "uint"@[0]);
    }
    assert("IntPtr"@ != "ushort"@) by {
        assert("IntPtr"@[0] != "ushort"@[0]);
    }
    assert("IntPtr"@ != "String"@) by {
        assert("IntPtr"@[0] != "String"@[0]);
    }
    assert("byte"@ != "uint"@) by {
        assert("byte"@[0] != "uint"@[0]);
    }
    assert("ushort"@ != "String"@) by {
        assert("ushort"@[0] != "String"@[0]);
    }
    if t1 is Unit && t2 is Unit {
        assert(t1 == t2);
    }
    if t1 is Unit && t2 is Bool {
        assert(t1 == t2);
    }
    if t1 is Unit && t2 is CChar {
        assert(t1 == t2);
    }
    if t1 is Unit && t2 is F32 {
        assert(t1 == t2);
    }
    if t1 is Unit && t2 is F64 {
        assert(t1 == t2);
    }
    if t1 is Unit && t2 is I8 {
        assert(t1 == t2);
    }
    if t1 is Unit && t2 is I16 {
        assert(t1 == t2);
    }
    if t1 is Unit && t2 is I32 {
        assert(t1 == t2);
    }
    if t1 is Unit && t2 is I64 {
        assert(t1 == t2);
    }
    if t1 is Unit && t2 is ISize {
        assert(t1 == t2);
    }
    if t1 is Unit && t2 is U8 {
        assert(t1 == t2);
    }
    if t1 is Unit && t2 is U16 {
        assert(t1 == t2);
    }
    if t1 is Unit && t2 is U32 {
        assert(t1 == t2);
    }
    if t1 is Unit && t2 is U64 {
        assert(t1 == t2);
    }
    if t1 is Unit && t2 is USize {
        assert(t1 == t2);
    }
    if t1 is Unit && t2 is StringPtr {
        assert(t1 == t2);
    }
    if t1 is Bool && t2 is Unit {
        assert(t1 == t2);
    }
    if t1 is Bool && t2 is Bool {
        assert(t1 == t2);
    }
    if t1 is Bool && t2 is CChar {
        assert(t1 == t2);
    }
    if t1 is Bool && t2 is F32 {
        assert(t1 == t2);
    }
    if t1 is Bool && t2 is F64 {
        assert(t1 == t2);
    }
    if t1 is Bool && t2 is I8 {
        assert(t1 == t2);
    }
    if t1 is Bool && t2 is I16 {
        assert(t1 == t2);
    }
    if t1 is Bool && t2 is I32 {
        assert(t1 == t2);
    }
    if t1 is Bool && t2 is I64 {
        assert(t1 == t2);
    }
    if t1 is Bool && t2 is ISize {
        assert(t1 == t2);
    }
    if t1 is Bool && t2 is U8 {
        assert(t1 == t2);
    }
    if t1 is Bool && t2 is U16 {
        assert(t1 == t2);
    }
    if t1 is Bool && t2 is U32 {
        assert(t1 == t2);
    }
    if t1 is Bool && t2 is U64 {
        assert(t1 == t2);
    }
    if t1 is Bool && t2 is USize {
        assert(t1 == t2);
    }
    if t1 is Bool && t2 is StringPtr {
        assert(t1 == t2);
    }
    if t1 is CChar && t2 is Unit {
        assert(t1 == t2);
    }
    if t1 is CChar && t2 is Bool {
        assert(t1 == t2);
    }
    if t1 is CChar && t2 is CChar {
        assert(t1 == t2);
    }
    if t1 is CChar && t2 is F32 {
        assert(t1 == t2);
    }
    if t1 is CChar && t2 is F64 {
        assert(t1 == t2);
    }
    if t1 is CChar && t2 is I8 {
        assert(t1 == t2);
    }
    if t1 is CChar && t2 is I16 {
        assert(t1 == t2);
    }
    if t1 is CChar && t2 is I32 {
        assert(t1 == t2);
    }
    if t1 is CChar && t2 is I64 {
        assert(t1 == t2);
    }
    if t1 is CChar && t2 is ISize {
        assert(t1 == t2);
    }
    if t1 is CChar && t2 is U8 {
        assert(t1 == t2);
    }
    if t1 is CChar && t2 is U16 {
        assert(t1 == t2);
    }
    if t1 is CChar && t2 is U32 {
        assert(t1 == t2);
    }
    if t1 is CChar && t2 is U64 {
        assert(t1 == t2);
    }
    if t1 is CChar && t2 is USize {
        assert(t1 == t2);
    }
    if t1 is CChar && t2 is StringPtr {
        assert(t1 == t2);
    }
    if t1 is F32 && t2 is Unit {
        assert(t1 == t2);
    }
    if t1 is F32 && t2 is Bool {
        assert(t1 == t2);
    }
    if t1 is F32 && t2 is CChar {
        assert(t1 == t2);
    }
    if t1 is F32 && t2 is F32 {
        assert(t1 == t2);
    }
    if t1 is F32 && t2 is F64 {
        assert(t1 == t2);
    }
    if t1 is F32 && t2 is I8 {
        assert(t1 == t2);
    }
    if t1 is F32 && t2 is I16 {
        assert(t1 == t2);
    }
    if t1 is F32 && t2 is I32 {
        assert(t1 == t2);
    }
    if t1 is F32 && t2 is I64 {
        assert(t1 == t2);
    }
    if t1 is F32 && t2 is ISize {
        assert(t1 == t2);
    }
    if t1 is F32 && t2 is U8 {
        assert(t1 == t2);
    }
    if t1 is F32 && t2 is U16 {
        assert(t1 == t2);
    }
    if t1 is F32 && t2 is U32 {
        assert(t1 == t2);
    }
    if t1 is F32 && t2 is U64 {
        assert(t1 == t2);
    }
    if t1 is F32 && t2 is USize {
        assert(t1 == t2);
    }
    if t1 is F32 && t2 is StringPtr {
        assert(t1 == t2);
    }
    if t1 is F64 && t2 is Unit {
        assert(t1 == t2);
    }
    if t1 is F64 && t2 is Bool {
        assert(t1 == t2);
    }
    if t1 is F64 && t2 is CChar {
        assert(t1 == t2);
    }
    if t1 is F64 && t2 is F32 {
        assert(t1 == t2);
    }
    if t1 is F64 && t2 is F64 {
        assert(t1 == t2);
    }
    if t1 is F64 && t2 is I8 {
        assert(t1 == t2);
    }
    if t1 is F64 && t2 is I16 {
        assert(t1 == t2);
    }
    if t1 is F64 && t2 is I32 {
        assert(t1 == t2);
    }
    if t1 is F64 && t2 is I64 {
        assert(t1 == t2);
    }
    if t1 is F64 && t2 is ISize {
        assert(t1 == t2);
    }
    if t1 is F64 && t2 is U8 {
        assert(t1 == t2);
    }
    if t1 is F64 && t2 is U16 {
        assert(t1 == t2);
    }
    if t1 is F64 && t2 is U32 {
        assert(t1 == t2);
    }
    if t1 is F64 && t2 is U64 {
        assert(t1 == t2);
    }
    if t1 is F64 && t2 is USize {
        assert(t1 == t2);
    }
    if t1 is F64 && t2 is StringPtr {
        assert(t1 == t2);
    }
    if t1 is I8 && t2 is Unit {
        assert(t1 == t2);
    }
    if t1 is I8 && t2 is Bool {
        assert(t1 == t2);
    }
    if t1 is I8 && t2 is CChar {
        assert(t1 == t2);
    }
    if t1 is I8 && t2 is F32 {
        assert(t1 == t2);
    }
    if t1 is I8 && t2 is F64 {
        assert(t1 == t2);
    }
    if t1 is I8 && t2 is I8 {
        assert(t1 == t2);
    }
    if t1 is I8 && t2 is I16 {
        assert(t1 == t2);
    }
    if t1 is I8 && t2 is I32 {
        assert(t1 == t2);
    }
    if t1 is I8 && t2 is I64 {
        assert(t1 == t2);
    }
    if t1 is I8 && t2 is ISize {
        assert(t1 == t2);
    }
    if t1 is I8 && t2 is U8 {
        assert(t1 == t2);
    }
    if t1 is I8 && t2 is U16 {
        assert(t1 == t2);
    }
    if t1 is I8 && t2 is U32 {
        assert(t1 == t2);
    }
    if t1 is I8 && t2 is U64 {
        assert(t1 == t2);
    }
    if t1 is I8 && t2 is USize {
        assert(t1 == t2);
    }
    if t1 is I8 && t2 is StringPtr {
        assert(t1 == t2);
    }
    if t1 is I16 && t2 is Unit {
        assert(t1 == t2);
    }
    if t1 is I16 && t2 is Bool {
        assert(t1 == t2);
    }
    if t1 is I16 && t2 is CChar {
        assert(t1 == t2);
    }
    if t1 is I16 && t2 is F32 {
        assert(t1 == t2);
    }
    if t1 is I16 && t2 is F64 {
        assert(t1 == t2);
    }
    if t1 is I16 && t2 is I8 {
        assert(t1 == t2);
    }
    if t1 is I16 && t2 is I16 {
        assert(t1 == t2);
    }
    if t1 is I16 && t2 is I32 {
        assert(t1 == t2);
    }
    if t1 is I16 && t2 is I64 {
        assert(t1 == t2);
    }
    if t1 is I16 && t2 is ISize {
        assert(t1 == t2);
    }
    if t1 is I16 && t2 is U8 {
        assert(t1 == t2);
    }
    if t1 is I16 && t2 is U16 {
        assert(t1 == t2);
    }
    if t1 is I16 && t2 is U32 {
        assert(t1 == t2);
    }
    if t1 is I16 && t2 is U64 {
        assert(t1 == t2);
    }
    if t1 is I16 && t2 is USize {
        assert(t1 == t2);
    }
    if t1 is I16 && t2 is StringPtr {
        assert(t1 == t2);
    }
    if t1 is I32 && t2 is Unit {
        assert(t1 == t2);
    }
    if t1 is I32 && t2 is Bool {
        assert(t1 == t2);
    }
    if t1 is I32 && t2 is CChar {
        assert(t1 == t2);
    }
    if t1 is I32 && t2 is F32 {
        assert(t1 == t2);
    }
    if t1 is I32 && t2 is F64 {
        assert(t1 == t2);
    }
    if t1 is I32 && t2 is I8 {
        assert(t1 == t2);
    }
    if t1 is I32 && t2 is I16 {
        assert(t1 == t2);
    }
    if t1 is I32 && t2 is I32 {
        assert(t1 == t2);
    }
    if t1 is I32 && t2 is I64 {
        assert(t1 == t2);
    }
    if t1 is I32 && t2 is ISize {
        assert(t1 == t2);
    }
    if t1 is I32 && t2 is U8 {
        assert(t1 == t2);
    }
    if t1 is I32 && t2 is U16 {
        assert(t1 == t2);
    }
    if t1 is I32 && t2 is U32 {
        assert(t1 == t2);
    }
    if t1 is I32 && t2 is U64 {
        assert(t1 == t2);
    }
    if t1 is I32 && t2 is USize {
        assert(t1 == t2);
    }
    if t1 is I32 && t2 is StringPtr {
        assert(t1 == t2);
    }
    if t1 is I64 && t2 is Unit {
        assert(t1 == t2);
    }
    if t1 is I64 && t2 is Bool {
        assert(t1 == t2);
    }
    if t1 is I64 && t2 is CChar {
        assert(t1 == t2);
    }
    if t1 is I64 && t2 is F32 {
        assert(t1 == t2);
    }
    if t1 is I64 && t2 is F64 {
        assert(t1 == t2);
    }
    if t1 is I64 && t2 is I8 {
        assert(t1 == t2);
    }
    if t1 is I64 && t2 is I16 {
        assert(t1 == t2);
    }
    if t1 is I64 && t2 is I32 {
        assert(t1 == t2);
    }
    if t1 is I64 && t2 is I64 {
        assert(t1 == t2);
    }
    if t1 is I64 && t2 is ISize {
        assert(t1 == t2);
    }
    if t1 is I64 && t2 is U8 {
        assert(t1 == t2);
    }
    if t1 is I64 && t2 is U16 {
        assert(t1 == t2);
    }
    if t1 is I64 && t2 is U32 {
        assert(t1 == t2);
    }
    if t1 is I64 && t2 is U64 {
        assert(t1 == t2);
    }
    if t1 is I64 && t2 is USize {
        assert(t1 == t2);
    }
    if t1 is I64 && t2 is StringPtr {
        assert(t1 == t2);
    }
    if t1 is ISize && t2 is Unit {
        assert(t1 == t2);
    }
    if t1 is ISize && t2 is Bool {
        assert(t1 == t2);
    }
    if t1 is ISize && t2 is CChar {
        assert(t1 == t2);
    }
    if t1 is ISize && t2 is F32 {
        assert(t1 == t2);
    }
    if t1 is ISize && t2 is F64 {
        assert(t1 == t2);
    }
    if t1 is ISize && t2 is I8 {
        assert(t1 == t2);
    }
    if t1 is ISize && t2 is I16 {
        assert(t1 == t2);
    }
    if t1 is ISize && t2 is I32 {
        assert(t1 == t2);
    }
    if t1 is ISize && t2 is I64 {
        assert(t1 == t2);
    }
    if t1 is ISize && t2 is ISize {
        assert(t1 == t2);
    }
    if t1 is ISize && t2 is U8 {
        assert(t1 == t2);
    }
    if t1 is ISize && t2 is U16 {
        assert(t1 == t2);
    }
    if t1 is ISize && t2 is U32 {
        assert(t1 == t2);
    }
    if t1 is ISize && t2 is U64 {
        assert(t1 == t2);
    }
    if t1 is ISize && t2 is USize {
        assert(t1 == t2);
    }
    if t1 is ISize && t2 is StringPtr {
        assert(t1 == t2);
    }
    if t1 is U8 && t2 is Unit {
        assert(t1 == t2);
    }
    if t1 is U8 && t2 is Bool {
        assert(t1 == t2);
    }
    if t1 is U8 && t2 is CChar {
        assert(t1 == t2);
    }
    if t1 is U8 && t2 is F32 {
        assert(t1 == t2);
    }
    if t1 is U8 && t2 is F64 {
        assert(t1 == t2);
    }
    if t1 is U8 && t2 is I8 {
        assert(t1 == t2);
    }
    if t1 is U8 && t2 is I16 {
        assert(t1 == t2);
    }
    if t1 is U8 && t2 is I32 {
        assert(t1 == t2);
    }
    if t1 is U8 && t2 is I64 {
        assert(t1 == t2);
    }
    if t1 is U8 && t2 is ISize {
        assert(t1 == t2);
    }
    if t1 is U8 && t2 is U8 {
        assert(t1 == t2);
    }
    if t1 is U8 && t2 is U16 {
        assert(t1 == t2);
    }
    if t1 is U8 && t2 is U32 {
        assert(t1 == t2);
    }
    if t1 is U8 && t2 is U64 {
        assert(t1 == t2);
    }
    if t1 is U8 && t2 is USize {
        assert(t1 == t2);
    }
    if t1 is U8 && t2 is StringPtr {
        assert(t1 == t2);
    }
    if t1 is U16 && t2 is Unit {
        assert(t1 == t2);
    }
    if t1 is U16 && t2 is Bool {
        assert(t1 == t2);
    }
    if t1 is U16 && t2 is CChar {
        assert(t1 == t2);
    }
    if t1 is U16 && t2 is F32 {
        assert(t1 == t2);
    }
    if t1 is U16 && t2 is F64 {
        assert(t1 == t2);
    }
    if t1 is U16 && t2 is I8 {
        assert(t1 == t2);
    }
    if t1 is U16 && t2 is I16 {
        assert(t1 == t2);
    }
    if t1 is U16 && t2 is I32 {
        assert(t1 == t2);
    }
    if t1 is U16 && t2 is I64 {
        assert(t1 == t2);
    }
    if t1 is U16 && t2 is ISize {
        assert(t1 == t2);
    }
    if t1 is U16 && t2 is U8 {
        assert(t1 == t2);
    }
    if t1 is U16 && t2 is U16 {
        assert(t1 == t2);
    }
    if t1 is U16 && t2 is U32 {
        assert(t1 == t2);
    }
    if t1 is U16 && t2 is U64 {
        assert(t1 == t2);
    }
    if t1 is U16 && t2 is USize {
        assert(t1 == t2);
    }
    if t1 is U16 && t2 is StringPtr {
        assert(t1 == t2);
    }
    if t1 is U32 && t2 is Unit {
        assert(t1 == t2);
    }
    if t1 is U32 && t2 is Bool {
        assert(t1 == t2);
    }
    if t1 is U32 && t2 is CChar {
        assert(t1 == t2);
    }
    if t1 is U32 && t2 is F32 {
        assert(t1 == t2);
    }
    if t1 is U32 && t2 is F64 {
        assert(t1 == t2);
    }
    if t1 is U32 && t2 is I8 {
        assert(t1 == t2);
    }
    if t1 is U32 && t2 is I16 {
        assert(t1 == t2);
    }
    if t1 is U32 && t2 is I32 {
        assert(t1 == t2);
    }
    if t1 is U32 && t2 is I64 {
        assert(t1 == t2);
    }
    if t1 is U32 && t2 is ISize {
        assert(t1 == t2);
    }
    if t1 is U32 && t2 is U8 {
        assert(t1 == t2);
    }
    if t1 is U32 && t2 is U16 {
        assert(t1 == t2);
    }
    if t1 is U32 && t2 is U32 {
        assert(t1 == t2);
    }
    if t1 is U32 && t2 is U64 {
        assert(t1 == t2);
    }
    if t1 is U32 && t2 is USize {
        assert(t1 == t2);
    }
    if t1 is U32 && t2 is StringPtr {
        assert(t1 == t2);
    }
    if t1 is U64 && t2 is Unit {
        assert(t1 == t2);
    }
    if t1 is U64 && t2 is Bool {
        assert(t1 == t2);
    }
    if t1 is U64 && t2 is CChar {
        assert(t1 == t2);
    }
    if t1 is U64 && t2 is F32 {
        assert(t1 == t2);
    }
    if t1 is U64 && t2 is F64 {
        assert(t1 == t2);
    }
    if t1 is U64 && t2 is I8 {
        assert(t1 == t2);
    }
    if t1 is U64 && t2 is I16 {
        assert(t1 == t2);
    }
    if t1 is U64 && t2 is I32 {
        assert(t1 == t2);
    }
    if t1 is U64 && t2 is I64 {
        assert(t1 == t2);
    }
    if t1 is U64 && t2 is ISize {
        assert(t1 == t2);
    }
    if t1 is U64 && t2 is U8 {
        assert(t1 == t2);
    }
    if t1 is U64 && t2 is U16 {
        assert(t1 == t2);
    }
    if t1 is U64 && t2 is U32 {
        assert(t1 == t2);
    }
    if t1 is U64 && t2 is U64 {
        assert(t1 == t2);
    }
    if t1 is U64 && t2 is USize {
        assert(t1 == t2);
    }
    if t1 is U64 && t2 is StringPtr {
        assert(t1 == t2);
    }
    if t1 is USize && t2 is Unit {
        assert(t1 == t2);
    }
    if t1 is USize && t2 is Bool {
        assert(t1 == t2);
    }
    if t1 is USize && t2 is CChar {
        assert(t1 == t2);
    }
    if t1 is USize && t2 is F32 {
        assert(t1 == t2);
    }
    if t1 is USize && t2 is F64 {
        assert(t1 == t2);
    }
    if t1 is USize && t2 is I8 {
        assert(t1 == t2);
    }
    if t1 is USize && t2 is I16 {
        assert(t1 == t2);
    }
    if t1 is USize && t2 is I32 {
        assert(t1 == t2);
    }
    if t1 is USize && t2 is I64 {
        assert(t1 == t2);
    }
    if t1 is USize && t2 is ISize {
        assert(t1 == t2);
    }
    if t1 is USize && t2 is U8 {
        assert(t1 == t2);
    }
    if t1 is USize && t2 is U16 {
        assert(t1 == t2);
    }
    if t1 is USize && t2 is U32 {
        assert(t1 == t2);
    }
    if t1 is USize && t2 is U64 {
        assert(t1 == t2);
    }
    if t1 is USize && t2 is USize {
        assert(t1 == t2);
    }
    if t1 is USize && t2 is StringPtr {
        assert(t1 == t2);
    }
    if t1 is StringPtr && t2 is Unit {
        assert(t1 == t2);
    }
    if t1 is StringPtr && t2 is Bool {
        assert(t1 == t2);
    }
    if t1 is StringPtr && t2 is CChar {
        assert(t1 == t2);
    }
    if t1 is StringPtr && t2 is F32 {
        assert(t1 == t2);
    }
    if t1 is StringPtr && t2 is F64 {
        assert(t1 == t2);
    }
    if t1 is StringPtr && t2 is I8 {
        assert(t1 == t2);
    }
    if t1 is StringPtr && t2 is I16 {
        assert(t1 == t2);
    }
    if t1 is StringPtr && t2 is I32 {
        assert(t1 == t2);
    }
    if t1 is StringPtr && t2 is I64 {
        assert(t1 == t2);
    }
    if t1 is StringPtr && t2 is ISize {
        assert(t1 == t2);
    }
    if t1 is StringPtr && t2 is U8 {
        assert(t1 == t2);
    }
    if t1 is StringPtr && t2 is U16 {
        assert(t1 == t2);
    }
    if t1 is StringPtr && t2 is U32 {
        assert(t1 == t2);
    }
    if t1 is StringPtr && t2 is U64 {
        assert(t1 == t2);
    }
    if t1 is StringPtr && t2 is USize {
        assert(t1 == t2);
    }
    if t1 is StringPtr && t2 is StringPtr {
        assert(t1 == t2);
    }
}

fn str_of(s: &str) -> (r: String)
    ensures
        r@ == s@,
{
    let mut r = String::new();
    r.append(s);
    r
}

/// Emit the keyword or name for a type.
pub fn csharp_type_name(t: &Type) -> (r: String)
    ensures
        r@ == cs_type_name(t@),
    decreases *t,
{
    match t {
        Type::Unit => str_of("void"),
        Type::Bool => str_of("bool"),
        Type::CChar => str_of("char"),
        Type::F32 => str_of("float"),
        Type::F64 => str_of("double"),
        Type::I8 => str_of("sbyte"),
        Type::I16 => str_of("short"),
        Type::I32 => str_of("int"),
        Type::I64 => str_of("long"),
        Type::ISize => str_of("IntPtr"),
        Type::U8 => str_of("byte"),
        Type::U16 => str_of("ushort"),
        Type::U32 => str_of("uint"),
        Type::U64 => str_of("ulong"),
        Type::USize => str_of("UIntPtr"),
        Type::StringPtr => str_of("String"),
        Type::Pointer(_) => str_of("IntPtr"),
        Type::Array(inner, _) => {
            let mut r = csharp_type_name(inner);
            r.append("[]");
            r
        },
        Type::Function(f) => callback_wrapper_name(f),
        Type::User(n) => n.clone(),
    }
}

fn csharp_tag(t: &Type) -> (r: String)
    ensures
        r@ == cs_tag(t@),
    decreases *t,
{
    match t {
        Type::Unit => str_of("Void"),
        Type::Bool => str_of("Bool"),
        Type::CChar => str_of("Char"),
        Type::F32 => str_of("Float"),
        Type::F64 => str_of("Double"),
        Type::I8 => str_of("SByte"),
        Type::I16 => str_of("Short"),
        Type::I32 => str_of("Int"),
        Type::I64 => str_of("Long"),
        Type::ISize => str_of("ISize"),
        Type::U8 => str_of("Byte"),
        Type::U16 => str_of("UShort"),
        Type::U32 => str_of("UInt"),
        Type::U64 => str_of("ULong"),
        Type::USize => str_of("USize"),
        Type::StringPtr => str_of("String"),
        Type::Pointer(_) => str_of("Ptr"),
        Type::Array(inner, _) => {
            let mut r = csharp_tag(inner);
            r.append("Array");
            r
        },
        Type::Function(_) => str_of("Cb"),
        Type::User(n) => n.clone(),
    }
}

/// The name of the generated wrapper interface for a callback.
pub fn callback_wrapper_name(callback: &Function) -> (r: String)
    ensures
        r@ == cs_callback_name(callback@),
    decreases *callback,
{
    proof {
        lemma_params_model_index(callback.inputs@);
    }
    let ghost model = params_model(callback.inputs@);
    let mut r = str_of("Callback");
    let mut i: usize = 0;
    while i < callback.inputs.len()
        invariant
            i <= callback.inputs@.len(),
            model == params_model(callback.inputs@),
            model.len() == callback.inputs@.len(),
            forall|j: int|
                0 <= j < callback.inputs@.len() ==> model[j]
                    == crate::intermediate::param_model(#[trigger] callback.inputs@[j]),
            r@ == "Callback"@ + cs_tags(non_context_params(model.take(i as int))),
        decreases callback.inputs@.len() - i,
    {
        let p = &callback.inputs[i];
        proof {
            assert(model.take(i + 1).drop_last() =~= model.take(i as int));
            assert(model.take(i + 1).last() == model[i as int]);
        }
        if !is_user_data(p.name.as_str(), &p.ty) {
            let tag = csharp_tag(&p.ty);
            r.append(tag.as_str());
            proof {
                let prefix = non_context_params(model.take(i as int));
                assert(non_context_params(model.take(i + 1)) == prefix.push(model[i as int]));
                lemma_cs_tags_push(prefix, model[i as int]);
            }
        }
        i = i + 1;
    }
    proof {
        assert(model.take(model.len() as int) =~= model);
    }
    r
}

proof fn lemma_cs_tags_push(ps: Seq<ParamV>, p: ParamV)
    ensures
        cs_tags(ps.push(p)) == cs_tags(ps) + cs_tag(p.ty),
{
    assert(ps.push(p).drop_last() =~= ps);
    assert(ps.push(p).last() == p);
}

// ----------------------------------------------------------------------------
// Parameter list rendering.

/// One raw declared parameter: type keyword, a space, and the name.
pub open spec fn cs_raw_param(p: ParamV) -> Seq<char> {
    cs_type_name(p.ty) + " "@ + p.name
}

pub open spec fn cs_raw_param_pieces(ps: Seq<ParamV>) -> Seq<Seq<char>>
    decreases ps,
{
    if ps.len() == 0 {
        Seq::empty()
    } else {
        cs_raw_param_pieces(ps.drop_last()).push(cs_raw_param(ps.last()))
    }
}

/// The raw parameter list of a native declaration, in declaration order.
pub open spec fn cs_raw_params(ps: Seq<ParamV>) -> Seq<char> {
    join_pieces(cs_raw_param_pieces(ps), ", "@)
}

fn raw_param(p: &Param) -> (r: String)
    ensures
        r@ == cs_raw_param(p@),
{
    let mut r = csharp_type_name(&p.ty);
    r.append(" ");
    r.append(p.name.as_str());
    r
}

/// Render the raw parameter list of a native declaration.
pub fn raw_params(inputs: &Vec<Param>) -> (r: String)
    ensures
        r@ == cs_raw_params(params_model(inputs@)),
{
    proof {
        lemma_params_model_index(inputs@);
    }
    let ghost model = params_model(inputs@);
    let mut pieces: Vec<String> = Vec::new();
    let mut i: usize = 0;
    while i < inputs.len()
        invariant
            i <= inputs@.len(),
            model == params_model(inputs@),
            model.len() == inputs@.len(),
            forall|j: int|
                0 <= j < inputs@.len() ==> model[j] == crate::intermediate::param_model(
                    #[trigger] inputs@[j],
                ),
            pieces.deep_view() == cs_raw_param_pieces(model.take(i as int)),
            pieces@.len() == i,
        decreases inputs@.len() - i,
    {
        let ghost prev = pieces.deep_view();
        let piece = raw_param(&inputs[i]);
        pieces.push(piece);
        proof {
            assert(pieces.deep_view() =~= prev.push(pieces@.last()@));
            assert(model.take(i + 1).drop_last() =~= model.take(i as int));
            assert(model.take(i + 1).last() == model[i as int]);
            assert(pieces.deep_view() =~= cs_raw_param_pieces(model.take(i + 1)));
        }
        i = i + 1;
    }
    proof {
        assert(model.take(model.len() as int) =~= model);
    }
    join_strings(&pieces, ", ")
}

/// The element type named by an absorbed array pointer.
pub open spec fn array_elem(t: TypeV) -> TypeV {
    match t {
        TypeV::Pointer(inner) => *inner,
        _ => t,
    }
}

/// The wrapper-visible parameter pieces from position `i` on: the context
/// parameter is never emitted, an array pointer/length pair becomes one
/// array-typed parameter, and a callback parameter takes the generated
/// interface type.
pub open spec fn cs_wrapper_pieces(ps: Seq<ParamV>, i: int) -> Seq<Seq<char>>
    decreases ps.len() - i,
{
    if i < 0 || i >= ps.len() {
        Seq::empty()
    } else if is_user_data_spec(ps[i].name, ps[i].ty) {
        cs_wrapper_pieces(ps, i + 1)
    } else if is_array_pair_at(ps, i) {
        seq![cs_type_name(array_elem(ps[i].ty)) + "[] "@ + ps[i].name] + cs_wrapper_pieces(
            ps,
            i + 2,
        )
    } else {
        seq![cs_raw_param(ps[i])] + cs_wrapper_pieces(ps, i + 1)
    }
}

/// The argument pieces the wrapper hands to the native declaration, from
/// position `i` on: the context argument is synthesized, an absorbed length
/// argument is recovered from the array, and every other argument is passed
/// through.
pub open spec fn cs_forward_pieces(ps: Seq<ParamV>, i: int) -> Seq<Seq<char>>
    decreases ps.len() - i,
{
    if i < 0 || i >= ps.len() {
        Seq::empty()
    } else if is_user_data_spec(ps[i].name, ps[i].ty) {
        seq!["IntPtr.Zero"@] + cs_forward_pieces(ps, i + 1)
    } else if is_array_pair_at(ps, i) {
        seq![ps[i].name, "(UIntPtr) "@ + ps[i].name + ".Length"@] + cs_forward_pieces(ps, i + 2)
    } else {
        seq![ps[i].name] + cs_forward_pieces(ps, i + 1)
    }
}

/// Render the wrapper-visible parameter list.
pub fn wrapper_params(inputs: &Vec<Param>) -> (r: String)
    ensures
        r@ == join_pieces(cs_wrapper_pieces(params_model(inputs@), 0), ", "@),
{
    proof {
        lemma_params_model_index(inputs@);
    }
    let ghost model = params_model(inputs@);
    let mut pieces: Vec<String> = Vec::new();
    let mut i: usize = 0;
    while i < inputs.len()
        invariant
            i <= inputs@.len(),
            model == params_model(inputs@),
            model.len() == inputs@.len(),
            forall|j: int|
                0 <= j < inputs@.len() ==> model[j] == crate::intermediate::param_model(
                    #[trigger] inputs@[j],
                ),
            cs_wrapper_pieces(model, 0) == pieces.deep_view() + cs_wrapper_pieces(model, i as int),
        decreases inputs@.len() - i,
    {
        let ghost prev = pieces.deep_view();
        let p = &inputs[i];
        if is_user_data(p.name.as_str(), &p.ty) {
            proof {
                assert(prev + cs_wrapper_pieces(model, i as int) =~= prev + cs_wrapper_pieces(
                    model,
                    i + 1,
                ));
            }
            i = i + 1;
        } else if array_pair_at(inputs, i) {
            proof {
                lemma_type_model_variants(inputs[i as int].ty);
            }
            let elem_name = match &p.ty {
                Type::Pointer(inner) => csharp_type_name(inner),
                _ => csharp_type_name(&p.ty),
            };
            let mut piece = elem_name;
            piece.append("[] ");
            piece.append(p.name.as_str());
            pieces.push(piece);
            proof {
                assert(pieces.deep_view() =~= prev.push(pieces@.last()@));
                assert(pieces.deep_view() + cs_wrapper_pieces(model, i + 2) =~= prev + (seq![
                    cs_type_name(array_elem(model[i as int].ty)) + "[] "@ + model[i as int].name,
                ] + cs_wrapper_pieces(model, i + 2)));
            }
            i = i + 2;
        } else {
            let piece = raw_param(p);
            pieces.push(piece);
            proof {
                assert(pieces.deep_view() =~= prev.push(pieces@.last()@));
                assert(pieces.deep_view() + cs_wrapper_pieces(model, i + 1) =~= prev + (seq![
                    cs_raw_param(model[i as int]),
                ] + cs_wrapper_pieces(model, i + 1)));
            }
            i = i + 1;
        }
    }
    proof {
        assert(cs_wrapper_pieces(model, model.len() as int) =~= Seq::<Seq<char>>::empty());
        assert(pieces.deep_view() =~= cs_wrapper_pieces(model, 0));
    }
    join_strings(&pieces, ", ")
}

/// Render the argument list the wrapper hands to the native declaration.
pub fn forward_args(inputs: &Vec<Param>) -> (r: String)
    ensures
        r@ == join_pieces(cs_forward_pieces(params_model(inputs@), 0), ", "@),
{
    proof {
        lemma_params_model_index(inputs@);
    }
    let ghost model = params_model(inputs@);
    let mut pieces: Vec<String> = Vec::new();
    let mut i: usize = 0;
    while i < inputs.len()
        invariant
            i <= inputs@.len(),
            model == params_model(inputs@),
            model.len() == inputs@.len(),
            forall|j: int|
                0 <= j < inputs@.len() ==> model[j] == crate::intermediate::param_model(
                    #[trigger] inputs@[j],
                ),
            cs_forward_pieces(model, 0) == pieces.deep_view() + cs_forward_pieces(model, i as int),
        decreases inputs@.len() - i,
    {
        let ghost prev = pieces.deep_view();
        let p = &inputs[i];
        if is_user_data(p.name.as_str(), &p.ty) {
            pieces.push(str_of("IntPtr.Zero"));
            proof {
                assert(pieces.deep_view() =~= prev.push(pieces@.last()@));
                assert(pieces.deep_view() + cs_forward_pieces(model, i + 1) =~= prev + (seq![
                    "IntPtr.Zero"@,
                ] + cs_forward_pieces(model, i + 1)));
            }
            i = i + 1;
        } else if array_pair_at(inputs, i) {
            let mut name_piece = String::new();
            name_piece.append(p.name.as_str());
            pieces.push(name_piece);
            let mut len_piece = str_of("(UIntPtr) ");
            len_piece.append(p.name.as_str());
            len_piece.append(".Length");
            pieces.push(len_piece);
            proof {
                assert(pieces.deep_view() =~= prev.push(model[i as int].name).push(
                    "(UIntPtr) "@ + model[i as int].name + ".Length"@,
                ));
                assert(pieces.deep_view() + cs_forward_pieces(model, i + 2) =~= prev + (seq![
                    model[i as int].name,
                    "(UIntPtr) "@ + model[i as int].name + ".Length"@,
                ] + cs_forward_pieces(model, i + 2)));
            }
            i = i + 2;
        } else {
            let mut name_piece = String::new();
            name_piece.append(p.name.as_str());
            pieces.push(name_piece);
            proof {
                assert(pieces.deep_view() =~= prev.push(model[i as int].name));
                assert(pieces.deep_view() + cs_forward_pieces(model, i + 1) =~= prev + (seq![
                    model[i as int].name,
                ] + cs_forward_pieces(model, i + 1)));
            }
            i = i + 1;
        }
    }
    proof {
        assert(cs_forward_pieces(model, model.len() as int) =~= Seq::<Seq<char>>::empty());
        assert(pieces.deep_view() =~= cs_forward_pieces(model, 0));
    }
    join_strings(&pieces, ", ")
}


// ----------------------------------------------------------------------------
// Declarations.

/// The native declaration of an exported function.
pub open spec fn cs_extern_decl(name: Seq<char>, f: FunctionV) -> Seq<char> {
    "[DllImport(DllName)]\ninternal static extern "@ + cs_type_name(f.output) + " "@ + name + "("@
        + cs_raw_params(f.inputs) + ");\n"@
}

/// The convenience wrapper of an exported function: the visible parameters
/// with conventions absorbed, forwarding to the native declaration.
pub open spec fn cs_wrapper_fn(name: Seq<char>, f: FunctionV) -> Seq<char> {
    "public "@ + cs_type_name(f.output) + " "@ + pascal_of(name) + "("@ + join_pieces(
        cs_wrapper_pieces(f.inputs, 0),
        ", "@,
    ) + ") {\n  "@ + name + "("@ + join_pieces(cs_forward_pieces(f.inputs, 0), ", "@) + ");\n}\n"@
}

/// The wrapper declaration emitted into the companion interface.
pub open spec fn cs_wrapper_decl(name: Seq<char>, f: FunctionV) -> Seq<char> {
    cs_type_name(f.output) + " "@ + pascal_of(name) + "("@ + join_pieces(
        cs_wrapper_pieces(f.inputs, 0),
        ", "@,
    ) + ");\n"@
}

/// The delegate declaration for a callback.
pub open spec fn cs_delegate(f: FunctionV) -> Seq<char> {
    "internal delegate "@ + cs_type_name(f.output) + " "@ + cs_callback_name(f) + "("@
        + join_pieces(cs_wrapper_pieces(f.inputs, 0), ", "@) + ");\n"@
}

/// The marshalling handler emitted once per single-use callback.
pub open spec fn cs_callback_handler(f: FunctionV) -> Seq<char> {
    "internal class "@ + cs_callback_name(f) + "Handler {\n}\n"@
}

/// The text of a constant value.
pub open spec fn cs_const_value(v: ConstExprV) -> Seq<char> {
    match v {
        ConstExprV::Int(n) => crate::strutil::dec_of(n as nat),
        ConstExprV::Bool(b) => if b {
            "true"@
        } else {
            "false"@
        },
        ConstExprV::Str(t) => "\""@ + t + "\""@,
        ConstExprV::Other(t) => t,
    }
}

/// A constant declaration.
pub open spec fn cs_const_decl(name: Seq<char>, c: ConstV) -> Seq<char> {
    "public const "@ + cs_type_name(c.ty) + " "@ + pascal_of(name) + " = "@ + cs_const_value(
        c.value,
    ) + ";\n"@
}

/// One enum variant line.
pub open spec fn cs_enum_variant(v: EnumVariantV) -> Seq<char> {
    match v.value {
        Option::Some(n) => "  "@ + v.name + " = "@ + crate::strutil::dec_of(n as nat) + ",\n"@,
        Option::None => "  "@ + v.name + ",\n"@,
    }
}

pub open spec fn cs_enum_variants(vs: Seq<EnumVariantV>) -> Seq<char>
    decreases vs,
{
    if vs.len() == 0 {
        Seq::empty()
    } else {
        cs_enum_variants(vs.drop_last()) + cs_enum_variant(vs.last())
    }
}

/// An enum declaration.
pub open spec fn cs_enum_decl(name: Seq<char>, e: EnumV) -> Seq<char> {
    "public enum "@ + name + " {\n"@ + cs_enum_variants(e.variants) + "}\n"@
}

/// One raw struct field line.
pub open spec fn cs_raw_field(f: FieldV) -> Seq<char> {
    "  public "@ + cs_type_name(f.ty) + " "@ + f.name + ";\n"@
}

pub open spec fn cs_raw_fields(fs: Seq<FieldV>) -> Seq<char>
    decreases fs,
{
    if fs.len() == 0 {
        Seq::empty()
    } else {
        cs_raw_fields(fs.drop_last()) + cs_raw_field(fs.last())
    }
}

/// The wrapper-visible field lines from position `i` on: an array field
/// becomes one array-typed field under its base name, metadata fields are
/// absorbed, everything else is passed through.
pub open spec fn cs_wrapper_fields(fs: Seq<FieldV>, i: int) -> Seq<char>
    decreases fs.len() - i,
{
    if i < 0 || i >= fs.len() {
        Seq::empty()
    } else if is_array_field(fs, i) {
        "  public "@ + cs_type_name(array_elem(fs[i].ty)) + "[] "@ + crate::patterns::base_of(
            fs[i].name,
        ) + ";\n"@ + cs_wrapper_fields(fs, i + 1)
    } else if is_meta_field(fs[i]) {
        cs_wrapper_fields(fs, i + 1)
    } else {
        cs_raw_field(fs[i]) + cs_wrapper_fields(fs, i + 1)
    }
}

/// A plain value struct.
pub open spec fn cs_normal_struct(name: Seq<char>, s: StructV) -> Seq<char> {
    "[StructLayout(LayoutKind.Sequential)]\npublic struct "@ + name + " {\n"@ + cs_raw_fields(
        s.fields,
    ) + "}\n"@
}

/// The value-object wrapper of a native struct: metadata fields never appear.
pub open spec fn cs_wrapper_struct(name: Seq<char>, s: StructV) -> Seq<char> {
    "public class "@ + name + " {\n"@ + cs_wrapper_fields(s.fields, 0) + "}\n"@
}

/// The raw pointer-backed companion of a native struct.
pub open spec fn cs_native_struct(name: Seq<char>, s: StructV) -> Seq<char> {
    "[StructLayout(LayoutKind.Sequential)]\ninternal struct "@ + name + "Native {\n"@
        + cs_raw_fields(s.fields) + "}\n"@
}

// ----------------------------------------------------------------------------
// Exec renderers.

/// Render the native declaration of an exported function.
pub fn emit_extern_decl(name: &str, f: &Function) -> (r: String)
    ensures
        r@ == cs_extern_decl(name@, f@),
{
    let mut r = str_of("[DllImport(DllName)]\ninternal static extern ");
    let out = csharp_type_name(&f.output);
    r.append(out.as_str());
    r.append(" ");
    r.append(name);
    r.append("(");
    let ps = raw_params(&f.inputs);
    r.append(ps.as_str());
    r.append(");\n");
    proof {
        assert(r@ =~= cs_extern_decl(name@, f@));
    }
    r
}

/// Render the convenience wrapper of an exported function.
pub fn emit_wrapper_function(name: &str, f: &Function) -> (r: String)
    ensures
        r@ == cs_wrapper_fn(name@, f@),
{
    let mut r = str_of("public ");
    let out = csharp_type_name(&f.output);
    r.append(out.as_str());
    r.append(" ");
    let pascal = crate::naming::to_pascal_case(name);
    r.append(pascal.as_str());
    r.append("(");
    let ps = wrapper_params(&f.inputs);
    r.append(ps.as_str());
    r.append(") {\n  ");
    r.append(name);
    r.append("(");
    let args = forward_args(&f.inputs);
    r.append(args.as_str());
    r.append(");\n}\n");
    proof {
        assert(r@ =~= cs_wrapper_fn(name@, f@));
    }
    r
}

/// Render the wrapper declaration for the companion interface.
pub fn emit_wrapper_function_decl(name: &str, f: &Function) -> (r: String)
    ensures
        r@ == cs_wrapper_decl(name@, f@),
{
    let mut r = csharp_type_name(&f.output);
    r.append(" ");
    let pascal = crate::naming::to_pascal_case(name);
    r.append(pascal.as_str());
    r.append("(");
    let ps = wrapper_params(&f.inputs);
    r.append(ps.as_str());
    r.append(");\n");
    proof {
        assert(r@ =~= cs_wrapper_decl(name@, f@));
    }
    r
}

/// Render the delegate declaration for a callback.
pub fn emit_callback_delegate(f: &Function) -> (r: String)
    ensures
        r@ == cs_delegate(f@),
{
    let mut r = str_of("internal delegate ");
    let out = csharp_type_name(&f.output);
    r.append(out.as_str());
    r.append(" ");
    let cb = callback_wrapper_name(f);
    r.append(cb.as_str());
    r.append("(");
    let ps = wrapper_params(&f.inputs);
    r.append(ps.as_str());
    r.append(");\n");
    proof {
        assert(r@ =~= cs_delegate(f@));
    }
    r
}

/// Render the handler emitted for a single-use callback.
pub fn emit_callback_wrapper(f: &Function) -> (r: String)
    ensures
        r@ == cs_callback_handler(f@),
{
    let mut r = str_of("internal class ");
    let cb = callback_wrapper_name(f);
    r.append(cb.as_str());
    r.append("Handler {\n}\n");
    proof {
        assert(r@ =~= cs_callback_handler(f@));
    }
    r
}

/// Render a constant declaration.
pub fn emit_const(name: &str, c: &Const) -> (r: String)
    ensures
        r@ == cs_const_decl(name@, c@),
{
    let mut r = str_of("public const ");
    let ty = csharp_type_name(&c.ty);
    r.append(ty.as_str());
    r.append(" ");
    let pascal = crate::naming::to_pascal_case(name);
    r.append(pascal.as_str());
    r.append(" = ");
    match &c.value {
        ConstExpr::Int(n) => {
            let d = u64_to_dec(*n);
            r.append(d.as_str());
        },
        ConstExpr::Bool(b) => {
            if *b {
                r.append("true");
            } else {
                r.append("false");
            }
        },
        ConstExpr::Str(t) => {
            r.append("\"");
            r.append(t.as_str());
            r.append("\"");
        },
        ConstExpr::Other(t) => {
            r.append(t.as_str());
        },
    }
    r.append(";\n");
    proof {
        assert(r@ =~= cs_const_decl(name@, c@));
    }
    r
}

/// Render an enum declaration.
pub fn emit_enum(name: &str, e: &Enum) -> (r: String)
    ensures
        r@ == cs_enum_decl(name@, e@),
{
    let ghost model = e@.variants;
    let mut r = str_of("public enum ");
    r.append(name);
    r.append(" {\n");
    let ghost header = r@;
    let mut i: usize = 0;
    while i < e.variants.len()
        invariant
            i <= e.variants@.len(),
            model == e@.variants,
            model.len() == e.variants@.len(),
            forall|j: int| 0 <= j < e.variants@.len() ==> model[j] == #[trigger] e.variants@[j]@,
            r@ == header + cs_enum_variants(model.take(i as int)),
        decreases e.variants@.len() - i,
    {
        let v = &e.variants[i];
        r.append("  ");
        r.append(v.name.as_str());
        match &v.value {
            Option::Some(n) => {
                r.append(" = ");
                let d = u64_to_dec(*n);
                r.append(d.as_str());
            },
            Option::None => {},
        }
        r.append(",\n");
        proof {
            assert(model.take(i + 1).drop_last() =~= model.take(i as int));
            assert(model.take(i + 1).last() == model[i as int]);
            assert(r@ =~= header + cs_enum_variants(model.take(i + 1)));
        }
        i = i + 1;
    }
    proof {
        assert(model.take(model.len() as int) =~= model);
    }
    r.append("}\n");
    proof {
        assert(r@ =~= cs_enum_decl(name@, e@));
    }
    r
}

fn emit_raw_fields(fields: &Vec<Field>) -> (r: String)
    ensures
        r@ == cs_raw_fields(fields@.map_values(|f: Field| f@)),
{
    let ghost model = fields@.map_values(|f: Field| f@);
    let mut r = String::new();
    let mut i: usize = 0;
    while i < fields.len()
        invariant
            i <= fields@.len(),
            model == fields@.map_values(|f: Field| f@),
            model.len() == fields@.len(),
            r@ == cs_raw_fields(model.take(i as int)),
        decreases fields@.len() - i,
    {
        let f = &fields[i];
        r.append("  public ");
        let ty = csharp_type_name(&f.ty);
        r.append(ty.as_str());
        r.append(" ");
        r.append(f.name.as_str());
        r.append(";\n");
        proof {
            assert(model.take(i + 1).drop_last() =~= model.take(i as int));
            assert(model.take(i + 1).last() == model[i as int]);
            assert(model[i as int] == fields@[i as int]@);
            assert(r@ =~= cs_raw_fields(model.take(i + 1)));
        }
        i = i + 1;
    }
    proof {
        assert(model.take(model.len() as int) =~= model);
    }
    r
}

/// Render a plain value struct.
pub fn emit_normal_struct(name: &str, s: &Struct) -> (r: String)
    ensures
        r@ == cs_normal_struct(name@, s@),
{
    let mut r = str_of("[StructLayout(LayoutKind.Sequential)]\npublic struct ");
    r.append(name);
    r.append(" {\n");
    let body = emit_raw_fields(&s.fields);
    r.append(body.as_str());
    r.append("}\n");
    proof {
        assert(r@ =~= cs_normal_struct(name@, s@));
    }
    r
}

/// Render the value-object wrapper of a native struct; absorbed metadata
/// fields never appear in it.
pub fn emit_wrapper_struct(name: &str, s: &Struct) -> (r: String)
    ensures
        r@ == cs_wrapper_struct(name@, s@),
{
    let ghost model = s@.fields;
    let mut r = str_of("public class ");
    r.append(name);
    r.append(" {\n");
    let ghost header = r@;
    let fields = &s.fields;
    let mut i: usize = 0;
    while i < fields.len()
        invariant
            i <= fields@.len(),
            model == fields@.map_values(|f: Field| f@),
            model.len() == fields@.len(),
            header + cs_wrapper_fields(model, 0) == r@ + cs_wrapper_fields(model, i as int),
        decreases fields@.len() - i,
    {
        let ghost prev = r@;
        if array_field_at(fields, i) {
            r.append("  public ");
            let f = &fields[i];
            proof {
                crate::intermediate::lemma_type_model_variants(fields@[i as int].ty);
            }
            let elem_name = match &f.ty {
                Type::Pointer(inner) => csharp_type_name(inner),
                _ => csharp_type_name(&f.ty),
            };
            r.append(elem_name.as_str());
            r.append("[] ");
            let base = crate::patterns::field_base_name(f.name.as_str());
            r.append(base.as_str());
            r.append(";\n");
            proof {
                assert(model[i as int] == fields@[i as int]@);
                assert(r@ =~= prev + ("  public "@ + cs_type_name(array_elem(model[i as int].ty))
                    + "[] "@ + crate::patterns::base_of(model[i as int].name) + ";\n"@));
                assert(header + cs_wrapper_fields(model, 0) =~= r@ + cs_wrapper_fields(
                    model,
                    i + 1,
                ));
            }
        } else {
            let f = &fields[i];
            if !meta_field(f) {
                r.append("  public ");
                let ty = csharp_type_name(&f.ty);
                r.append(ty.as_str());
                r.append(" ");
                r.append(f.name.as_str());
                r.append(";\n");
                proof {
                    assert(model[i as int] == fields@[i as int]@);
                    assert(r@ =~= prev + cs_raw_field(model[i as int]));
                    assert(header + cs_wrapper_fields(model, 0) =~= r@ + cs_wrapper_fields(
                        model,
                        i + 1,
                    ));
                }
            } else {
                proof {
                    assert(model[i as int] == fields@[i as int]@);
                    assert(header + cs_wrapper_fields(model, 0) =~= r@ + cs_wrapper_fields(
                        model,
                        i + 1,
                    ));
                }
            }
        }
        i = i + 1;
    }
    proof {
        assert(cs_wrapper_fields(model, model.len() as int) =~= Seq::<char>::empty());
        assert(r@ =~= header + cs_wrapper_fields(model, 0));
    }
    r.append("}\n");
    proof {
        assert(r@ =~= cs_wrapper_struct(name@, s@));
    }
    r
}

/// Render the raw pointer-backed companion of a native struct.
pub fn emit_native_struct(name: &str, s: &Struct) -> (r: String)
    ensures
        r@ == cs_native_struct(name@, s@),
{
    let mut r = str_of("[StructLayout(LayoutKind.Sequential)]\ninternal struct ");
    r.append(name);
    r.append("Native {\n");
    let body = emit_raw_fields(&s.fields);
    r.append(body.as_str());
    r.append("}\n");
    proof {
        assert(r@ =~= cs_native_struct(name@, s@));
    }
    r
}

} // verus!
