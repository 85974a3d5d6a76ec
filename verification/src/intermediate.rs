//! The intermediate representation between foreign declarations and target
//! language code: a closed type algebra, and the transformation from type
//! expressions into it.

use vstd::prelude::*;
use vstd::string::*;
use crate::ast::{
    ArgExpr, ArgExprV, BareFnExpr, BareFnExprV, ConstExpr, ConstExprV, RetExpr, RetExprV, TyExpr,
    TyExprV, VariantExpr, VariantExprV, args_model, lemma_args_model_index,
    lemma_segments_model_index, segments_model, variants_model, FieldExpr, FieldExprV,
    fields_model, lemma_fields_model_index,
};
use crate::strutil::{eq_str, join_pieces, join_strings};

verus! {

/// The closed intermediate type algebra.
pub enum Type {
    /// The unit / void type.
    Unit,
    Bool,
    /// The machine character type.
    CChar,
    F32,
    F64,
    I8,
    I16,
    I32,
    I64,
    ISize,
    U8,
    U16,
    U32,
    U64,
    USize,
    /// A pointer to the machine character type, collapsed to a string.
    StringPtr,
    /// A pointer owning its pointee type value.
    Pointer(Box<Type>),
    /// A fixed-size array.
    Array(Box<Type>, u64),
    /// A function pointer.
    Function(Box<Function>),
    /// A forward reference by name to a struct, enum or alias.
    User(String),
}

/// One named function parameter.
pub struct Param {
    pub name: String,
    pub ty: Type,
}

/// An ordered function signature.
pub struct Function {
    pub inputs: Vec<Param>,
    pub output: Type,
}

/// A named, documented declaration item.
pub struct Snippet<T> {
    pub docs: String,
    pub name: String,
    pub item: T,
}

/// A transformed constant declaration.
pub struct Const {
    pub ty: Type,
    pub value: ConstExpr,
}

/// One transformed enum variant.
pub struct EnumVariant {
    pub name: String,
    pub value: Option<u64>,
}

/// A transformed enum declaration.
pub struct Enum {
    pub variants: Vec<EnumVariant>,
}

/// One transformed struct field.
pub struct Field {
    pub name: String,
    pub ty: Type,
}

/// A transformed struct declaration.
pub struct Struct {
    pub fields: Vec<Field>,
}

// ----------------------------------------------------------------------------
// Mathematical models.

/// Model of an intermediate type.
pub enum TypeV {
    Unit,
    Bool,
    CChar,
    F32,
    F64,
    I8,
    I16,
    I32,
    I64,
    ISize,
    U8,
    U16,
    U32,
    U64,
    USize,
    StringPtr,
    Pointer(Box<TypeV>),
    Array(Box<TypeV>, u64),
    Function(Box<FunctionV>),
    User(Seq<char>),
}

/// Model of a parameter.
pub struct ParamV {
    pub name: Seq<char>,
    pub ty: TypeV,
}

/// Model of a function signature.
pub struct FunctionV {
    pub inputs: Seq<ParamV>,
    pub output: TypeV,
}

/// Model of a snippet over the model of its item.
pub struct SnippetV<T> {
    pub docs: Seq<char>,
    pub name: Seq<char>,
    pub item: T,
}

/// Model of a constant declaration.
pub struct ConstV {
    pub ty: TypeV,
    pub value: ConstExprV,
}

/// Model of an enum variant.
pub struct EnumVariantV {
    pub name: Seq<char>,
    pub value: Option<u64>,
}

/// Model of an enum declaration.
pub struct EnumV {
    pub variants: Seq<EnumVariantV>,
}

/// Model of a struct field.
pub struct FieldV {
    pub name: Seq<char>,
    pub ty: TypeV,
}

/// Model of a struct declaration.
pub struct StructV {
    pub fields: Seq<FieldV>,
}

pub open spec fn type_model(t: Type) -> TypeV
    decreases t,
{
    match t {
        Type::Unit => TypeV::Unit,
        Type::Bool => TypeV::Bool,
        Type::CChar => TypeV::CChar,
        Type::F32 => TypeV::F32,
        Type::F64 => TypeV::F64,
        Type::I8 => TypeV::I8,
        Type::I16 => TypeV::I16,
        Type::I32 => TypeV::I32,
        Type::I64 => TypeV::I64,
        Type::ISize => TypeV::ISize,
        Type::U8 => TypeV::U8,
        Type::U16 => TypeV::U16,
        Type::U32 => TypeV::U32,
        Type::U64 => TypeV::U64,
        Type::USize => TypeV::USize,
        Type::StringPtr => TypeV::StringPtr,
        Type::Pointer(inner) => TypeV::Pointer(Box::new(type_model(*inner))),
        Type::Array(inner, n) => TypeV::Array(Box::new(type_model(*inner)), n),
        Type::Function(f) => TypeV::Function(Box::new(fun_model(*f))),
        Type::User(name) => TypeV::User(name@),
    }
}

pub open spec fn fun_model(f: Function) -> FunctionV
    decreases f,
{
    FunctionV { inputs: params_model(f.inputs@), output: type_model(f.output) }
}

pub open spec fn params_model(ps: Seq<Param>) -> Seq<ParamV>
    decreases ps,
{
    if ps.len() == 0 {
        Seq::empty()
    } else {
        params_model(ps.drop_last()).push(param_model(ps.last()))
    }
}

pub open spec fn param_model(p: Param) -> ParamV
    decreases p,
{
    ParamV { name: p.name@, ty: type_model(p.ty) }
}

impl View for Type {
    type V = TypeV;

    open spec fn view(&self) -> TypeV {
        type_model(*self)
    }
}

impl View for Param {
    type V = ParamV;

    open spec fn view(&self) -> ParamV {
        param_model(*self)
    }
}

impl View for Function {
    type V = FunctionV;

    open spec fn view(&self) -> FunctionV {
        fun_model(*self)
    }
}

impl<T: View> View for Snippet<T> {
    type V = SnippetV<T::V>;

    open spec fn view(&self) -> SnippetV<T::V> {
        SnippetV { docs: self.docs@, name: self.name@, item: self.item@ }
    }
}

impl View for Const {
    type V = ConstV;

    open spec fn view(&self) -> ConstV {
        ConstV { ty: self.ty@, value: self.value@ }
    }
}

impl View for EnumVariant {
    type V = EnumVariantV;

    open spec fn view(&self) -> EnumVariantV {
        EnumVariantV { name: self.name@, value: self.value }
    }
}

impl View for Enum {
    type V = EnumV;

    open spec fn view(&self) -> EnumV {
        EnumV { variants: self.variants@.map_values(|v: EnumVariant| v@) }
    }
}

impl View for Field {
    type V = FieldV;

    open spec fn view(&self) -> FieldV {
        FieldV { name: self.name@, ty: self.ty@ }
    }
}

impl View for Struct {
    type V = StructV;

    open spec fn view(&self) -> StructV {
        StructV { fields: self.fields@.map_values(|f: Field| f@) }
    }
}

/// A sequence of parameter models is the pointwise model of the parameters.
pub proof fn lemma_params_model_index(ps: Seq<Param>)
    ensures
        params_model(ps).len() == ps.len(),
        forall|i: int| 0 <= i < ps.len() ==> params_model(ps)[i] == param_model(#[trigger] ps[i]),
    decreases ps.len(),
{
    if ps.len() > 0 {
        lemma_params_model_index(ps.drop_last());
        assert forall|i: int| 0 <= i < ps.len() implies params_model(ps)[i] == param_model(
            #[trigger] ps[i],
        ) by {
            if i < ps.len() - 1 {
                assert(ps.drop_last()[i] == ps[i]);
                assert(params_model(ps)[i] == params_model(ps.drop_last())[i]);
            } else {
                assert(ps.last() == ps[i]);
            }
        }
    }
}

// ----------------------------------------------------------------------------
// The type transformation.

/// The printed text of a path: its segments joined with `::`.
pub open spec fn path_text(segs: Seq<Seq<char>>) -> Seq<char> {
    join_pieces(segs, "::"@)
}

/// The fixed table of primitive spellings.
pub open spec fn prim_of_spelling(s: Seq<char>) -> Option<TypeV> {
    if s == "bool"@ {
        Option::Some(TypeV::Bool)
    } else if s == "c_char"@ || s == "libc::c_char"@ || s == "std::os::raw::c_char"@ {
        Option::Some(TypeV::CChar)
    } else if s == "f32"@ {
        Option::Some(TypeV::F32)
    } else if s == "f64"@ {
        Option::Some(TypeV::F64)
    } else if s == "i8"@ {
        Option::Some(TypeV::I8)
    } else if s == "i16"@ {
        Option::Some(TypeV::I16)
    } else if s == "i32"@ {
        Option::Some(TypeV::I32)
    } else if s == "i64"@ {
        Option::Some(TypeV::I64)
    } else if s == "isize"@ {
        Option::Some(TypeV::ISize)
    } else if s == "u8"@ {
        Option::Some(TypeV::U8)
    } else if s == "u16"@ {
        Option::Some(TypeV::U16)
    } else if s == "u32"@ {
        Option::Some(TypeV::U32)
    } else if s == "u64"@ {
        Option::Some(TypeV::U64)
    } else if s == "usize"@ {
        Option::Some(TypeV::USize)
    } else if s == "c_void"@ || s == "libc::c_void"@ || s == "std::os::raw::c_void"@ {
        Option::Some(TypeV::Unit)
    } else {
        Option::None
    }
}

/// What transforming a path type yields: a primitive from the fixed table,
/// or a named reference carrying the spelling verbatim.
pub open spec fn spec_transform_path(segs: Seq<Seq<char>>) -> TypeV {
    match prim_of_spelling(path_text(segs)) {
        Option::Some(p) => p,
        Option::None => TypeV::User(path_text(segs)),
    }
}

/// What transforming a type expression yields, if anything.
pub open spec fn spec_transform_type(t: TyExprV) -> Option<TypeV>
    decreases t,
{
    match t {
        TyExprV::FixedArray(inner, size) => match size {
            ConstExprV::Int(n) => match spec_transform_type(*inner) {
                Option::Some(TypeV::Array(_, _)) => Option::None,
                Option::Some(et) => Option::Some(TypeV::Array(Box::new(et), n)),
                Option::None => Option::None,
            },
            _ => Option::None,
        },
        TyExprV::Path(segs) => Option::Some(spec_transform_path(segs)),
        TyExprV::Ptr(_, inner) => match spec_transform_type(*inner) {
            Option::Some(TypeV::CChar) => Option::Some(TypeV::StringPtr),
            Option::Some(TypeV::User(name)) => Option::Some(TypeV::User(name)),
            Option::Some(et) => Option::Some(TypeV::Pointer(Box::new(et))),
            Option::None => Option::None,
        },
        TyExprV::BareFn(f) => match spec_transform_fn(*f) {
            Option::Some(fv) => Option::Some(TypeV::Function(Box::new(fv))),
            Option::None => Option::None,
        },
        _ => Option::None,
    }
}

/// What transforming an ordered parameter list yields, if anything.
pub open spec fn spec_transform_args(args: Seq<ArgExprV>) -> Option<Seq<ParamV>>
    decreases args,
{
    if args.len() == 0 {
        Option::Some(Seq::empty())
    } else {
        match spec_transform_args(args.drop_last()) {
            Option::None => Option::None,
            Option::Some(s) => match spec_transform_type(args.last().ty) {
                Option::None => Option::None,
                Option::Some(ty) => Option::Some(s.push(ParamV { name: args.last().name, ty })),
            },
        }
    }
}

/// What transforming a bare function declaration yields, if anything.
pub open spec fn spec_transform_fn(f: BareFnExprV) -> Option<FunctionV>
    decreases f,
{
    let out = match f.output {
        RetExprV::Omitted => Option::Some(TypeV::Unit),
        RetExprV::Ty(t) => spec_transform_type(t),
    };
    match out {
        Option::None => Option::None,
        Option::Some(output) => match spec_transform_args(f.inputs) {
            Option::None => Option::None,
            Option::Some(inputs) => Option::Some(FunctionV { inputs, output }),
        },
    }
}

pub open spec fn opt_type_model(r: Option<Type>) -> Option<TypeV> {
    match r {
        Option::Some(t) => Option::Some(t@),
        Option::None => Option::None,
    }
}

pub open spec fn opt_fun_model(r: Option<Function>) -> Option<FunctionV> {
    match r {
        Option::Some(f) => Option::Some(f@),
        Option::None => Option::None,
    }
}

fn prim_lookup(full: &str) -> (r: Option<Type>)
    ensures
        opt_type_model(r) == prim_of_spelling(full@),
{
    if eq_str(full, "bool") {
        Option::Some(Type::Bool)
    } else if eq_str(full, "c_char") || eq_str(full, "libc::c_char") || eq_str(
        full,
        "std::os::raw::c_char",
    ) {
        Option::Some(Type::CChar)
    } else if eq_str(full, "f32") {
        Option::Some(Type::F32)
    } else if eq_str(full, "f64") {
        Option::Some(Type::F64)
    } else if eq_str(full, "i8") {
        Option::Some(Type::I8)
    } else if eq_str(full, "i16") {
        Option::Some(Type::I16)
    } else if eq_str(full, "i32") {
        Option::Some(Type::I32)
    } else if eq_str(full, "i64") {
        Option::Some(Type::I64)
    } else if eq_str(full, "isize") {
        Option::Some(Type::ISize)
    } else if eq_str(full, "u8") {
        Option::Some(Type::U8)
    } else if eq_str(full, "u16") {
        Option::Some(Type::U16)
    } else if eq_str(full, "u32") {
        Option::Some(Type::U32)
    } else if eq_str(full, "u64") {
        Option::Some(Type::U64)
    } else if eq_str(full, "usize") {
        Option::Some(Type::USize)
    } else if eq_str(full, "c_void") || eq_str(full, "libc::c_void") || eq_str(
        full,
        "std::os::raw::c_void",
    ) {
        Option::Some(Type::Unit)
    } else {
        Option::None
    }
}

/// Transform a type expression into the intermediate algebra, or report that
/// it is unsupported.
pub fn transform_type(input: &TyExpr) -> (r: Option<Type>)
    ensures
        opt_type_model(r) == spec_transform_type(input@),
    decreases *input,
{
    match input {
        TyExpr::FixedArray(inner, size) => match size {
            ConstExpr::Int(n) => {
                let et = transform_type(inner);
                match et {
                    Option::Some(Type::Array(_, _)) => Option::None,
                    Option::Some(ty) => Option::Some(Type::Array(Box::new(ty), *n)),
                    Option::None => Option::None,
                }
            },
            _ => Option::None,
        },
        TyExpr::Path(segs) => {
            let full = join_strings(segs, "::");
            proof {
                lemma_segments_model_index(segs@);
                assert(segs.deep_view() =~= segments_model(segs@));
            }
            let prim = prim_lookup(full.as_str());
            match prim {
                Option::Some(p) => Option::Some(p),
                Option::None => Option::Some(Type::User(full)),
            }
        },
        TyExpr::Ptr(_, inner) => {
            let et = transform_type(inner);
            match et {
                Option::Some(Type::CChar) => Option::Some(Type::StringPtr),
                Option::Some(Type::User(name)) => Option::Some(Type::User(name)),
                Option::Some(ty) => Option::Some(Type::Pointer(Box::new(ty))),
                Option::None => Option::None,
            }
        },
        TyExpr::BareFn(f) => {
            let fun = transform_function(f);
            match fun {
                Option::Some(fv) => Option::Some(Type::Function(Box::new(fv))),
                Option::None => Option::None,
            }
        },
        _ => Option::None,
    }
}

/// Transform a bare function declaration into an intermediate signature, or
/// report that some part of it is unsupported.
pub fn transform_function(decl: &BareFnExpr) -> (r: Option<Function>)
    ensures
        opt_fun_model(r) == spec_transform_fn(decl@),
    decreases *decl,
{
    let ghost model = args_model(decl.inputs@);
    let output = match &decl.output {
        RetExpr::Omitted => Type::Unit,
        RetExpr::Ty(t) => {
            match transform_type(t) {
                Option::Some(ty) => ty,
                Option::None => {
                    return Option::None;
                },
            }
        },
    };
    let mut inputs: Vec<Param> = Vec::new();
    let mut i: usize = 0;
    proof {
        lemma_args_model_index(decl.inputs@);
    }
    while i < decl.inputs.len()
        invariant
            i <= decl.inputs@.len(),
            model == args_model(decl.inputs@),
            model.len() == decl.inputs@.len(),
            forall|j: int|
                0 <= j < decl.inputs@.len() ==> model[j] == crate::ast::arg_model(
                    #[trigger] decl.inputs@[j],
                ),
            spec_transform_args(model.take(i as int)) == Option::Some(params_model(inputs@)),
            inputs@.len() == i,
        decreases decl.inputs@.len() - i,
    {
        let arg = &decl.inputs[i];
        let ty = match transform_type(&arg.ty) {
            Option::Some(ty) => ty,
            Option::None => {
                proof {
                    lemma_args_fail(model, i as int);
                }
                return Option::None;
            },
        };
        let ghost prev = params_model(inputs@);
        let ghost snap = inputs@;
        inputs.push(Param { name: arg.name.clone(), ty });
        proof {
            assert(inputs@.drop_last() =~= snap);
            assert(params_model(inputs@) == prev.push(param_model(inputs@.last())));
            assert(model.take(i + 1).drop_last() =~= model.take(i as int));
            assert(model.take(i + 1).last() == model[i as int]);
        }
        i = i + 1;
    }
    proof {
        assert(model.take(model.len() as int) =~= model);
    }
    Option::Some(Function { inputs, output })
}

proof fn lemma_args_fail(args: Seq<ArgExprV>, i: int)
    requires
        0 <= i < args.len(),
        spec_transform_type(args[i].ty) is None,
    ensures
        spec_transform_args(args) is None,
    decreases args.len(),
{
    if args.len() > 0 {
        if i == args.len() - 1 {
            assert(args.last() == args[i]);
        } else {
            assert(args.drop_last()[i] == args[i]);
            lemma_args_fail(args.drop_last(), i);
        }
    }
}

// ----------------------------------------------------------------------------
// Detectors over the intermediate algebra.

/// The conventional opaque-context parameter at the intermediate level:
/// named `user_data` and typed as a pointer to void.
pub open spec fn is_user_data_spec(name: Seq<char>, t: TypeV) -> bool {
    &&& name == "user_data"@
    &&& match t {
        TypeV::Pointer(inner) => *inner is Unit,
        _ => false,
    }
}

/// The model of a type is built with the same head constructor as the type.
pub proof fn lemma_type_model_variants(t: Type)
    ensures
        (type_model(t) is Unit) == (t is Unit),
        (type_model(t) is CChar) == (t is CChar),
        (type_model(t) is Pointer) == (t is Pointer),
        (type_model(t) is Array) == (t is Array),
        (type_model(t) is Function) == (t is Function),
        (type_model(t) is User) == (t is User),
        (type_model(t) is StringPtr) == (t is StringPtr),
{
    match t {
        Type::Unit => {},
        Type::Bool => {},
        Type::CChar => {},
        Type::F32 => {},
        Type::F64 => {},
        Type::I8 => {},
        Type::I16 => {},
        Type::I32 => {},
        Type::I64 => {},
        Type::ISize => {},
        Type::U8 => {},
        Type::U16 => {},
        Type::U32 => {},
        Type::U64 => {},
        Type::USize => {},
        Type::StringPtr => {},
        Type::Pointer(_) => {},
        Type::Array(_, _) => {},
        Type::Function(_) => {},
        Type::User(_) => {},
    }
}

/// Check the parameter is the conventional opaque-context parameter.
pub fn is_user_data(name: &str, ty: &Type) -> (r: bool)
    ensures
        r == is_user_data_spec(name@, ty@),
{
    proof {
        lemma_type_model_variants(*ty);
    }
    match ty {
        Type::Pointer(inner) => {
            proof {
                lemma_type_model_variants(**inner);
            }
            match &**inner {
                Type::Unit => eq_str(name, "user_data"),
                _ => false,
            }
        },
        _ => false,
    }
}

/// A callback: a function-pointer type whose first parameter is the
/// conventional opaque-context parameter.
pub open spec fn is_callback_spec(t: TypeV) -> bool {
    match t {
        TypeV::Function(f) => f.inputs.len() > 0 && is_user_data_spec(
            f.inputs[0].name,
            f.inputs[0].ty,
        ),
        _ => false,
    }
}

/// If the type is a callback, hand back its signature.
pub fn extract_callback<'a>(ty: &'a Type) -> (r: Option<&'a Function>)
    ensures
        match r {
            Option::Some(f) => is_callback_spec(ty@) && ty@ == TypeV::Function(Box::new(f@)),
            Option::None => !is_callback_spec(ty@),
        },
{
    proof {
        lemma_type_model_variants(*ty);
    }
    match ty {
        Type::Function(fun) => {
            proof {
                lemma_params_model_index(fun.inputs@);
            }
            if fun.inputs.len() > 0 {
                let first = &fun.inputs[0];
                if is_user_data(first.name.as_str(), &first.ty) {
                    proof {
                        assert(ty@ is Function);
                        let fv = ty@->Function_0;
                        assert(*fv == fun_model(**fun));
                        assert(fv.inputs == params_model(fun.inputs@));
                        assert(fv.inputs.len() > 0);
                        assert(params_model(fun.inputs@)[0] == param_model(fun.inputs@[0int]));
                        assert(is_user_data_spec(fv.inputs[0].name, fv.inputs[0].ty));
                        assert(is_callback_spec(ty@));
                    }
                    Option::Some(fun)
                } else {
                    Option::None
                }
            } else {
                Option::None
            }
        },
        _ => Option::None,
    }
}

/// The positions of the callback parameters in a parameter list.
pub fn extract_callbacks(inputs: &Vec<Param>) -> (r: Vec<usize>)
    ensures
        forall|k: int|
            0 <= k < r@.len() ==> #[trigger] r@[k] < inputs@.len() && is_callback_spec(
                params_model(inputs@)[r@[k] as int].ty,
            ),
        forall|i: int|
            0 <= i < inputs@.len() && is_callback_spec(#[trigger] params_model(inputs@)[i].ty)
                ==> exists|k: int| 0 <= k < r@.len() && #[trigger] r@[k] == i,
        forall|k1: int, k2: int| 0 <= k1 < k2 < r@.len() ==> #[trigger] r@[k1] < (#[trigger] r@[k2]),
    decreases inputs@.len(),
{
    proof {
        lemma_params_model_index(inputs@);
    }
    let mut r: Vec<usize> = Vec::new();
    let mut i: usize = 0;
    while i < inputs.len()
        invariant
            i <= inputs@.len(),
            params_model(inputs@).len() == inputs@.len(),
            forall|j: int|
                0 <= j < inputs@.len() ==> params_model(inputs@)[j] == param_model(
                    #[trigger] inputs@[j],
                ),
            forall|k: int|
                0 <= k < r@.len() ==> #[trigger] r@[k] < i && is_callback_spec(
                    params_model(inputs@)[r@[k] as int].ty,
                ),
            forall|j: int|
                0 <= j < i && is_callback_spec(#[trigger] params_model(inputs@)[j].ty)
                    ==> exists|k: int| 0 <= k < r@.len() && #[trigger] r@[k] == j,
            forall|k1: int, k2: int|
                0 <= k1 < k2 < r@.len() ==> #[trigger] r@[k1] < (#[trigger] r@[k2]),
        decreases inputs@.len() - i,
    {
        let cb = extract_callback(&inputs[i].ty);
        let ghost old_r = r@;
        if cb.is_some() {
            r.push(i);
        }
        proof {
            assert(params_model(inputs@)[i as int] == param_model(inputs@[i as int]));
            assert forall|j: int|
                0 <= j < i + 1 && is_callback_spec(
                    #[trigger] params_model(inputs@)[j].ty,
                ) implies exists|k: int| 0 <= k < r@.len() && #[trigger] r@[k] == j by {
                if j == i {
                    assert(r@[r@.len() - 1] == i);
                } else {
                    let k = choose|k: int| 0 <= k < old_r.len() && #[trigger] old_r[k] == j;
                    assert(r@[k] == j);
                }
            }
        }
        i = i + 1;
    }
    r
}

/// The number of callback parameters in a parameter list.
pub open spec fn spec_num_callbacks(ps: Seq<ParamV>) -> nat
    decreases ps,
{
    if ps.len() == 0 {
        0
    } else {
        spec_num_callbacks(ps.drop_last()) + if is_callback_spec(ps.last().ty) {
            1nat
        } else {
            0nat
        }
    }
}

/// Count the callback parameters in a parameter list.
pub fn num_callbacks(inputs: &Vec<Param>) -> (r: usize)
    ensures
        r == spec_num_callbacks(params_model(inputs@)),
{
    proof {
        lemma_params_model_index(inputs@);
    }
    let ghost model = params_model(inputs@);
    let mut count: usize = 0;
    let mut i: usize = 0;
    while i < inputs.len()
        invariant
            i <= inputs@.len(),
            model == params_model(inputs@),
            model.len() == inputs@.len(),
            forall|j: int|
                0 <= j < inputs@.len() ==> model[j] == param_model(#[trigger] inputs@[j]),
            count == spec_num_callbacks(model.take(i as int)),
            count <= i,
        decreases inputs@.len() - i,
    {
        let cb = extract_callback(&inputs[i].ty);
        proof {
            assert(model.take(i + 1).drop_last() =~= model.take(i as int));
            assert(model.take(i + 1).last() == model[i as int]);
        }
        if cb.is_some() {
            count = count + 1;
        }
        i = i + 1;
    }
    proof {
        assert(model.take(model.len() as int) =~= model);
    }
    count
}

/// The number of parameters of a callback, not counting the context
/// parameter.
pub fn callback_arity(fun: &Function) -> (r: usize)
    requires
        fun@.inputs.len() >= 1,
    ensures
        r == fun@.inputs.len() - 1,
{
    proof {
        lemma_params_model_index(fun.inputs@);
    }
    fun.inputs.len() - 1
}

// ----------------------------------------------------------------------------
// Transformation of whole declarations.

pub open spec fn spec_literal_const(c: ConstExprV) -> bool {
    match c {
        ConstExprV::Int(_) | ConstExprV::Bool(_) | ConstExprV::Str(_) => true,
        ConstExprV::Other(_) => false,
    }
}

/// Transform a constant declaration: its type must transform and its value
/// must be a literal.
pub fn transform_const(ty: &TyExpr, value: &ConstExpr) -> (r: Option<Const>)
    ensures
        match r {
            Option::Some(c) => spec_transform_type(ty@) == Option::Some(c.ty@) && c.value@ == value@
                && spec_literal_const(value@),
            Option::None => spec_transform_type(ty@) is None || !spec_literal_const(value@),
        },
{
    let t = match transform_type(ty) {
        Option::Some(t) => t,
        Option::None => {
            return Option::None;
        },
    };
    match value {
        ConstExpr::Int(n) => Option::Some(Const { ty: t, value: ConstExpr::Int(*n) }),
        ConstExpr::Bool(b) => Option::Some(Const { ty: t, value: ConstExpr::Bool(*b) }),
        ConstExpr::Str(s) => Option::Some(Const { ty: t, value: ConstExpr::Str(s.clone()) }),
        ConstExpr::Other(_) => Option::None,
    }
}

/// If the variant carries a discriminant expression, extract its value as a
/// non-negative integer literal.
pub fn extract_enum_variant_value(variant: &VariantExpr) -> (r: Option<u64>)
    ensures
        match variant@.value {
            Option::Some(ConstExprV::Int(n)) => r == Option::Some(n),
            _ => r is None,
        },
{
    match &variant.value {
        Option::Some(ConstExpr::Int(n)) => Option::Some(*n),
        _ => Option::None,
    }
}

/// What one variant transforms to, if anything: a variant without a
/// discriminant, or one with an integer literal discriminant.
pub open spec fn spec_transform_variant(v: VariantExprV) -> Option<EnumVariantV> {
    match v.value {
        Option::None => Option::Some(EnumVariantV { name: v.name, value: Option::None }),
        Option::Some(ConstExprV::Int(n)) => Option::Some(
            EnumVariantV { name: v.name, value: Option::Some(n) },
        ),
        Option::Some(_) => Option::None,
    }
}

pub open spec fn spec_transform_variants(vs: Seq<VariantExprV>) -> Option<Seq<EnumVariantV>>
    decreases vs,
{
    if vs.len() == 0 {
        Option::Some(Seq::empty())
    } else {
        match spec_transform_variants(vs.drop_last()) {
            Option::None => Option::None,
            Option::Some(s) => match spec_transform_variant(vs.last()) {
                Option::None => Option::None,
                Option::Some(v) => Option::Some(s.push(v)),
            },
        }
    }
}

/// Transform an enum declaration; a variant with a non-integer discriminant
/// makes the whole enum unsupported.
pub fn transform_enum(variants: &Vec<VariantExpr>) -> (r: Option<Enum>)
    ensures
        match r {
            Option::Some(e) => spec_transform_variants(variants_model(variants@)) == Option::Some(
                e@.variants,
            ),
            Option::None => spec_transform_variants(variants_model(variants@)) is None,
        },
{
    let ghost model = variants_model(variants@);
    let mut out: Vec<EnumVariant> = Vec::new();
    let mut i: usize = 0;
    while i < variants.len()
        invariant
            i <= variants@.len(),
            model == variants_model(variants@),
            model.len() == variants@.len(),
            forall|j: int|
                0 <= j < variants@.len() ==> model[j] == crate::ast::variant_model(
                    #[trigger] variants@[j],
                ),
            spec_transform_variants(model.take(i as int)) == Option::Some(
                out@.map_values(|v: EnumVariant| v@),
            ),
            out@.len() == i,
        decreases variants@.len() - i,
    {
        let v = &variants[i];
        let ghost prev = out@.map_values(|ev: EnumVariant| ev@);
        let transformed: EnumVariant = match &v.value {
            Option::None => EnumVariant { name: v.name.clone(), value: Option::None },
            Option::Some(ConstExpr::Int(n)) => EnumVariant {
                name: v.name.clone(),
                value: Option::Some(*n),
            },
            Option::Some(_) => {
                proof {
                    lemma_variants_fail(model, i as int);
                }
                return Option::None;
            },
        };
        out.push(transformed);
        proof {
            assert(out@.map_values(|ev: EnumVariant| ev@) =~= prev.push(out@.last()@));
            assert(model.take(i + 1).drop_last() =~= model.take(i as int));
            assert(model.take(i + 1).last() == model[i as int]);
        }
        i = i + 1;
    }
    proof {
        assert(model.take(model.len() as int) =~= model);
    }
    Option::Some(Enum { variants: out })
}

proof fn lemma_variants_fail(vs: Seq<VariantExprV>, i: int)
    requires
        0 <= i < vs.len(),
        spec_transform_variant(vs[i]) is None,
    ensures
        spec_transform_variants(vs) is None,
    decreases vs.len(),
{
    if vs.len() > 0 {
        if i == vs.len() - 1 {
            assert(vs.last() == vs[i]);
        } else {
            assert(vs.drop_last()[i] == vs[i]);
            lemma_variants_fail(vs.drop_last(), i);
        }
    }
}

pub open spec fn spec_transform_fields(fs: Seq<FieldExprV>) -> Option<Seq<FieldV>>
    decreases fs,
{
    if fs.len() == 0 {
        Option::Some(Seq::empty())
    } else {
        match spec_transform_fields(fs.drop_last()) {
            Option::None => Option::None,
            Option::Some(s) => match spec_transform_type(fs.last().ty) {
                Option::None => Option::None,
                Option::Some(ty) => Option::Some(s.push(FieldV { name: fs.last().name, ty })),
            },
        }
    }
}

/// Transform the named fields of a struct declaration; any unsupported field
/// type makes the whole struct unsupported.
pub fn transform_struct(fields: &Vec<FieldExpr>) -> (r: Option<Struct>)
    ensures
        match r {
            Option::Some(s) => spec_transform_fields(fields_model(fields@)) == Option::Some(
                s@.fields,
            ),
            Option::None => spec_transform_fields(fields_model(fields@)) is None,
        },
{
    let ghost model = fields_model(fields@);
    proof {
        lemma_fields_model_index(fields@);
    }
    let mut out: Vec<Field> = Vec::new();
    let mut i: usize = 0;
    while i < fields.len()
        invariant
            i <= fields@.len(),
            model == fields_model(fields@),
            model.len() == fields@.len(),
            forall|j: int|
                0 <= j < fields@.len() ==> model[j] == crate::ast::field_model(
                    #[trigger] fields@[j],
                ),
            spec_transform_fields(model.take(i as int)) == Option::Some(
                out@.map_values(|f: Field| f@),
            ),
            out@.len() == i,
        decreases fields@.len() - i,
    {
        let f = &fields[i];
        let ghost prev = out@.map_values(|fd: Field| fd@);
        let ty = match transform_type(&f.ty) {
            Option::Some(ty) => ty,
            Option::None => {
                proof {
                    lemma_fields_fail(model, i as int);
                }
                return Option::None;
            },
        };
        out.push(Field { name: f.name.clone(), ty });
        proof {
            assert(out@.map_values(|fd: Field| fd@) =~= prev.push(out@.last()@));
            assert(model.take(i + 1).drop_last() =~= model.take(i as int));
            assert(model.take(i + 1).last() == model[i as int]);
        }
        i = i + 1;
    }
    proof {
        assert(model.take(model.len() as int) =~= model);
    }
    Option::Some(Struct { fields: out })
}

proof fn lemma_fields_fail(fs: Seq<FieldExprV>, i: int)
    requires
        0 <= i < fs.len(),
        spec_transform_type(fs[i].ty) is None,
    ensures
        spec_transform_fields(fs) is None,
    decreases fs.len(),
{
    if fs.len() > 0 {
        if i == fs.len() - 1 {
            assert(fs.last() == fs[i]);
        } else {
            assert(fs.drop_last()[i] == fs[i]);
            lemma_fields_fail(fs.drop_last(), i);
        }
    }
}

// ----------------------------------------------------------------------------
// Laws of the transformation.

/// No transformed type nests an array directly inside an array.
pub open spec fn no_nested_array(t: TypeV) -> bool
    decreases t,
{
    match t {
        TypeV::Array(inner, _) => !(*inner is Array) && no_nested_array(*inner),
        TypeV::Pointer(inner) => no_nested_array(*inner),
        TypeV::Function(f) => no_nested_array(f.output) && forall|i: int|
            0 <= i < f.inputs.len() ==> no_nested_array(#[trigger] f.inputs[i].ty),
        _ => true,
    }
}

/// A fixed array whose element type itself transforms to an array always
/// fails transformation: it is never flattened or truncated.
pub proof fn lemma_multidim_fails(inner: TyExprV, size: ConstExprV)
    ensures
        (match spec_transform_type(inner) {
            Option::Some(et) => et is Array,
            Option::None => true,
        }) ==> spec_transform_type(TyExprV::FixedArray(Box::new(inner), size)) is None,
{
}

/// No type the transformer produces ever nests an array directly inside an
/// array.
pub proof fn lemma_no_multidim_arrays(t: TyExprV)
    ensures
        match spec_transform_type(t) {
            Option::Some(ty) => no_nested_array(ty),
            Option::None => true,
        },
    decreases t,
{
    match t {
        TyExprV::FixedArray(inner, size) => {
            lemma_no_multidim_arrays(*inner);
        },
        TyExprV::Ptr(_, inner) => {
            lemma_no_multidim_arrays(*inner);
        },
        TyExprV::BareFn(f) => {
            lemma_no_multidim_fn(*f);
        },
        TyExprV::Path(segs) => {
        },
        _ => {},
    }
}

proof fn lemma_no_multidim_fn(f: BareFnExprV)
    ensures
        match spec_transform_fn(f) {
            Option::Some(fv) => no_nested_array(TypeV::Function(Box::new(fv))),
            Option::None => true,
        },
    decreases f,
{
    match f.output {
        RetExprV::Ty(t) => {
            lemma_no_multidim_arrays(t);
        },
        _ => {},
    }
    lemma_no_multidim_args(f.inputs);
    if spec_transform_fn(f) is Some {
        let fv = spec_transform_fn(f)->0;
        assert(spec_transform_args(f.inputs) == Option::Some(fv.inputs));
        assert(no_nested_array(fv.output));
        assert(no_nested_array(TypeV::Function(Box::new(fv))));
    }
}

proof fn lemma_no_multidim_args(args: Seq<ArgExprV>)
    ensures
        match spec_transform_args(args) {
            Option::Some(ps) => forall|i: int|
                0 <= i < ps.len() ==> no_nested_array(#[trigger] ps[i].ty),
            Option::None => true,
        },
    decreases args,
{
    if args.len() > 0 {
        lemma_no_multidim_args(args.drop_last());
        lemma_no_multidim_arrays(args.last().ty);
    }
}

} // verus!
