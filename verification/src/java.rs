//! The JVM-hosted-language backend: converting type expressions to target
//! type names, callback interface naming and generation, and the native
//! bindings artifact.

use vstd::prelude::*;
use vstd::string::*;
use crate::ast::{
    ArgExpr, ArgExprV, BareFnExpr, BareFnExprV, Item, ItemKind, ItemKindV, RetExpr, RetExprV,
    StructShape, StructShapeV, TyExpr, TyExprV, args_model, fields_model,
    lemma_args_model_index, lemma_fields_model_index, lemma_segments_model_index, segments_model,
};
use crate::common::{
    AttrCheck, Outputs, any_attr_matches, docs_of, is_array_arg, is_array_arg_spec, is_extern,
    is_path_to, is_result_arg, is_result_arg_spec, is_user_data_arg, is_user_data_arg_spec,
    parse_attr, spec_is_extern,
};
use crate::naming::{camel_of, class_of, to_camel_case, to_class_case};
use crate::strutil::{eq_str, join_pieces, join_strings};
use crate::{Error, Level};

verus! {

/// The collector and emitter for the JVM-hosted target.
pub struct LangJava {
}

// ----------------------------------------------------------------------------
// Type-name tables.

/// The target name for a type from the C library module; unknown names map
/// over unchanged.
pub open spec fn libc_java(ty: Seq<char>) -> Seq<char> {
    if ty == "c_void"@ {
        "void"@
    } else if ty == "c_float"@ {
        "float"@
    } else if ty == "c_double"@ {
        "double"@
    } else if ty == "c_char"@ || ty == "c_schar"@ || ty == "c_uchar"@ {
        "byte"@
    } else if ty == "c_short"@ || ty == "c_ushort"@ {
        "short"@
    } else if ty == "c_int"@ || ty == "c_uint"@ {
        "int"@
    } else if ty == "c_long"@ || ty == "c_ulong"@ {
        "long"@
    } else {
        ty
    }
}

/// The target name for a type from the raw-types module.
pub open spec fn osraw_java(ty: Seq<char>) -> Seq<char> {
    libc_java(ty)
}

/// The target name for any single-segment type spelling.
pub open spec fn rust_java(ty: Seq<char>) -> Seq<char> {
    if ty == "()"@ {
        "void"@
    } else if ty == "f32"@ {
        "float"@
    } else if ty == "f64"@ {
        "double"@
    } else if ty == "i8"@ || ty == "u8"@ {
        "byte"@
    } else if ty == "i16"@ || ty == "u16"@ {
        "short"@
    } else if ty == "i32"@ || ty == "u32"@ {
        "int"@
    } else if ty == "i64"@ || ty == "u64"@ {
        "long"@
    } else if ty == "isize"@ {
        "intptr_t"@
    } else if ty == "usize"@ {
        "long"@
    } else {
        libc_java(ty)
    }
}

/// Convert a type name from the C library module.
pub fn libc_ty_to_java<'a>(ty: &'a str) -> (r: &'a str)
    ensures
        r@ == libc_java(ty@),
{
    if eq_str(ty, "c_void") {
        "void"
    } else if eq_str(ty, "c_float") {
        "float"
    } else if eq_str(ty, "c_double") {
        "double"
    } else if eq_str(ty, "c_char") || eq_str(ty, "c_schar") || eq_str(ty, "c_uchar") {
        "byte"
    } else if eq_str(ty, "c_short") || eq_str(ty, "c_ushort") {
        "short"
    } else if eq_str(ty, "c_int") || eq_str(ty, "c_uint") {
        "int"
    } else if eq_str(ty, "c_long") || eq_str(ty, "c_ulong") {
        "long"
    } else {
        ty
    }
}

/// Convert a type name from the raw-types module.
pub fn osraw_ty_to_java<'a>(ty: &'a str) -> (r: &'a str)
    ensures
        r@ == osraw_java(ty@),
{
    libc_ty_to_java(ty)
}

/// Convert any single-segment type spelling.
pub fn rust_ty_to_java<'a>(ty: &'a str) -> (r: &'a str)
    ensures
        r@ == rust_java(ty@),
{
    if eq_str(ty, "()") {
        "void"
    } else if eq_str(ty, "f32") {
        "float"
    } else if eq_str(ty, "f64") {
        "double"
    } else if eq_str(ty, "i8") || eq_str(ty, "u8") {
        "byte"
    } else if eq_str(ty, "i16") || eq_str(ty, "u16") {
        "short"
    } else if eq_str(ty, "i32") || eq_str(ty, "u32") {
        "int"
    } else if eq_str(ty, "i64") || eq_str(ty, "u64") {
        "long"
    } else if eq_str(ty, "isize") {
        "intptr_t"
    } else if eq_str(ty, "usize") {
        "long"
    } else {
        libc_ty_to_java(ty)
    }
}

// ----------------------------------------------------------------------------
// Type-expression conversion.

/// What converting a path type yields: its target name, or nothing
/// convertible (a hard failure) for a module other than the two special
/// ones.
pub open spec fn spec_path_java(segs: Seq<Seq<char>>) -> Option<Seq<char>> {
    if segs.len() == 0 {
        Option::None
    } else if segs.len() > 1 {
        let module = join_pieces(segs.drop_last(), "::"@);
        if module == "libc"@ {
            Option::Some(libc_java(segs.last()))
        } else if module == "std::os::raw"@ {
            Option::Some(osraw_java(segs.last()))
        } else {
            Option::None
        }
    } else {
        Option::Some(rust_java(segs[0]))
    }
}

/// What converting a non-function type expression yields: the target name,
/// or nothing convertible.
pub open spec fn spec_anon_java(t: TyExprV) -> Option<Seq<char>>
    decreases t,
{
    match t {
        TyExprV::BareFn(_) => Option::None,
        TyExprV::Ptr(_, inner) => {
            if is_path_to(*inner, "c_char"@) {
                Option::Some("String"@)
            } else {
                spec_anon_java(*inner)
            }
        },
        TyExprV::Path(segs) => spec_path_java(segs),
        TyExprV::Unit => Option::Some("void"@),
        _ => Option::None,
    }
}

/// The generated interface name for a callback, derived from its converted
/// parameter types: context and completion-status parameters are skipped, an
/// array pointer/length pair contributes one array-typed word.
pub open spec fn spec_callback_name_from(args: Seq<ArgExprV>, i: int) -> Option<Seq<char>>
    decreases args.len() - i,
{
    if i < 0 || i >= args.len() {
        Option::Some(Seq::empty())
    } else if is_user_data_arg_spec(args[i]) || is_result_arg_spec(args[i]) {
        spec_callback_name_from(args, i + 1)
    } else {
        match spec_anon_java(args[i].ty) {
            Option::None => Option::None,
            Option::Some(java_ty) => {
                let word = class_of(java_ty);
                let next_arg = if i + 1 < args.len() {
                    Option::Some(args[i + 1])
                } else {
                    Option::None
                };
                if is_array_arg_spec(args[i], next_arg) {
                    match spec_callback_name_from(args, i + 2) {
                        Option::None => Option::None,
                        Option::Some(rest) => Option::Some(word + "Array"@ + rest),
                    }
                } else {
                    match spec_callback_name_from(args, i + 1) {
                        Option::None => Option::None,
                        Option::Some(rest) => Option::Some(word + rest),
                    }
                }
            },
        }
    }
}

pub open spec fn spec_callback_name(args: Seq<ArgExprV>) -> Option<Seq<char>> {
    match spec_callback_name_from(args, 0) {
        Option::None => Option::None,
        Option::Some(rest) => Option::Some("Callback"@ + rest),
    }
}

/// Convert a non-function type expression to its target name, or fail.
pub fn anon_rust_to_java(ty: &TyExpr) -> (r: Result<String, Error>)
    ensures
        match r {
            Result::Ok(s) => spec_anon_java(ty@) == Option::Some(s@),
            Result::Err(e) => spec_anon_java(ty@) is None && e.level == Level::Error,
        },
    decreases *ty,
{
    match ty {
        TyExpr::BareFn(_) => Result::Err(
            Error {
                level: Level::Error,
                span: Option::None,
                message: String::from_str(
                    "a function pointer needs a name or declaration to convert",
                ),
            },
        ),
        TyExpr::Ptr(_, inner) => {
            let is_string = match &**inner {
                TyExpr::Path(segs) => {
                    proof {
                        lemma_segments_model_index(segs@);
                        assert(crate::ast::ty_expr_model(**inner) == TyExprV::Path(
                            segments_model(segs@),
                        ));
                    }
                    if segs.len() == 1 {
                        let r = eq_str(segs[0].as_str(), "c_char");
                        proof {
                            if r {
                                assert(segments_model(segs@) =~= seq!["c_char"@]);
                            } else {
                                assert(segments_model(segs@)[0] != "c_char"@);
                            }
                        }
                        r
                    } else {
                        proof {
                            if segments_model(segs@) == seq!["c_char"@] {
                                assert(segments_model(segs@).len() == 1);
                            }
                        }
                        false
                    }
                },
                _ => {
                    proof {
                        crate::ast::lemma_ty_expr_model_variants(**inner);
                    }
                    false
                },
            };
            if is_string {
                proof {
                    assert(spec_anon_java(ty@) == Option::Some("String"@));
                }
                Result::Ok(String::from_str("String"))
            } else {
                anon_rust_to_java(inner)
            }
        },
        TyExpr::Path(segs) => {
            proof {
                lemma_segments_model_index(segs@);
                assert(crate::ast::ty_expr_model(*ty) == TyExprV::Path(segments_model(segs@)));
            }
            if segs.len() == 0 {
                Result::Err(
                    Error {
                        level: Level::Error,
                        span: Option::None,
                        message: String::from_str("an empty path cannot be converted"),
                    },
                )
            } else if segs.len() > 1 {
                let mut module_segs: Vec<String> = Vec::new();
                let mut i: usize = 0;
                while i < segs.len() - 1
                    invariant
                        segs@.len() >= 1,
                        i <= segs@.len() - 1,
                        module_segs@.len() == i,
                        forall|j: int| 0 <= j < i ==> #[trigger] module_segs@[j]@ == segs@[j]@,
                    decreases segs@.len() - 1 - i,
                {
                    module_segs.push(segs[i].clone());
                    i = i + 1;
                }
                let module = join_strings(&module_segs, "::");
                proof {
                    assert(module_segs.deep_view() =~= segments_model(segs@).drop_last());
                }
                let last = &segs[segs.len() - 1];
                proof {
                    assert(segments_model(segs@).last() == segs@[segs@.len() - 1]@);
                }
                if eq_str(module.as_str(), "libc") {
                    let converted = libc_ty_to_java(last.as_str());
                    proof {
                        assert(spec_anon_java(ty@) == Option::Some(libc_java(last@)));
                    }
                    Result::Ok(String::from_str(converted))
                } else if eq_str(module.as_str(), "std::os::raw") {
                    let converted = osraw_ty_to_java(last.as_str());
                    proof {
                        assert(spec_anon_java(ty@) == Option::Some(osraw_java(last@)));
                    }
                    Result::Ok(String::from_str(converted))
                } else {
                    Result::Err(
                        Error {
                            level: Level::Error,
                            span: Option::None,
                            message: String::from_str(
                                "types in other modules cannot be converted",
                            ),
                        },
                    )
                }
            } else {
                proof {
                    assert(segments_model(segs@)[0] == segs@[0]@);
                    assert(spec_anon_java(ty@) == Option::Some(rust_java(segs@[0]@)));
                }
                let converted = rust_ty_to_java(segs[0].as_str());
                Result::Ok(String::from_str(converted))
            }
        },
        TyExpr::Unit => {
            proof {
                assert(spec_anon_java(ty@) == Option::Some("void"@));
            }
            Result::Ok(String::from_str("void"))
        },
        _ => Result::Err(
            Error {
                level: Level::Error,
                span: Option::None,
                message: String::from_str("this type expression cannot be converted"),
            },
        ),
    }
}

/// Derive the generated interface name for a callback from its parameters.
pub fn callback_name(inputs: &Vec<ArgExpr>) -> (r: Result<String, Error>)
    ensures
        match r {
            Result::Ok(s) => spec_callback_name(args_model(inputs@)) == Option::Some(s@),
            Result::Err(e) => spec_callback_name(args_model(inputs@)) is None && e.level
                == Level::Error,
        },
{
    proof {
        lemma_args_model_index(inputs@);
    }
    let ghost model = args_model(inputs@);
    let mut basename = String::from_str("Callback");
    let mut i: usize = 0;
    while i < inputs.len()
        invariant
            i <= inputs@.len(),
            model == args_model(inputs@),
            model.len() == inputs@.len(),
            forall|j: int|
                0 <= j < inputs@.len() ==> model[j] == crate::ast::arg_model(
                    #[trigger] inputs@[j],
                ),
            match spec_callback_name_from(model, i as int) {
                Option::Some(rest) => Option::Some(basename@ + rest) == (match spec_callback_name(
                    model,
                ) {
                    Option::Some(full) => Option::Some(full),
                    Option::None => Option::None,
                }),
                Option::None => spec_callback_name(model) is None,
            },
        decreases inputs@.len() - i,
    {
        let arg = &inputs[i];
        if is_user_data_arg(arg) || is_result_arg(arg) {
            i = i + 1;
            continue ;
        }
        let java_ty = match anon_rust_to_java(&arg.ty) {
            Result::Ok(s) => s,
            Result::Err(e) => {
                return Result::Err(e);
            },
        };
        let word = to_class_case(java_ty.as_str());
        basename.append(word.as_str());
        let is_array = if i + 1 < inputs.len() {
            is_array_arg(arg, Option::Some(&inputs[i + 1]))
        } else {
            is_array_arg(arg, Option::None)
        };
        if is_array {
            basename.append("Array");
            i = i + 2;
        } else {
            i = i + 1;
        }
    }
    Result::Ok(basename)
}


// ----------------------------------------------------------------------------
// Callback conversion.

/// What converting a function-pointer argument yields: nothing visible for a
/// convention other than C, a generated interface name otherwise, or a hard
/// failure.
pub open spec fn spec_callback_arg_java(f: BareFnExprV) -> Option<Option<Seq<char>>> {
    if !spec_is_extern(f.abi) {
        Option::Some(Option::None)
    } else if f.lifetimes > 0 {
        Option::None
    } else {
        match spec_callback_name(f.inputs) {
            Option::None => Option::None,
            Option::Some(n) => Option::Some(Option::Some(n)),
        }
    }
}

/// What converting any type expression yields for the target language.
pub open spec fn spec_rust_java_ty(t: TyExprV) -> Option<Option<Seq<char>>> {
    match t {
        TyExprV::BareFn(f) => spec_callback_arg_java(*f),
        _ => match spec_anon_java(t) {
            Option::None => Option::None,
            Option::Some(s) => Option::Some(Option::Some(s)),
        },
    }
}

/// Convert a type expression to its target name: a function pointer becomes
/// its generated interface name.
pub fn rust_to_java(ty: &TyExpr) -> (r: Result<Option<String>, Error>)
    ensures
        match r {
            Result::Ok(opt) => spec_rust_java_ty(ty@) == Option::Some(
                match opt {
                    Option::Some(s) => Option::Some(s@),
                    Option::None => Option::None,
                },
            ),
            Result::Err(e) => spec_rust_java_ty(ty@) is None && e.level == Level::Error,
        },
{
    proof {
        crate::ast::lemma_ty_expr_model_variants(*ty);
    }
    match ty {
        TyExpr::BareFn(f) => {
            proof {
                assert(crate::ast::ty_expr_model(*ty) == TyExprV::BareFn(
                    Box::new(crate::ast::bare_fn_model(**f)),
                ));
                assert(crate::ast::bare_fn_model(**f).abi == f.abi);
                assert(crate::ast::bare_fn_model(**f).lifetimes == f.lifetimes);
                assert(crate::ast::bare_fn_model(**f).inputs == args_model(f.inputs@));
            }
            if !is_extern(f.abi) {
                return Result::Ok(Option::None);
            }
            if f.lifetimes > 0 {
                return Result::Err(
                    Error {
                        level: Level::Error,
                        span: Option::None,
                        message: String::from_str("lifetimes cannot be converted"),
                    },
                );
            }
            match callback_name(&f.inputs) {
                Result::Ok(n) => Result::Ok(Option::Some(n)),
                Result::Err(e) => Result::Err(e),
            }
        },
        _ => {
            match anon_rust_to_java(ty) {
                Result::Ok(s) => Result::Ok(Option::Some(s)),
                Result::Err(e) => Result::Err(e),
            }
        },
    }
}

/// The first following argument that is not the context parameter.
pub open spec fn next_visible(args: Seq<ArgExprV>, i: int) -> int
    decreases args.len() - i,
{
    if i + 1 >= args.len() {
        args.len() as int
    } else if is_user_data_arg_spec(args[i + 1]) {
        next_visible(args, i + 1)
    } else {
        i + 1
    }
}

/// The rendered parameter pieces from position `i` on: context parameters
/// are never emitted, and an array pointer/length pair (adjacent once the
/// context parameters are ignored) becomes one array-typed parameter.
pub open spec fn java_param_pieces(args: Seq<ArgExprV>, i: int) -> Option<Seq<Seq<char>>>
    decreases args.len() - i,
{
    if i < 0 || i >= args.len() {
        Option::Some(Seq::empty())
    } else if is_user_data_arg_spec(args[i]) {
        java_param_pieces(args, i + 1)
    } else {
        match spec_rust_java_ty(args[i].ty) {
            Option::None => Option::None,
            Option::Some(opt) => {
                let jty = match opt {
                    Option::Some(s) => s,
                    Option::None => Seq::empty(),
                };
                let j = next_visible(args, i);
                let pair = j < args.len() && is_array_arg_spec(args[i], Option::Some(args[j]));
                let piece = if pair {
                    jty + "[]"@ + " "@ + camel_of(args[i].name)
                } else {
                    jty + " "@ + camel_of(args[i].name)
                };
                let next = if pair && j >= i + 1 {
                    j + 1
                } else {
                    i + 1
                };
                match java_param_pieces(args, next) {
                    Option::None => Option::None,
                    Option::Some(rest) => Option::Some(seq![piece] + rest),
                }
            },
        }
    }
}

/// Find the next following argument that is not the context parameter.
pub fn find_next_visible(inputs: &Vec<ArgExpr>, i: usize) -> (r: usize)
    requires
        i < inputs@.len(),
    ensures
        r == next_visible(args_model(inputs@), i as int),
        i < r <= inputs@.len(),
        r < inputs@.len() ==> args_model(inputs@)[r as int] == crate::ast::arg_model(
            inputs@[r as int],
        ),
    decreases inputs@.len() - i,
{
    proof {
        lemma_args_model_index(inputs@);
    }
    if inputs.len() - i <= 1 {
        inputs.len()
    } else if is_user_data_arg(&inputs[i + 1]) {
        find_next_visible(inputs, i + 1)
    } else {
        i + 1
    }
}

/// Render the visible parameter list of a declaration or callback.
pub fn java_params(inputs: &Vec<ArgExpr>) -> (r: Result<String, Error>)
    ensures
        match r {
            Result::Ok(s) => match java_param_pieces(args_model(inputs@), 0) {
                Option::Some(pieces) => s@ == join_pieces(pieces, ", "@),
                Option::None => false,
            },
            Result::Err(e) => java_param_pieces(args_model(inputs@), 0) is None && e.level
                == Level::Error,
        },
{
    proof {
        lemma_args_model_index(inputs@);
    }
    let ghost model = args_model(inputs@);
    let mut pieces: Vec<String> = Vec::new();
    let mut i: usize = 0;
    while i < inputs.len()
        invariant
            i <= inputs@.len(),
            model == args_model(inputs@),
            model.len() == inputs@.len(),
            forall|j: int|
                0 <= j < inputs@.len() ==> model[j] == crate::ast::arg_model(
                    #[trigger] inputs@[j],
                ),
            match java_param_pieces(model, i as int) {
                Option::Some(rest) => java_param_pieces(model, 0) == Option::Some(
                    pieces.deep_view() + rest,
                ),
                Option::None => java_param_pieces(model, 0) is None,
            },
        decreases inputs@.len() - i,
    {
        let arg = &inputs[i];
        if is_user_data_arg(arg) {
            i = i + 1;
            continue ;
        }
        let jty = match rust_to_java(&arg.ty) {
            Result::Ok(Option::Some(s)) => s,
            Result::Ok(Option::None) => String::new(),
            Result::Err(e) => {
                return Result::Err(e);
            },
        };
        let j = find_next_visible(inputs, i);
        let pair = if j < inputs.len() {
            is_array_arg(arg, Option::Some(&inputs[j]))
        } else {
            false
        };
        let ghost prev = pieces.deep_view();
        let mut piece = jty;
        if pair {
            piece.append("[]");
        }
        piece.append(" ");
        let cname = to_camel_case(arg.name.as_str());
        piece.append(cname.as_str());
        pieces.push(piece);
        proof {
            assert(pieces.deep_view() =~= prev.push(pieces@.last()@));
        }
        if pair {
            proof {
                assert(pieces.deep_view() + (match java_param_pieces(model, j + 1) {
                    Option::Some(rest) => rest,
                    Option::None => Seq::empty(),
                }) =~= prev + (seq![pieces@.last()@] + (match java_param_pieces(model, j + 1) {
                    Option::Some(rest) => rest,
                    Option::None => Seq::empty(),
                })));
            }
            i = j + 1;
        } else {
            proof {
                assert(pieces.deep_view() + (match java_param_pieces(model, i + 1) {
                    Option::Some(rest) => rest,
                    Option::None => Seq::empty(),
                }) =~= prev + (seq![pieces@.last()@] + (match java_param_pieces(model, i + 1) {
                    Option::Some(rest) => rest,
                    Option::None => Seq::empty(),
                })));
            }
            i = i + 1;
        }
    }
    proof {
        assert(java_param_pieces(model, model.len() as int) == Option::Some(
            Seq::<Seq<char>>::empty(),
        ));
        assert(match java_param_pieces(model, 0) {
            Option::Some(pieces_spec) => pieces_spec =~= pieces.deep_view(),
            Option::None => false,
        });
    }
    Result::Ok(join_strings(&pieces, ", "))
}

/// The generated interface artifact for a callback.
pub open spec fn spec_transform_callback(f: BareFnExprV, class_name: Seq<char>) -> Option<
    Option<Seq<char>>,
> {
    if !spec_is_extern(f.abi) {
        Option::Some(Option::None)
    } else if f.lifetimes > 0 {
        Option::None
    } else {
        match java_param_pieces(f.inputs, 0) {
            Option::None => Option::None,
            Option::Some(pieces) => Option::Some(
                Option::Some(
                    "public interface "@ + class_name + " {\n    public call("@ + join_pieces(
                        pieces,
                        ", "@,
                    ) + ");\n}\n"@,
                ),
            ),
        }
    }
}

/// Turn a callback function type into a generated interface declaration.
pub fn transform_callback(ty: &TyExpr, class_name: &str) -> (r: Result<Option<String>, Error>)
    ensures
        match r {
            Result::Ok(opt) => match ty@ {
                TyExprV::BareFn(f) => spec_transform_callback(*f, class_name@) == Option::Some(
                    match opt {
                        Option::Some(s) => Option::Some(s@),
                        Option::None => Option::None,
                    },
                ),
                _ => false,
            },
            Result::Err(e) => e.level == Level::Error && (match ty@ {
                TyExprV::BareFn(f) => spec_transform_callback(*f, class_name@) is None,
                _ => true,
            }),
        },
{
    proof {
        crate::ast::lemma_ty_expr_model_variants(*ty);
    }
    match ty {
        TyExpr::BareFn(f) => {
            proof {
                assert(crate::ast::ty_expr_model(*ty) == TyExprV::BareFn(
                    Box::new(crate::ast::bare_fn_model(**f)),
                ));
                assert(crate::ast::bare_fn_model(**f).abi == f.abi);
                assert(crate::ast::bare_fn_model(**f).lifetimes == f.lifetimes);
                assert(crate::ast::bare_fn_model(**f).inputs == args_model(f.inputs@));
            }
            if !is_extern(f.abi) {
                return Result::Ok(Option::None);
            }
            if f.lifetimes > 0 {
                return Result::Err(
                    Error {
                        level: Level::Error,
                        span: Option::None,
                        message: String::from_str("lifetimes cannot be converted"),
                    },
                );
            }
            let params = match java_params(&f.inputs) {
                Result::Ok(s) => s,
                Result::Err(e) => {
                    return Result::Err(e);
                },
            };
            let mut text = String::from_str("public interface ");
            text.append(class_name);
            text.append(" {\n    public call(");
            text.append(params.as_str());
            text.append(");\n}\n");
            proof {
                assert(match spec_transform_callback(
                    crate::ast::bare_fn_model(**f),
                    class_name@,
                ) {
                    Option::Some(Option::Some(s)) => text@ =~= s,
                    _ => false,
                });
            }
            Result::Ok(Option::Some(text))
        },
        _ => Result::Err(
            Error {
                level: Level::Error,
                span: Option::None,
                message: String::from_str("only a function pointer can be a callback"),
            },
        ),
    }
}


// ----------------------------------------------------------------------------
// Native function transformation.

/// The return-type text of a native declaration, or nothing when the return
/// type cannot cross the boundary.
pub open spec fn spec_native_ret(out: RetExprV) -> Option<Seq<char>> {
    match out {
        RetExprV::Omitted => Option::Some("public static native void"@),
        RetExprV::Ty(t) => {
            if t is Never {
                Option::None
            } else {
                match spec_rust_java_ty(t) {
                    Option::None => Option::None,
                    Option::Some(opt) => Option::Some(
                        match opt {
                            Option::Some(s) => s,
                            Option::None => Seq::empty(),
                        },
                    ),
                }
            }
        },
    }
}

/// The text appended to the native-bindings artifact for one function.
pub open spec fn spec_native_buffer(
    decl: BareFnExprV,
    docs: Seq<char>,
    name: Seq<char>,
) -> Option<Seq<char>> {
    match java_param_pieces(decl.inputs, 0) {
        Option::None => Option::None,
        Option::Some(pieces) => match spec_native_ret(decl.output) {
            Option::None => Option::None,
            Option::Some(ret) => Option::Some(
                "/**\n"@ + docs + " */\n"@ + ret + " "@ + camel_of(name) + "("@ + join_pieces(
                    pieces,
                    ", "@,
                ) + ")"@ + ";\n\n"@,
            ),
        },
    }
}

/// The callback interface artifacts named by the function-pointer
/// parameters, in order: artifact name and text.
pub open spec fn cb_units(args: Seq<ArgExprV>, i: int) -> Option<Seq<(Seq<char>, Seq<char>)>>
    decreases args.len() - i,
{
    if i < 0 || i >= args.len() {
        Option::Some(Seq::empty())
    } else {
        match args[i].ty {
            TyExprV::BareFn(f) => match spec_callback_name(f.inputs) {
                Option::None => Option::None,
                Option::Some(nm) => match spec_transform_callback(*f, nm) {
                    Option::None => Option::None,
                    Option::Some(opt) => {
                        let text = match opt {
                            Option::Some(t) => t,
                            Option::None => Seq::empty(),
                        };
                        match cb_units(args, i + 1) {
                            Option::None => Option::None,
                            Option::Some(rest) => Option::Some(
                                seq![(nm + ".java"@, text)] + rest,
                            ),
                        }
                    },
                },
            },
            _ => cb_units(args, i + 1),
        }
    }
}

/// The first artifact among the units carrying a name.
pub open spec fn first_unit(units: Seq<(Seq<char>, Seq<char>)>, k: Seq<char>) -> Option<Seq<char>>
    decreases units,
{
    if units.len() == 0 {
        Option::None
    } else if units[0].0 == k {
        Option::Some(units[0].1)
    } else {
        first_unit(units.drop_first(), k)
    }
}

/// What a name maps to after the units were written, each only when the name
/// was still absent.
pub open spec fn after_units(
    units: Seq<(Seq<char>, Seq<char>)>,
    k: Seq<char>,
    old_val: Option<Seq<char>>,
) -> Option<Seq<char>> {
    if old_val is Some {
        old_val
    } else {
        first_unit(units, k)
    }
}

proof fn lemma_first_unit_push(units: Seq<(Seq<char>, Seq<char>)>, e: (Seq<char>, Seq<char>), k: Seq<char>)
    ensures
        first_unit(units.push(e), k) == (match first_unit(units, k) {
            Option::Some(t) => Option::Some(t),
            Option::None => {
                if e.0 == k {
                    Option::Some(e.1)
                } else {
                    Option::None
                }
            },
        }),
    decreases units,
{
    let u = units.push(e);
    if units.len() == 0 {
        assert(u[0] == e);
        assert(u.drop_first() =~= Seq::<(Seq<char>, Seq<char>)>::empty());
    } else {
        assert(u[0] == units[0]);
        lemma_first_unit_push(units.drop_first(), e, k);
        assert(u.drop_first() =~= units.drop_first().push(e));
        if units[0].0 == k {
            assert(first_unit(u, k) == Option::Some(units[0].1));
            assert(first_unit(units, k) == Option::Some(units[0].1));
        } else {
            assert(first_unit(u, k) == first_unit(u.drop_first(), k));
            assert(first_unit(units, k) == first_unit(units.drop_first(), k));
        }
    }
}

fn gather_cb_units(inputs: &Vec<ArgExpr>) -> (r: Result<Vec<(String, String)>, Error>)
    ensures
        match r {
            Result::Ok(units) => cb_units(args_model(inputs@), 0) == Option::Some(
                units@.map_values(|u: (String, String)| (u.0@, u.1@)),
            ),
            Result::Err(e) => cb_units(args_model(inputs@), 0) is None && e.level == Level::Error,
        },
{
    proof {
        lemma_args_model_index(inputs@);
    }
    let ghost model = args_model(inputs@);
    let mut units: Vec<(String, String)> = Vec::new();
    let mut i: usize = 0;
    while i < inputs.len()
        invariant
            i <= inputs@.len(),
            model == args_model(inputs@),
            model.len() == inputs@.len(),
            forall|j: int|
                0 <= j < inputs@.len() ==> model[j] == crate::ast::arg_model(
                    #[trigger] inputs@[j],
                ),
            match cb_units(model, i as int) {
                Option::Some(rest) => cb_units(model, 0) == Option::Some(
                    units@.map_values(|u: (String, String)| (u.0@, u.1@)) + rest,
                ),
                Option::None => cb_units(model, 0) is None,
            },
        decreases inputs@.len() - i,
    {
        let arg = &inputs[i];
        match &arg.ty {
            TyExpr::BareFn(f) => {
                proof {
                    assert(model[i as int].ty == TyExprV::BareFn(
                        Box::new(crate::ast::bare_fn_model(**f)),
                    ));
                    assert(crate::ast::bare_fn_model(**f).inputs == args_model(f.inputs@));
                }
                let cb_class = match callback_name(&f.inputs) {
                    Result::Ok(n) => n,
                    Result::Err(e) => {
                        return Result::Err(e);
                    },
                };
                let text = match transform_callback(&arg.ty, cb_class.as_str()) {
                    Result::Ok(Option::Some(t)) => t,
                    Result::Ok(Option::None) => String::new(),
                    Result::Err(e) => {
                        return Result::Err(e);
                    },
                };
                let mut key = cb_class;
                key.append(".java");
                let ghost prev = units@.map_values(|u: (String, String)| (u.0@, u.1@));
                units.push((key, text));
                proof {
                    assert(units@.map_values(|u: (String, String)| (u.0@, u.1@)) =~= prev.push(
                        (units@.last().0@, units@.last().1@),
                    ));
                    assert(units@.map_values(|u: (String, String)| (u.0@, u.1@)) + (match cb_units(
                        model,
                        i + 1,
                    ) {
                        Option::Some(rest) => rest,
                        Option::None => Seq::empty(),
                    }) =~= prev + (seq![(units@.last().0@, units@.last().1@)] + (match cb_units(
                        model,
                        i + 1,
                    ) {
                        Option::Some(rest) => rest,
                        Option::None => Seq::empty(),
                    })));
                }
            },
            _ => {
                proof {
                    crate::ast::lemma_ty_expr_model_variants(inputs@[i as int].ty);
                    assert(model[i as int].ty == crate::ast::ty_expr_model(inputs@[i as int].ty));
                }
            },
        }
        i = i + 1;
    }
    proof {
        assert(cb_units(model, model.len() as int) == Option::Some(
            Seq::<(Seq<char>, Seq<char>)>::empty(),
        ));
        assert(match cb_units(model, 0) {
            Option::Some(us) => us =~= units@.map_values(|u: (String, String)| (u.0@, u.1@)),
            Option::None => false,
        });
    }
    Result::Ok(units)
}

/// Transform one exported function into a native-bindings declaration,
/// generating the interface artifact of every callback parameter that does
/// not exist yet. On a hard failure nothing is written.
pub fn transform_native_fn(
    decl: &BareFnExpr,
    docs: &str,
    name: &str,
    outputs: &mut Outputs,
) -> (r: Result<(), Error>)
    requires
        old(outputs).wf(),
    ensures
        final(outputs).wf(),
        match r {
            Result::Ok(_) => ({
                let buffer = spec_native_buffer(decl@, docs@, name@);
                let units = cb_units(decl@.inputs, 0);
                &&& buffer is Some
                &&& units is Some
                &&& forall|k: Seq<char>|
                    k != "NativeBindings.java"@ ==> #[trigger] final(outputs).lookup(k)
                        == after_units(units->0, k, old(outputs).lookup(k))
                &&& final(outputs).lookup("NativeBindings.java"@) == Option::Some(
                    match after_units(
                        units->0,
                        "NativeBindings.java"@,
                        old(outputs).lookup("NativeBindings.java"@),
                    ) {
                        Option::Some(p) => p + buffer->0,
                        Option::None => buffer->0,
                    },
                )
            }),
            Result::Err(e) => {
                &&& e.level == Level::Error
                &&& (spec_native_buffer(decl@, docs@, name@) is None || cb_units(decl@.inputs, 0)
                    is None)
                &&& *final(outputs) == *old(outputs)
            },
        },
{
    let params = match java_params(&decl.inputs) {
        Result::Ok(s) => s,
        Result::Err(e) => {
            return Result::Err(e);
        },
    };
    let ret: String = match &decl.output {
        RetExpr::Omitted => String::from_str("public static native void"),
        RetExpr::Ty(t) => {
            let never = match t {
                TyExpr::Never => true,
                _ => false,
            };
            proof {
                crate::ast::lemma_ty_expr_model_variants(*t);
            }
            if never {
                return Result::Err(
                    Error {
                        level: Level::Error,
                        span: Option::None,
                        message: String::from_str("panics across a C boundary are naughty!"),
                    },
                );
            }
            match rust_to_java(t) {
                Result::Ok(Option::Some(s)) => s,
                Result::Ok(Option::None) => String::new(),
                Result::Err(e) => {
                    return Result::Err(e);
                },
            }
        },
    };
    let units = match gather_cb_units(&decl.inputs) {
        Result::Ok(us) => us,
        Result::Err(e) => {
            return Result::Err(e);
        },
    };
    let mut buffer = String::from_str("/**\n");
    buffer.append(docs);
    buffer.append(" */\n");
    buffer.append(ret.as_str());
    buffer.append(" ");
    let jname = to_camel_case(name);
    buffer.append(jname.as_str());
    buffer.append("(");
    buffer.append(params.as_str());
    buffer.append(")");
    buffer.append(";\n\n");
    proof {
        assert(spec_native_buffer(decl@, docs@, name@) == Option::Some(buffer@)) by {
            assert(buffer@ =~= spec_native_buffer(decl@, docs@, name@)->0);
        }
    }
    let ghost units_model = units@.map_values(|u: (String, String)| (u.0@, u.1@));
    let mut u: usize = 0;
    while u < units.len()
        invariant
            u <= units@.len(),
            outputs.wf(),
            units_model == units@.map_values(|u: (String, String)| (u.0@, u.1@)),
            units_model.len() == units@.len(),
            forall|k: Seq<char>|
                #[trigger] outputs.lookup(k) == after_units(
                    units_model.take(u as int),
                    k,
                    old(outputs).lookup(k),
                ),
        decreases units@.len() - u,
    {
        let unit = &units[u];
        proof {
            assert(units_model[u as int] == (units@[u as int].0@, units@[u as int].1@));
        }
        if !outputs.contains(unit.0.as_str()) {
            outputs.insert(unit.0.as_str(), unit.1.clone());
        }
        proof {
            assert(units_model.take(u + 1) =~= units_model.take(u as int).push(
                units_model[u as int],
            ));
            assert forall|k: Seq<char>|
                #[trigger] outputs.lookup(k) == after_units(
                    units_model.take(u + 1),
                    k,
                    old(outputs).lookup(k),
                ) by {
                lemma_first_unit_push(units_model.take(u as int), units_model[u as int], k);
            }
        }
        u = u + 1;
    }
    proof {
        assert(units_model.take(units_model.len() as int) =~= units_model);
    }
    outputs.append_to("NativeBindings.java", buffer.as_str());
    Result::Ok(())
}

impl LangJava {
    /// Convert an exported function declaration into a native-bindings
    /// declaration. Declarations without the no-name-mangling marker or a
    /// C-compatible calling convention are skipped; a parameterized one
    /// fails hard.
    pub fn parse_fn(&self, item: &Item, outputs: &mut Outputs) -> (r: Result<(), Error>)
        requires
            old(outputs).wf(),
        ensures
            final(outputs).wf(),
            match item@.kind {
                ItemKindV::Fn(decl) => {
                    if !any_attr_matches(AttrCheck::NoMangle, item@.attrs) || !spec_is_extern(
                        decl.abi,
                    ) {
                        r is Ok && *final(outputs) == *old(outputs)
                    } else if item@.generics > 0 {
                        r is Err && r->Err_0.level == Level::Error
                            && *final(outputs) == *old(outputs)
                    } else {
                        match r {
                            Result::Ok(_) => ({
                                let docs = docs_of(item@.attrs, " *"@);
                                let buffer = spec_native_buffer(decl, docs, item@.name);
                                let units = cb_units(decl.inputs, 0);
                                &&& buffer is Some
                                &&& units is Some
                                &&& forall|k: Seq<char>|
                                    k != "NativeBindings.java"@
                                        ==> #[trigger] final(outputs).lookup(k) == after_units(
                                        units->0,
                                        k,
                                        old(outputs).lookup(k),
                                    )
                                &&& final(outputs).lookup("NativeBindings.java"@)
                                    == Option::Some(
                                    match after_units(
                                        units->0,
                                        "NativeBindings.java"@,
                                        old(outputs).lookup("NativeBindings.java"@),
                                    ) {
                                        Option::Some(p) => p + buffer->0,
                                        Option::None => buffer->0,
                                    },
                                )
                            }),
                            Result::Err(e) => e.level == Level::Error
                                && *final(outputs) == *old(outputs),
                        }
                    }
                },
                _ => {
                    if !any_attr_matches(AttrCheck::NoMangle, item@.attrs) {
                        r is Ok && *final(outputs) == *old(outputs)
                    } else {
                        r is Err && r->Err_0.level == Level::Bug && *final(outputs) == *old(
                            outputs,
                        )
                    }
                },
            },
    {
        let (no_mangle, docs) = parse_attr(&item.attrs, AttrCheck::NoMangle, " *");
        if !no_mangle {
            return Result::Ok(());
        }
        match &item.kind {
            ItemKind::Fn(decl) => {
                if !is_extern(decl.abi) {
                    return Result::Ok(());
                }
                if item.generics > 0 {
                    let mut message = String::from_str(
                        "bindgen can not handle parameterized extern functions",
                    );
                    return Result::Err(
                        Error { level: Level::Error, span: Option::Some(item.span), message },
                    );
                }
                transform_native_fn(decl, docs.as_str(), item.name.as_str(), outputs)
            },
            _ => Result::Err(
                Error {
                    level: Level::Bug,
                    span: Option::Some(item.span),
                    message: String::from_str("a function entry point got a non-function"),
                },
            ),
        }
    }

    /// Wrap the collected native-bindings declarations into their container
    /// class; a run that produced none is a hard failure at finalization.
    pub fn finalise_output(&self, outputs: &mut Outputs) -> (r: Result<(), Error>)
        requires
            old(outputs).wf(),
        ensures
            final(outputs).wf(),
            match old(outputs).lookup("NativeBindings.java"@) {
                Option::Some(t) => {
                    &&& r is Ok
                    &&& final(outputs).lookup("NativeBindings.java"@) == Option::Some(
                        "public class NativeBindings {\n"@ + t + "\n}"@,
                    )
                    &&& forall|k: Seq<char>|
                        k != "NativeBindings.java"@ ==> #[trigger] final(outputs).lookup(k)
                            == old(outputs).lookup(k)
                },
                Option::None => {
                    &&& r is Err
                    &&& r->Err_0.level == Level::Error
                    &&& r->Err_0.message@ == "no native bindings generated?"@
                    &&& *final(outputs) == *old(outputs)
                },
            },
    {
        let existing: Option<String> = match outputs.get("NativeBindings.java") {
            Option::Some(t) => Option::Some(t.clone()),
            Option::None => Option::None,
        };
        match existing {
            Option::Some(t) => {
                let mut wrapped = String::from_str("public class NativeBindings {\n");
                wrapped.append(t.as_str());
                wrapped.append("\n}");
                outputs.insert("NativeBindings.java", wrapped);
                Result::Ok(())
            },
            Option::None => Result::Err(
                Error {
                    level: Level::Error,
                    span: Option::None,
                    message: String::from_str("no native bindings generated?"),
                },
            ),
        }
    }
}


// ----------------------------------------------------------------------------
// Struct conversion.

/// The field lines of a generated class, from position `i` on.
pub open spec fn java_field_lines(fs: Seq<crate::ast::FieldExprV>, i: int) -> Option<Seq<char>>
    decreases fs.len() - i,
{
    if i < 0 || i >= fs.len() {
        Option::Some(Seq::empty())
    } else {
        match spec_rust_java_ty(fs[i].ty) {
            Option::None => Option::None,
            Option::Some(opt) => {
                let jty = match opt {
                    Option::Some(s) => s,
                    Option::None => Seq::empty(),
                };
                match java_field_lines(fs, i + 1) {
                    Option::None => Option::None,
                    Option::Some(rest) => Option::Some(
                        docs_of(fs[i].attrs, "\t"@) + "\tpublic "@ + jty + " "@ + camel_of(
                            fs[i].name,
                        ) + ";\n"@ + rest,
                    ),
                }
            },
        }
    }
}

/// The generated class artifact for a struct declaration, or nothing for an
/// unsupported shape or field.
pub open spec fn spec_java_struct_text(
    docs: Seq<char>,
    name: Seq<char>,
    shape: StructShapeV,
) -> Option<Seq<char>> {
    match shape {
        StructShapeV::Fields(fs) => match java_field_lines(fs, 0) {
            Option::None => Option::None,
            Option::Some(lines) => Option::Some(
                docs + "public class "@ + class_of(name) + " {\n"@ + lines + "}"@ + ";\n\n"@,
            ),
        },
        StructShapeV::Tuple(n) => {
            if n == 1 {
                Option::Some(docs + "public class "@ + class_of(name) + ";\n\n"@)
            } else {
                Option::None
            }
        },
        StructShapeV::Unit => Option::None,
    }
}

impl LangJava {
    /// Convert a struct declaration with the C-compatible-layout marker into
    /// a generated class artifact. A parameterized struct, a unit or
    /// many-field tuple shape, or an unconvertible field type fails hard; a
    /// one-field tuple struct becomes an opaque class.
    pub fn parse_struct(&self, item: &Item, outputs: &mut Outputs) -> (r: Result<(), Error>)
        requires
            old(outputs).wf(),
        ensures
            final(outputs).wf(),
            match item@.kind {
                ItemKindV::Struct(shape) => {
                    if !any_attr_matches(AttrCheck::ReprC, item@.attrs) {
                        r is Ok && *final(outputs) == *old(outputs)
                    } else if item@.generics > 0 {
                        r is Err && r->Err_0.level == Level::Error
                            && *final(outputs) == *old(outputs)
                    } else {
                        match spec_java_struct_text(
                            docs_of(item@.attrs, " *"@),
                            item@.name,
                            shape,
                        ) {
                            Option::Some(text) => {
                                &&& r is Ok
                                &&& final(outputs).lookup(class_of(item@.name) + ".java"@)
                                    == Option::Some(text)
                                &&& forall|k: Seq<char>|
                                    k != class_of(item@.name) + ".java"@
                                        ==> #[trigger] final(outputs).lookup(k) == old(
                                        outputs,
                                    ).lookup(k)
                            },
                            Option::None => {
                                &&& r is Err
                                &&& r->Err_0.level == Level::Error
                                &&& *final(outputs) == *old(outputs)
                            },
                        }
                    }
                },
                _ => {
                    if !any_attr_matches(AttrCheck::ReprC, item@.attrs) {
                        r is Ok && *final(outputs) == *old(outputs)
                    } else {
                        r is Err && r->Err_0.level == Level::Bug && *final(outputs) == *old(
                            outputs,
                        )
                    }
                },
            },
    {
        let (repr_c, docs) = parse_attr(&item.attrs, AttrCheck::ReprC, " *");
        if !repr_c {
            return Result::Ok(());
        }
        match &item.kind {
            ItemKind::Struct(shape) => {
                if item.generics > 0 {
                    return Result::Err(
                        Error {
                            level: Level::Error,
                            span: Option::Some(item.span),
                            message: String::from_str(
                                "bindgen can not handle parameterized structs",
                            ),
                        },
                    );
                }
                let class = to_class_case(item.name.as_str());
                let mut buffer = docs;
                buffer.append("public class ");
                buffer.append(class.as_str());
                match shape {
                    StructShape::Fields(fs) => {
                        proof {
                            lemma_fields_model_index(fs@);
                        }
                        let ghost model = fields_model(fs@);
                        buffer.append(" {\n");
                        let ghost header = buffer@;
                        let mut i: usize = 0;
                        while i < fs.len()
                            invariant
                                i <= fs@.len(),
                                model == fields_model(fs@),
                                model.len() == fs@.len(),
                                forall|j: int|
                                    0 <= j < fs@.len() ==> model[j] == crate::ast::field_model(
                                        #[trigger] fs@[j],
                                    ),
                                match java_field_lines(model, i as int) {
                                    Option::Some(rest) => (match java_field_lines(model, 0) {
                                        Option::Some(all) => buffer@ + rest == header + all,
                                        Option::None => false,
                                    }),
                                    Option::None => java_field_lines(model, 0) is None,
                                },
                                outputs.wf(),
                                *outputs == *old(outputs),
                                any_attr_matches(AttrCheck::ReprC, item@.attrs),
                                item@.kind == ItemKindV::Struct(StructShapeV::Fields(model)),
                            decreases fs@.len() - i,
                        {
                            let f = &fs[i];
                            let field_docs = parse_attr(&f.attrs, AttrCheck::Any, "\t").1;
                            let jty = match rust_to_java(&f.ty) {
                                Result::Ok(Option::Some(s)) => s,
                                Result::Ok(Option::None) => String::new(),
                                Result::Err(e) => {
                                    proof {
                                        assert(model[i as int] == crate::ast::field_model(
                                            fs@[i as int],
                                        ));
                                        assert(java_field_lines(model, i as int) is None);
                                    }
                                    return Result::Err(e);
                                },
                            };
                            let ghost prev = buffer@;
                            buffer.append(field_docs.as_str());
                            buffer.append("\tpublic ");
                            buffer.append(jty.as_str());
                            buffer.append(" ");
                            let cname = to_camel_case(f.name.as_str());
                            buffer.append(cname.as_str());
                            buffer.append(";\n");
                            proof {
                                assert(buffer@ + (match java_field_lines(model, i + 1) {
                                    Option::Some(rest) => rest,
                                    Option::None => Seq::empty(),
                                }) =~= prev + (docs_of(model[i as int].attrs, "\t"@) + "\tpublic "@
                                    + (match spec_rust_java_ty(model[i as int].ty) {
                                    Option::Some(Option::Some(s)) => s,
                                    _ => Seq::empty(),
                                }) + " "@ + camel_of(model[i as int].name) + ";\n"@ + (
                                match java_field_lines(model, i + 1) {
                                    Option::Some(rest) => rest,
                                    Option::None => Seq::empty(),
                                })));
                            }
                            i = i + 1;
                        }
                        proof {
                            assert(java_field_lines(model, model.len() as int) == Option::Some(
                                Seq::<char>::empty(),
                            ));
                        }
                        buffer.append("}");
                        buffer.append(";\n\n");
                        let mut key = class;
                        key.append(".java");
                        proof {
                            assert(buffer@ =~= spec_java_struct_text(
                                docs_of(item@.attrs, " *"@),
                                item@.name,
                                crate::ast::shape_model(*shape),
                            )->0);
                        }
                        outputs.insert(key.as_str(), buffer);
                        Result::Ok(())
                    },
                    StructShape::Tuple(n) => {
                        if *n == 1 {
                            buffer.append(";\n\n");
                            let mut key = class;
                            key.append(".java");
                            proof {
                                assert(buffer@ =~= spec_java_struct_text(
                                    docs_of(item@.attrs, " *"@),
                                    item@.name,
                                    crate::ast::shape_model(*shape),
                                )->0);
                            }
                            outputs.insert(key.as_str(), buffer);
                            Result::Ok(())
                        } else {
                            Result::Err(
                                Error {
                                    level: Level::Error,
                                    span: Option::Some(item.span),
                                    message: String::from_str(
                                        "bindgen can not handle unit or tuple structs with more than one member",
                                    ),
                                },
                            )
                        }
                    },
                    StructShape::Unit => Result::Err(
                        Error {
                            level: Level::Error,
                            span: Option::Some(item.span),
                            message: String::from_str(
                                "bindgen can not handle unit or tuple structs with more than one member",
                            ),
                        },
                    ),
                }
            },
            _ => Result::Err(
                Error {
                    level: Level::Bug,
                    span: Option::Some(item.span),
                    message: String::from_str("a struct entry point got a non-struct"),
                },
            ),
        }
    }
}

} // verus!
