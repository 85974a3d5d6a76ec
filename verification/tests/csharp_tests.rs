//! End-to-end tests of the object-oriented backend: collection, alias
//! resolution, native-type propagation, and artifact emission.

use bindgen::ast::{
    Abi, ArgExpr, Attr, BareFnExpr, ConstExpr, FieldExpr, Item, ItemKind, RetExpr, StructShape,
    TyExpr, VariantExpr,
};
use bindgen::common::Outputs;
use bindgen::csharp::emit::{callback_wrapper_name, csharp_type_name, emit_wrapper_struct};
use bindgen::csharp::{collect_callbacks, lookup_alias, resolve_alias, AliasTable, LangCSharp};
use bindgen::intermediate::{transform_type, Field, Function, Param, Snippet, Struct, Type};
use bindgen::Level;

fn path(s: &str) -> TyExpr {
    TyExpr::Path(vec![s.to_string()])
}

fn item(name: &str, attrs: Vec<Attr>, generics: u64, kind: ItemKind) -> Item {
    Item {
        name: name.to_string(),
        span: 7,
        generics,
        attrs,
        kind,
    }
}

fn fn_item(name: &str, inputs: Vec<ArgExpr>, output: RetExpr) -> Item {
    item(
        name,
        vec![Attr::NoMangle],
        0,
        ItemKind::Fn(BareFnExpr {
            abi: Abi::C,
            lifetimes: 0,
            inputs,
            output,
        }),
    )
}

fn arg(name: &str, ty: TyExpr) -> ArgExpr {
    ArgExpr {
        name: name.to_string(),
        ty,
    }
}

#[test]
fn primitive_keywords_are_distinct() {
    let prims = [
        Type::Unit,
        Type::Bool,
        Type::CChar,
        Type::F32,
        Type::F64,
        Type::I8,
        Type::I16,
        Type::I32,
        Type::I64,
        Type::ISize,
        Type::U8,
        Type::U16,
        Type::U32,
        Type::U64,
        Type::USize,
        Type::StringPtr,
    ];
    let mut seen: Vec<String> = Vec::new();
    for p in prims.iter() {
        let kw = csharp_type_name(p);
        assert!(!seen.contains(&kw), "duplicate keyword {}", kw);
        seen.push(kw);
    }
}

#[test]
fn alias_resolution_is_transitive_and_idempotent() {
    let mut aliases = AliasTable::new();
    aliases.insert("Handle", Type::U64);
    aliases.insert("AppHandle", Type::User("Handle".to_string()));
    let resolved = lookup_alias(&aliases, "AppHandle");
    assert!(matches!(resolved, Some(Type::U64)));

    let once = resolve_alias(&aliases, &Type::User("AppHandle".to_string()));
    let twice = resolve_alias(&aliases, &once);
    assert!(matches!(once, Type::U64));
    assert!(matches!(twice, Type::U64));
}

#[test]
fn alias_inside_composite_body_resolves_in_one_pass() {
    let mut aliases = AliasTable::new();
    aliases.insert(
        "Buf",
        Type::Array(Box::new(Type::User("Elem".to_string())), 2),
    );
    aliases.insert("Elem", Type::I32);
    let once = resolve_alias(&aliases, &Type::User("Buf".to_string()));
    match &once {
        Type::Array(inner, n) => {
            assert!(matches!(**inner, Type::I32));
            assert_eq!(*n, 2);
        }
        _ => panic!("the alias body must be substituted"),
    }
    let twice = resolve_alias(&aliases, &once);
    match twice {
        Type::Array(inner, n) => {
            assert!(matches!(*inner, Type::I32));
            assert_eq!(n, 2);
        }
        _ => panic!("a second pass must change nothing"),
    }
}

#[test]
fn cyclic_alias_chain_resolves_to_nothing() {
    let mut aliases = AliasTable::new();
    aliases.insert("A", Type::User("B".to_string()));
    aliases.insert("B", Type::User("A".to_string()));
    assert!(lookup_alias(&aliases, "A").is_none());
    let kept = resolve_alias(&aliases, &Type::User("A".to_string()));
    match kept {
        Type::User(n) => assert_eq!(n, "A"),
        _ => panic!("a cyclic alias must stay as it is"),
    }
}

#[test]
fn parse_ty_records_alias_and_rejects_unsupported() {
    let mut lang = LangCSharp::new();
    let mut outputs = Outputs::new();
    let ok = lang.parse_ty(
        &item("Handle", vec![], 0, ItemKind::Alias(path("u64"))),
        &mut outputs,
    );
    assert!(ok.is_ok());
    assert!(matches!(lookup_alias(&lang.aliases, "Handle"), Some(Type::U64)));

    let bad = lang.parse_ty(
        &item(
            "Bad",
            vec![],
            0,
            ItemKind::Alias(TyExpr::Other("&str".to_string())),
        ),
        &mut outputs,
    );
    match bad {
        Err(e) => {
            assert!(matches!(e.level, Level::Error));
            assert_eq!(e.span, Some(7));
        }
        Ok(_) => panic!("an unsupported aliased type must fail hard"),
    }
}

#[test]
fn enum_with_non_literal_discriminant_fails() {
    let mut lang = LangCSharp::new();
    let mut outputs = Outputs::new();
    let bad = lang.parse_enum(
        &item(
            "Mode",
            vec![Attr::ReprC],
            0,
            ItemKind::Enum(vec![VariantExpr {
                name: "First".to_string(),
                value: Some(ConstExpr::Other("1 + 1".to_string())),
            }]),
        ),
        &mut outputs,
    );
    assert!(bad.is_err());
}

#[test]
fn struct_without_layout_marker_is_skipped() {
    let mut lang = LangCSharp::new();
    let mut outputs = Outputs::new();
    let r = lang.parse_struct(
        &item(
            "Plain",
            vec![],
            0,
            ItemKind::Struct(StructShape::Fields(vec![])),
        ),
        &mut outputs,
    );
    assert!(r.is_ok());
    assert_eq!(lang.structs.len(), 0);
}

#[test]
fn generic_struct_under_layout_marker_fails_hard() {
    let mut lang = LangCSharp::new();
    let mut outputs = Outputs::new();
    let r = lang.parse_struct(
        &item(
            "Generic",
            vec![Attr::ReprC],
            1,
            ItemKind::Struct(StructShape::Fields(vec![])),
        ),
        &mut outputs,
    );
    match r {
        Err(e) => assert!(matches!(e.level, Level::Error)),
        Ok(_) => panic!("a parameterized struct must fail hard"),
    }
    assert_eq!(lang.structs.len(), 0);
    assert_eq!(outputs.len(), 0);
}

#[test]
fn tuple_struct_fails_hard() {
    let mut lang = LangCSharp::new();
    let mut outputs = Outputs::new();
    let r = lang.parse_struct(
        &item(
            "Pair",
            vec![Attr::ReprC],
            0,
            ItemKind::Struct(StructShape::Tuple(2)),
        ),
        &mut outputs,
    );
    assert!(r.is_err());
}

#[test]
fn array_pattern_marks_struct_native() {
    let mut lang = LangCSharp::new();
    let mut outputs = Outputs::new();
    let r = lang.parse_struct(
        &item(
            "Blob",
            vec![Attr::ReprC],
            0,
            ItemKind::Struct(StructShape::Fields(vec![
                FieldExpr {
                    name: "data".to_string(),
                    attrs: vec![],
                    ty: TyExpr::Ptr(false, Box::new(path("u8"))),
                },
                FieldExpr {
                    name: "data_len".to_string(),
                    attrs: vec![],
                    ty: path("usize"),
                },
            ])),
        ),
        &mut outputs,
    );
    assert!(r.is_ok());
    assert!(lang.context.is_native_name("Blob"));
}

#[test]
fn native_marking_propagates_through_references() {
    let mut lang = LangCSharp::new();
    let mut outputs = Outputs::new();
    lang.parse_struct(
        &item(
            "Blob",
            vec![Attr::ReprC],
            0,
            ItemKind::Struct(StructShape::Fields(vec![
                FieldExpr {
                    name: "data".to_string(),
                    attrs: vec![],
                    ty: TyExpr::Ptr(false, Box::new(path("u8"))),
                },
                FieldExpr {
                    name: "data_len".to_string(),
                    attrs: vec![],
                    ty: path("usize"),
                },
            ])),
        ),
        &mut outputs,
    )
    .unwrap();
    lang.parse_struct(
        &item(
            "Holder",
            vec![Attr::ReprC],
            0,
            ItemKind::Struct(StructShape::Fields(vec![FieldExpr {
                name: "blob".to_string(),
                attrs: vec![],
                ty: TyExpr::Ptr(false, Box::new(path("Blob"))),
            }])),
        ),
        &mut outputs,
    )
    .unwrap();
    assert!(lang.context.is_native_name("Blob"));
    assert!(lang.context.is_native_name("Holder"));
    // Re-running the propagation on an already-closed set changes nothing.
    let before = lang.context.native_types.clone();
    lang.resolve_native_types();
    assert_eq!(before, lang.context.native_types);
}

#[test]
fn unrelated_size_field_does_not_mark_native() {
    let mut lang = LangCSharp::new();
    let mut outputs = Outputs::new();
    lang.parse_struct(
        &item(
            "Window",
            vec![Attr::ReprC],
            0,
            ItemKind::Struct(StructShape::Fields(vec![
                FieldExpr {
                    name: "data".to_string(),
                    attrs: vec![],
                    ty: TyExpr::Ptr(false, Box::new(path("u8"))),
                },
                FieldExpr {
                    name: "unrelated".to_string(),
                    attrs: vec![],
                    ty: path("usize"),
                },
            ])),
        ),
        &mut outputs,
    )
    .unwrap();
    assert!(!lang.context.is_native_name("Window"));
}

#[test]
fn wrapper_struct_absorbs_metadata_field() {
    let s = Struct {
        fields: vec![
            Field {
                name: "data".to_string(),
                ty: Type::Pointer(Box::new(Type::U8)),
            },
            Field {
                name: "data_len".to_string(),
                ty: Type::USize,
            },
        ],
    };
    let text = emit_wrapper_struct("Blob", &s);
    assert_eq!(
        text,
        "public class Blob {\n  public byte[] data;\n}\n"
    );
    assert!(!text.contains("data_len"));
}

#[test]
fn scenario_single_function_two_artifacts() {
    let mut lang = LangCSharp::new();
    let mut outputs = Outputs::new();
    lang.set_utils_enabled(false);
    let r = lang.parse_fn(
        &fn_item(
            "add",
            vec![arg("a", path("i32")), arg("b", path("i32"))],
            RetExpr::Ty(path("i32")),
        ),
        &mut outputs,
    );
    assert!(r.is_ok());
    lang.finalise_output(&mut outputs).unwrap();
    assert_eq!(outputs.len(), 2);
    let class_file = outputs.get("Backend.cs").expect("implementation artifact");
    assert!(class_file.contains("public int Add(int a, int b) {\n  add(a, b);\n}"));
    assert!(class_file.contains("internal static extern int add(int a, int b);"));
    let iface = outputs.get("IBackend.cs").expect("interface artifact");
    assert!(iface.contains("int Add(int a, int b);"));
}

#[test]
fn blacklisted_function_gets_no_wrapper() {
    let mut lang = LangCSharp::new();
    let mut outputs = Outputs::new();
    lang.set_utils_enabled(false);
    lang.blacklist_wrapper_function("add");
    lang.parse_fn(
        &fn_item("add", vec![arg("a", path("i32"))], RetExpr::Ty(path("i32"))),
        &mut outputs,
    )
    .unwrap();
    lang.finalise_output(&mut outputs).unwrap();
    assert_eq!(outputs.len(), 1);
    let class_file = outputs.get("Backend.cs").unwrap();
    assert!(!class_file.contains("public int Add"));
    assert!(class_file.contains("internal static extern int add(int a);"));
}

#[test]
fn filtered_identifier_is_skipped() {
    let mut lang = LangCSharp::new();
    let mut outputs = Outputs::new();
    lang.filter("add");
    lang.parse_fn(
        &fn_item("add", vec![], RetExpr::Omitted),
        &mut outputs,
    )
    .unwrap();
    assert_eq!(lang.functions.len(), 0);
}

#[test]
fn custom_constant_uses_pascal_name() {
    let mut lang = LangCSharp::new();
    lang.add_const("ulong", "max_size", "1024");
    assert_eq!(lang.custom_consts.len(), 1);
    assert_eq!(
        lang.custom_consts[0],
        "public const ulong MaxSize = 1024;"
    );
}

#[test]
fn array_pair_absorbed_in_wrapper_signature() {
    let mut lang = LangCSharp::new();
    let mut outputs = Outputs::new();
    lang.set_utils_enabled(false);
    lang.parse_fn(
        &fn_item(
            "send",
            vec![
                arg("data", TyExpr::Ptr(false, Box::new(path("u8")))),
                arg("data_len", path("usize")),
            ],
            RetExpr::Omitted,
        ),
        &mut outputs,
    )
    .unwrap();
    lang.finalise_output(&mut outputs).unwrap();
    let class_file = outputs.get("Backend.cs").unwrap();
    assert!(class_file.contains("public void Send(byte[] data) {\n  send(data, (UIntPtr) data.Length);\n}"));
    assert!(class_file.contains("internal static extern void send(IntPtr data, UIntPtr data_len);"));
}

fn callback_param(name: &str) -> ArgExpr {
    arg(
        name,
        TyExpr::BareFn(Box::new(BareFnExpr {
            abi: Abi::C,
            lifetimes: 0,
            inputs: vec![
                arg("user_data", TyExpr::Ptr(true, Box::new(path("c_void")))),
                arg("value", path("i32")),
            ],
            output: RetExpr::Omitted,
        })),
    )
}

#[test]
fn shared_callback_shape_collected_once() {
    let mk = |fn_name: &str| -> Snippet<Function> {
        let cb_ty = transform_type(&callback_param("cb").ty).unwrap();
        Snippet {
            docs: String::new(),
            name: fn_name.to_string(),
            item: Function {
                inputs: vec![Param {
                    name: "cb".to_string(),
                    ty: cb_ty,
                }],
                output: Type::Unit,
            },
        }
    };
    let functions = vec![mk("first"), mk("second")];
    let collected = collect_callbacks(&functions);
    assert_eq!(collected.len(), 1);
    assert!(collected[0].1, "a callback alone in its function is single-use");
    assert_eq!(callback_wrapper_name(&collected[0].0), "CallbackInt");
}

#[test]
fn scenario_shared_callback_one_delegate() {
    let mut lang = LangCSharp::new();
    let mut outputs = Outputs::new();
    lang.set_utils_enabled(false);
    lang.parse_fn(
        &fn_item("first", vec![callback_param("cb")], RetExpr::Omitted),
        &mut outputs,
    )
    .unwrap();
    lang.parse_fn(
        &fn_item("second", vec![callback_param("done")], RetExpr::Omitted),
        &mut outputs,
    )
    .unwrap();
    lang.finalise_output(&mut outputs).unwrap();
    let class_file = outputs.get("Backend.cs").unwrap();
    let delegates = class_file.matches("internal delegate void CallbackInt(").count();
    assert_eq!(delegates, 1);
}

#[test]
fn collected_constant_type_resolves_through_nested_alias() {
    let mut lang = LangCSharp::new();
    let mut outputs = Outputs::new();
    lang.parse_ty(
        &item(
            "Buf",
            vec![],
            0,
            ItemKind::Alias(TyExpr::FixedArray(Box::new(path("Elem")), ConstExpr::Int(2))),
        ),
        &mut outputs,
    )
    .unwrap();
    lang.parse_ty(&item("Elem", vec![], 0, ItemKind::Alias(path("i32"))), &mut outputs)
        .unwrap();
    lang.parse_const(
        &item(
            "seed",
            vec![],
            0,
            ItemKind::Const(path("Buf"), ConstExpr::Int(0)),
        ),
        &mut outputs,
    )
    .unwrap();
    lang.resolve_aliases();
    match &lang.consts[0].item.ty {
        Type::Array(inner, n) => {
            assert!(matches!(**inner, Type::I32));
            assert_eq!(*n, 2);
        }
        _ => panic!("the nested alias must resolve in one pass"),
    }
}

#[test]
fn callback_delegates_emitted_in_name_order() {
    let mut lang = LangCSharp::new();
    let mut outputs = Outputs::new();
    lang.set_utils_enabled(false);
    let cb = |inner: TyExpr| {
        TyExpr::BareFn(Box::new(BareFnExpr {
            abi: Abi::C,
            lifetimes: 0,
            inputs: vec![
                arg("user_data", TyExpr::Ptr(true, Box::new(path("c_void")))),
                arg("value", inner),
            ],
            output: RetExpr::Omitted,
        }))
    };
    // The int-typed callback is met first; the bool-typed one sorts first.
    lang.parse_fn(
        &fn_item("first", vec![arg("cb", cb(path("i32")))], RetExpr::Omitted),
        &mut outputs,
    )
    .unwrap();
    lang.parse_fn(
        &fn_item("second", vec![arg("done", cb(path("bool")))], RetExpr::Omitted),
        &mut outputs,
    )
    .unwrap();
    lang.finalise_output(&mut outputs).unwrap();
    let class_file = outputs.get("Backend.cs").unwrap();
    let bool_at = class_file.find("internal delegate void CallbackBool(").unwrap();
    let int_at = class_file.find("internal delegate void CallbackInt(").unwrap();
    assert!(bool_at < int_at);
}

#[test]
fn struct_rename_follows_alias_of_its_name() {
    let mut lang = LangCSharp::new();
    let mut outputs = Outputs::new();
    lang.parse_ty(
        &item(
            "Inner",
            vec![],
            0,
            ItemKind::Alias(path("Exported")),
        ),
        &mut outputs,
    )
    .unwrap();
    lang.parse_struct(
        &item(
            "Inner",
            vec![Attr::ReprC],
            0,
            ItemKind::Struct(StructShape::Fields(vec![FieldExpr {
                name: "x".to_string(),
                attrs: vec![],
                ty: path("u32"),
            }])),
        ),
        &mut outputs,
    )
    .unwrap();
    lang.resolve_aliases();
    assert_eq!(lang.structs[0].name, "Exported");
}
