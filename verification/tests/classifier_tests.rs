//! Tests of the declaration classifier: markers, calling conventions,
//! filters, and alias substitution through a whole run.

use bindgen::ast::{Abi, ArgExpr, Attr, BareFnExpr, ConstExpr, Item, ItemKind, RetExpr, TyExpr};
use bindgen::common::{
    is_array_arg, is_ptr_len_arg, is_result_arg, is_user_data_arg, parse_attr, AttrCheck,
    FilterMode, Outputs,
};
use bindgen::csharp::LangCSharp;
use bindgen::intermediate::transform_const;
use bindgen::java::LangJava;

fn path(s: &str) -> TyExpr {
    TyExpr::Path(vec![s.to_string()])
}

fn arg(name: &str, ty: TyExpr) -> ArgExpr {
    ArgExpr {
        name: name.to_string(),
        ty,
    }
}

#[test]
fn attribute_walk_collects_docs_and_marker() {
    let attrs = vec![
        Attr::Doc(" first".to_string()),
        Attr::NoMangle,
        Attr::Doc(" second".to_string()),
    ];
    let (found, docs) = parse_attr(&attrs, AttrCheck::NoMangle, "//");
    assert!(found);
    assert_eq!(docs, "// first\n// second\n");
    let (repr_c, _) = parse_attr(&attrs, AttrCheck::ReprC, "");
    assert!(!repr_c);
}

#[test]
fn argument_conventions_are_exact() {
    let ud = arg("user_data", TyExpr::Ptr(true, Box::new(path("c_void"))));
    assert!(is_user_data_arg(&ud));
    let not_ud = arg("user_data", TyExpr::Ptr(false, Box::new(path("c_void"))));
    assert!(!is_user_data_arg(&not_ud));

    let res = arg("result", TyExpr::Ptr(false, Box::new(path("FfiResult"))));
    assert!(is_result_arg(&res));

    assert!(is_ptr_len_arg(&arg("data_len", path("usize"))));
    assert!(is_ptr_len_arg(&arg("len", path("usize"))));
    assert!(is_ptr_len_arg(&arg("size", path("usize"))));
    assert!(!is_ptr_len_arg(&arg("count", path("usize"))));
    assert!(!is_ptr_len_arg(&arg("len", path("u32"))));

    let ptr = arg("data", TyExpr::Ptr(false, Box::new(path("u8"))));
    let len = arg("data_len", path("usize"));
    let other = arg("unrelated", path("u64"));
    assert!(is_array_arg(&ptr, Some(&len)));
    assert!(!is_array_arg(&ptr, Some(&other)));
    assert!(!is_array_arg(&ptr, None));
    assert!(!is_array_arg(&res, Some(&len)));
}

#[test]
fn function_without_marker_or_c_convention_is_skipped() {
    let mut lang = LangCSharp::new();
    let mut outputs = Outputs::new();
    let unmarked = Item {
        name: "hidden".to_string(),
        span: 1,
        generics: 0,
        attrs: vec![],
        kind: ItemKind::Fn(BareFnExpr {
            abi: Abi::C,
            lifetimes: 0,
            inputs: vec![],
            output: RetExpr::Omitted,
        }),
    };
    assert!(lang.parse_fn(&unmarked, &mut outputs).is_ok());
    let wrong_abi = Item {
        name: "internal_only".to_string(),
        span: 1,
        generics: 0,
        attrs: vec![Attr::NoMangle],
        kind: ItemKind::Fn(BareFnExpr {
            abi: Abi::Rust,
            lifetimes: 0,
            inputs: vec![],
            output: RetExpr::Omitted,
        }),
    };
    assert!(lang.parse_fn(&wrong_abi, &mut outputs).is_ok());
    assert_eq!(lang.functions.len(), 0);
}

#[test]
fn whitelist_mode_keeps_only_listed_identifiers() {
    let mut lang = LangCSharp::new();
    let mut outputs = Outputs::new();
    lang.reset_filter(FilterMode::Whitelist);
    lang.filter("keep");
    let mk = |name: &str| Item {
        name: name.to_string(),
        span: 1,
        generics: 0,
        attrs: vec![Attr::NoMangle],
        kind: ItemKind::Fn(BareFnExpr {
            abi: Abi::C,
            lifetimes: 0,
            inputs: vec![],
            output: RetExpr::Omitted,
        }),
    };
    lang.parse_fn(&mk("keep"), &mut outputs).unwrap();
    lang.parse_fn(&mk("drop_me"), &mut outputs).unwrap();
    assert_eq!(lang.functions.len(), 1);
    assert_eq!(lang.functions[0].name, "keep");
}

#[test]
fn java_skips_unmarked_declarations_of_any_kind() {
    let lang = LangJava {};
    let mut outputs = Outputs::new();
    let unmarked_const = Item {
        name: "k".to_string(),
        span: 1,
        generics: 0,
        attrs: vec![],
        kind: ItemKind::Const(path("u32"), ConstExpr::Int(1)),
    };
    assert!(lang.parse_fn(&unmarked_const, &mut outputs).is_ok());
    assert!(lang.parse_struct(&unmarked_const, &mut outputs).is_ok());
    assert_eq!(outputs.len(), 0);
}

#[test]
fn constant_values_must_be_literals() {
    assert!(transform_const(&path("bool"), &ConstExpr::Bool(true)).is_some());
    assert!(transform_const(&path("u32"), &ConstExpr::Str("x".to_string())).is_some());
    assert!(transform_const(&path("u32"), &ConstExpr::Other("1 + 1".to_string())).is_none());
    assert!(transform_const(&TyExpr::Other("&str".to_string()), &ConstExpr::Int(1)).is_none());
}

#[test]
fn aliases_substituted_through_function_signatures() {
    let mut lang = LangCSharp::new();
    let mut outputs = Outputs::new();
    lang.set_utils_enabled(false);
    lang.parse_ty(
        &Item {
            name: "Handle".to_string(),
            span: 1,
            generics: 0,
            attrs: vec![],
            kind: ItemKind::Alias(path("u64")),
        },
        &mut outputs,
    )
    .unwrap();
    lang.parse_fn(
        &Item {
            name: "open_thing".to_string(),
            span: 1,
            generics: 0,
            attrs: vec![Attr::NoMangle],
            kind: ItemKind::Fn(BareFnExpr {
                abi: Abi::C,
                lifetimes: 0,
                inputs: vec![arg("handle", path("Handle"))],
                output: RetExpr::Ty(path("Handle")),
            }),
        },
        &mut outputs,
    )
    .unwrap();
    lang.finalise_output(&mut outputs).unwrap();
    let class_file = outputs.get("Backend.cs").unwrap();
    assert!(class_file.contains("internal static extern ulong open_thing(ulong handle);"));
    assert!(class_file.contains("public ulong OpenThing(ulong handle)"));
}

#[test]
fn parameterized_alias_is_skipped_without_error() {
    let mut lang = LangCSharp::new();
    let mut outputs = Outputs::new();
    let r = lang.parse_ty(
        &Item {
            name: "Wrapped".to_string(),
            span: 1,
            generics: 1,
            attrs: vec![],
            kind: ItemKind::Alias(path("u64")),
        },
        &mut outputs,
    );
    assert!(r.is_ok());
    assert!(bindgen::csharp::lookup_alias(&lang.aliases, "Wrapped").is_none());
}
