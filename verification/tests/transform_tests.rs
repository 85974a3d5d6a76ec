//! Tests of the type transformer and the intermediate detectors.

use bindgen::ast::{ArgExpr, BareFnExpr, ConstExpr, RetExpr, TyExpr, Abi};
use bindgen::intermediate::{
    extract_callback, extract_callbacks, callback_arity, is_user_data, num_callbacks,
    transform_function, transform_type, Function, Param, Type,
};

fn path(s: &str) -> TyExpr {
    TyExpr::Path(vec![s.to_string()])
}

fn qpath(segs: &[&str]) -> TyExpr {
    TyExpr::Path(segs.iter().map(|s| s.to_string()).collect())
}

#[test]
fn primitive_spellings_map_to_exact_variants() {
    assert!(matches!(transform_type(&path("bool")), Some(Type::Bool)));
    assert!(matches!(transform_type(&path("c_char")), Some(Type::CChar)));
    assert!(matches!(
        transform_type(&qpath(&["libc", "c_char"])),
        Some(Type::CChar)
    ));
    assert!(matches!(
        transform_type(&qpath(&["std", "os", "raw", "c_char"])),
        Some(Type::CChar)
    ));
    assert!(matches!(transform_type(&path("f32")), Some(Type::F32)));
    assert!(matches!(transform_type(&path("f64")), Some(Type::F64)));
    assert!(matches!(transform_type(&path("i8")), Some(Type::I8)));
    assert!(matches!(transform_type(&path("i16")), Some(Type::I16)));
    assert!(matches!(transform_type(&path("i32")), Some(Type::I32)));
    assert!(matches!(transform_type(&path("i64")), Some(Type::I64)));
    assert!(matches!(transform_type(&path("isize")), Some(Type::ISize)));
    assert!(matches!(transform_type(&path("u8")), Some(Type::U8)));
    assert!(matches!(transform_type(&path("u16")), Some(Type::U16)));
    assert!(matches!(transform_type(&path("u32")), Some(Type::U32)));
    assert!(matches!(transform_type(&path("u64")), Some(Type::U64)));
    assert!(matches!(transform_type(&path("usize")), Some(Type::USize)));
    assert!(matches!(transform_type(&path("c_void")), Some(Type::Unit)));
}

#[test]
fn unknown_spelling_becomes_named_reference() {
    match transform_type(&path("Wibble")) {
        Some(Type::User(name)) => assert_eq!(name, "Wibble"),
        other => panic!("expected a named reference, got {:?}", other.is_some()),
    }
    match transform_type(&qpath(&["foo", "Bar"])) {
        Some(Type::User(name)) => assert_eq!(name, "foo::Bar"),
        _ => panic!("expected a named reference"),
    }
}

#[test]
fn char_pointer_collapses_to_string() {
    let t = TyExpr::Ptr(false, Box::new(path("c_char")));
    assert!(matches!(transform_type(&t), Some(Type::StringPtr)));
}

#[test]
fn pointer_to_named_collapses_to_named() {
    let t = TyExpr::Ptr(true, Box::new(path("App")));
    match transform_type(&t) {
        Some(Type::User(name)) => assert_eq!(name, "App"),
        _ => panic!("expected a named reference"),
    }
}

#[test]
fn pointer_to_primitive_stays_pointer() {
    let t = TyExpr::Ptr(false, Box::new(path("u8")));
    match transform_type(&t) {
        Some(Type::Pointer(inner)) => assert!(matches!(*inner, Type::U8)),
        _ => panic!("expected a pointer"),
    }
}

#[test]
fn fixed_array_with_literal_size() {
    let t = TyExpr::FixedArray(Box::new(path("u8")), ConstExpr::Int(32));
    match transform_type(&t) {
        Some(Type::Array(inner, n)) => {
            assert!(matches!(*inner, Type::U8));
            assert_eq!(n, 32);
        }
        _ => panic!("expected an array"),
    }
}

#[test]
fn multi_dimensional_array_fails() {
    let inner = TyExpr::FixedArray(Box::new(path("u8")), ConstExpr::Int(4));
    let t = TyExpr::FixedArray(Box::new(inner), ConstExpr::Int(2));
    assert!(transform_type(&t).is_none());
}

#[test]
fn array_with_non_literal_size_fails() {
    let t = TyExpr::FixedArray(
        Box::new(path("u8")),
        ConstExpr::Other("LEN".to_string()),
    );
    assert!(transform_type(&t).is_none());
}

#[test]
fn unsupported_expression_fails() {
    assert!(transform_type(&TyExpr::Other("&str".to_string())).is_none());
    assert!(transform_type(&TyExpr::Never).is_none());
}

fn void_ptr() -> TyExpr {
    TyExpr::Ptr(true, Box::new(path("c_void")))
}

fn callback_expr(extra: &[(&str, TyExpr)]) -> TyExpr {
    let mut inputs = vec![ArgExpr {
        name: "user_data".to_string(),
        ty: void_ptr(),
    }];
    for (n, t) in extra {
        inputs.push(ArgExpr {
            name: n.to_string(),
            ty: clone_ty(t),
        });
    }
    TyExpr::BareFn(Box::new(BareFnExpr {
        abi: Abi::C,
        lifetimes: 0,
        inputs,
        output: RetExpr::Omitted,
    }))
}

fn clone_ty(t: &TyExpr) -> TyExpr {
    match t {
        TyExpr::Path(segs) => TyExpr::Path(segs.clone()),
        TyExpr::Ptr(m, inner) => TyExpr::Ptr(*m, Box::new(clone_ty(inner))),
        TyExpr::FixedArray(inner, n) => TyExpr::FixedArray(
            Box::new(clone_ty(inner)),
            match n {
                ConstExpr::Int(v) => ConstExpr::Int(*v),
                ConstExpr::Bool(b) => ConstExpr::Bool(*b),
                ConstExpr::Str(s) => ConstExpr::Str(s.clone()),
                ConstExpr::Other(s) => ConstExpr::Other(s.clone()),
            },
        ),
        TyExpr::Unit => TyExpr::Unit,
        TyExpr::Never => TyExpr::Never,
        TyExpr::Other(s) => TyExpr::Other(s.clone()),
        TyExpr::BareFn(_) => panic!("not needed"),
    }
}

#[test]
fn transform_function_keeps_parameter_order() {
    let decl = BareFnExpr {
        abi: Abi::C,
        lifetimes: 0,
        inputs: vec![
            ArgExpr { name: "a".to_string(), ty: path("i32") },
            ArgExpr { name: "b".to_string(), ty: path("i32") },
        ],
        output: RetExpr::Ty(path("i32")),
    };
    let f = transform_function(&decl).expect("supported signature");
    assert_eq!(f.inputs.len(), 2);
    assert_eq!(f.inputs[0].name, "a");
    assert_eq!(f.inputs[1].name, "b");
    assert!(matches!(f.output, Type::I32));
}

#[test]
fn transform_function_fails_on_bad_parameter() {
    let decl = BareFnExpr {
        abi: Abi::C,
        lifetimes: 0,
        inputs: vec![ArgExpr {
            name: "x".to_string(),
            ty: TyExpr::Other("&str".to_string()),
        }],
        output: RetExpr::Omitted,
    };
    assert!(transform_function(&decl).is_none());
}

#[test]
fn user_data_parameter_detected() {
    let ty = transform_type(&void_ptr()).unwrap();
    assert!(is_user_data("user_data", &ty));
    assert!(!is_user_data("context", &ty));
    assert!(!is_user_data("user_data", &Type::I32));
}

#[test]
fn callback_detected_by_context_parameter() {
    let cb = transform_type(&callback_expr(&[("value", path("i32"))])).unwrap();
    assert!(extract_callback(&cb).is_some());
    let fun = extract_callback(&cb).unwrap();
    assert_eq!(callback_arity(fun), 1);
}

#[test]
fn function_without_context_parameter_is_no_callback() {
    let decl = BareFnExpr {
        abi: Abi::C,
        lifetimes: 0,
        inputs: vec![ArgExpr {
            name: "ctx".to_string(),
            ty: void_ptr(),
        }],
        output: RetExpr::Omitted,
    };
    let ty = transform_type(&TyExpr::BareFn(Box::new(decl))).unwrap();
    assert!(extract_callback(&ty).is_none());
}

#[test]
fn callback_positions_and_count() {
    let cb = transform_type(&callback_expr(&[("value", path("i32"))])).unwrap();
    let inputs = vec![
        Param { name: "handle".to_string(), ty: Type::U64 },
        Param { name: "cb".to_string(), ty: cb },
    ];
    let positions = extract_callbacks(&inputs);
    assert_eq!(positions, vec![1]);
    assert_eq!(num_callbacks(&inputs), 1);
}

#[test]
fn callback_arity_ignores_context() {
    let fun = Function {
        inputs: vec![Param {
            name: "user_data".to_string(),
            ty: Type::Pointer(Box::new(Type::Unit)),
        }],
        output: Type::Unit,
    };
    assert_eq!(callback_arity(&fun), 0);
}
