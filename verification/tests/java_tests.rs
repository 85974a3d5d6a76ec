//! Tests of the JVM-hosted backend and the bridge glue generation.

use bindgen::ast::{
    Abi, ArgExpr, Attr, BareFnExpr, FieldExpr, Item, ItemKind, RetExpr, StructShape, TyExpr,
};
use bindgen::common::Outputs;
use bindgen::java::{
    anon_rust_to_java, callback_name, libc_ty_to_java, osraw_ty_to_java, rust_to_java,
    rust_ty_to_java, transform_callback, transform_native_fn, LangJava,
};
use bindgen::jni::{
    generate_jni_callback, generate_jni_function, generate_struct, java_ty_to_signature,
    rust_ty_to_signature, signature_text, transform_struct_fields, FieldClass, JavaType,
    JniContext, PrimSig,
};
use bindgen::Level;

fn path(s: &str) -> TyExpr {
    TyExpr::Path(vec![s.to_string()])
}

fn arg(name: &str, ty: TyExpr) -> ArgExpr {
    ArgExpr {
        name: name.to_string(),
        ty,
    }
}

fn void_ptr() -> TyExpr {
    TyExpr::Ptr(true, Box::new(path("c_void")))
}

#[test]
fn single_segment_type_names() {
    assert_eq!(rust_ty_to_java("u8"), "byte");
    assert_eq!(rust_ty_to_java("i64"), "long");
    assert_eq!(rust_ty_to_java("usize"), "long");
    assert_eq!(rust_ty_to_java("isize"), "intptr_t");
    assert_eq!(rust_ty_to_java("()"), "void");
    assert_eq!(rust_ty_to_java("Wibble"), "Wibble");
}

#[test]
fn library_module_type_names() {
    assert_eq!(libc_ty_to_java("c_void"), "void");
    assert_eq!(libc_ty_to_java("c_uchar"), "byte");
    assert_eq!(libc_ty_to_java("c_ulong"), "long");
    assert_eq!(libc_ty_to_java("Session"), "Session");
    assert_eq!(osraw_ty_to_java("c_ushort"), "short");
}

#[test]
fn qualified_paths_convert_only_for_known_modules() {
    let libc_char = TyExpr::Path(vec!["libc".to_string(), "c_char".to_string()]);
    assert_eq!(anon_rust_to_java(&libc_char).unwrap(), "byte");
    let other = TyExpr::Path(vec!["my_mod".to_string(), "Thing".to_string()]);
    assert!(anon_rust_to_java(&other).is_err());
}

#[test]
fn char_pointer_converts_to_string() {
    let t = TyExpr::Ptr(false, Box::new(path("c_char")));
    assert_eq!(anon_rust_to_java(&t).unwrap(), "String");
}

#[test]
fn callback_names_derive_from_parameter_types() {
    let inputs = vec![
        arg("user_data", void_ptr()),
        arg("value", path("i32")),
    ];
    assert_eq!(callback_name(&inputs).unwrap(), "CallbackInt");

    let with_array = vec![
        arg("user_data", void_ptr()),
        arg("data", TyExpr::Ptr(false, Box::new(path("u8")))),
        arg("data_len", path("usize")),
    ];
    assert_eq!(callback_name(&with_array).unwrap(), "CallbackByteArray");
}

#[test]
fn callback_argument_converts_to_interface_name() {
    let cb = TyExpr::BareFn(Box::new(BareFnExpr {
        abi: Abi::C,
        lifetimes: 0,
        inputs: vec![arg("user_data", void_ptr()), arg("value", path("u64"))],
        output: RetExpr::Omitted,
    }));
    assert_eq!(rust_to_java(&cb).unwrap().unwrap(), "CallbackLong");
    let text = transform_callback(&cb, "CallbackLong").unwrap().unwrap();
    assert_eq!(
        text,
        "public interface CallbackLong {\n    public call(long value);\n}\n"
    );
}

#[test]
fn native_fn_appends_binding_and_generates_callback_file() {
    let mut outputs = Outputs::new();
    let decl = BareFnExpr {
        abi: Abi::C,
        lifetimes: 0,
        inputs: vec![arg(
            "cb",
            TyExpr::BareFn(Box::new(BareFnExpr {
                abi: Abi::C,
                lifetimes: 0,
                inputs: vec![arg("user_data", void_ptr()), arg("value", path("i32"))],
                output: RetExpr::Omitted,
            })),
        )],
        output: RetExpr::Omitted,
    };
    transform_native_fn(&decl, "", "do_thing", &mut outputs).unwrap();
    let bindings = outputs.get("NativeBindings.java").unwrap();
    assert!(bindings.contains("public static native void doThing(CallbackInt cb);"));
    assert!(outputs.contains("CallbackInt.java"));
}

#[test]
fn shared_callback_generates_one_interface_artifact() {
    let mut outputs = Outputs::new();
    let mk = || BareFnExpr {
        abi: Abi::C,
        lifetimes: 0,
        inputs: vec![arg(
            "cb",
            TyExpr::BareFn(Box::new(BareFnExpr {
                abi: Abi::C,
                lifetimes: 0,
                inputs: vec![arg("user_data", void_ptr()), arg("value", path("i32"))],
                output: RetExpr::Omitted,
            })),
        )],
        output: RetExpr::Omitted,
    };
    transform_native_fn(&mk(), "", "first", &mut outputs).unwrap();
    transform_native_fn(&mk(), "", "second", &mut outputs).unwrap();
    // One binding container plus exactly one shared callback artifact.
    assert_eq!(outputs.len(), 2);
    assert!(outputs.contains("CallbackInt.java"));
}

#[test]
fn never_return_type_is_rejected() {
    let mut outputs = Outputs::new();
    let decl = BareFnExpr {
        abi: Abi::C,
        lifetimes: 0,
        inputs: vec![],
        output: RetExpr::Ty(TyExpr::Never),
    };
    let r = transform_native_fn(&decl, "", "diverges", &mut outputs);
    assert!(r.is_err());
    assert_eq!(outputs.len(), 0);
}

#[test]
fn java_struct_class_is_emitted() {
    let lang = LangJava {};
    let mut outputs = Outputs::new();
    let r = lang.parse_struct(
        &Item {
            name: "account_info".to_string(),
            span: 1,
            generics: 0,
            attrs: vec![Attr::ReprC],
            kind: ItemKind::Struct(StructShape::Fields(vec![FieldExpr {
                name: "balance".to_string(),
                attrs: vec![],
                ty: path("u64"),
            }])),
        },
        &mut outputs,
    );
    assert!(r.is_ok());
    let text = outputs.get("AccountInfo.java").unwrap();
    assert!(text.contains("public class AccountInfo {"));
    assert!(text.contains("\tpublic long balance;"));
}

#[test]
fn finalisation_without_bindings_fails() {
    let lang = LangJava {};
    let mut outputs = Outputs::new();
    let r = lang.finalise_output(&mut outputs);
    match r {
        Err(e) => {
            assert!(matches!(e.level, Level::Error));
            assert_eq!(e.message, "no native bindings generated?");
        }
        Ok(_) => panic!("finalisation must fail when no binding was produced"),
    }
}

#[test]
fn finalisation_wraps_bindings_in_container() {
    let lang = LangJava {};
    let mut outputs = Outputs::new();
    let decl = BareFnExpr {
        abi: Abi::C,
        lifetimes: 0,
        inputs: vec![],
        output: RetExpr::Omitted,
    };
    transform_native_fn(&decl, "", "ping", &mut outputs).unwrap();
    lang.finalise_output(&mut outputs).unwrap();
    let text = outputs.get("NativeBindings.java").unwrap();
    assert!(text.starts_with("public class NativeBindings {\n"));
    assert!(text.ends_with("\n}"));
}

// ----------------------------------------------------------------------------
// Bridge glue.

#[test]
fn signature_text_is_exact() {
    assert_eq!(
        signature_text(&JavaType::Primitive(PrimSig::LongSig)),
        "J"
    );
    assert_eq!(
        signature_text(&JavaType::Object("java/lang/String".to_string())),
        "Ljava/lang/String;"
    );
    assert_eq!(
        signature_text(&JavaType::JArray(Box::new(JavaType::Primitive(
            PrimSig::ByteSig
        )))),
        "[B"
    );
    assert!(java_ty_to_signature("long").is_some());
    assert!(java_ty_to_signature("float").is_none());
}

#[test]
fn type_signatures_follow_the_context() {
    let ctx = JniContext {
        namespace: "net.backend".to_string(),
        type_map: vec![],
    };
    let sig = rust_ty_to_signature(&path("u64"), &ctx).unwrap();
    assert_eq!(signature_text(&sig), "J");
    let obj = rust_ty_to_signature(&path("Session"), &ctx).unwrap();
    assert_eq!(signature_text(&obj), "Lnet/backend/Session;");
}

#[test]
fn struct_field_classification_follows_conventions() {
    let fields = vec![
        FieldExpr {
            name: "data_ptr".to_string(),
            attrs: vec![],
            ty: TyExpr::Ptr(false, Box::new(path("u8"))),
        },
        FieldExpr {
            name: "data_len".to_string(),
            attrs: vec![],
            ty: path("usize"),
        },
        FieldExpr {
            name: "name".to_string(),
            attrs: vec![],
            ty: TyExpr::Ptr(false, Box::new(path("c_char"))),
        },
        FieldExpr {
            name: "count".to_string(),
            attrs: vec![],
            ty: path("u32"),
        },
    ];
    let classes = transform_struct_fields(&fields);
    assert_eq!(classes.len(), 4);
    match &classes[0] {
        FieldClass::Arr {
            len_field,
            cap_field,
        } => {
            assert_eq!(len_field, "data_len");
            assert!(cap_field.is_none());
        }
        _ => panic!("a pointer with a length companion is an array"),
    }
    assert!(matches!(classes[1], FieldClass::Meta));
    assert!(matches!(classes[2], FieldClass::Txt));
    assert!(matches!(classes[3], FieldClass::Prim));
}

#[test]
fn struct_bridge_absorbs_metadata() {
    let ctx = JniContext {
        namespace: "net.backend".to_string(),
        type_map: vec![],
    };
    let fields = vec![
        FieldExpr {
            name: "data".to_string(),
            attrs: vec![],
            ty: TyExpr::Ptr(false, Box::new(path("u8"))),
        },
        FieldExpr {
            name: "data_len".to_string(),
            attrs: vec![],
            ty: path("usize"),
        },
    ];
    let text = generate_struct(&fields, "Blob", "Blob", &ctx);
    assert!(text.contains("impl FromJava for Blob"));
    assert!(text.contains("let data = from_java_array(&env, input, \"data\");"));
    assert!(text.contains("let data_len = data.len();"));
    assert!(text.contains("impl ToJava for Blob"));
    // The metadata field never gets a conversion of its own.
    assert!(!text.contains("set_field(output, \"dataLen\""));
}

#[test]
fn bridge_function_absorbs_array_pair() {
    let ctx = JniContext {
        namespace: "net.backend".to_string(),
        type_map: vec![],
    };
    let args = vec![
        arg("data", TyExpr::Ptr(false, Box::new(path("u8")))),
        arg("data_len", path("usize")),
        arg("user_data", void_ptr()),
    ];
    let text = generate_jni_function(&args, "send", "send", &ctx);
    assert!(text.starts_with(
        "#[no_mangle]\npub extern \"system\" fn Java_net_backend_NativeBindings_send("
    ));
    assert!(text.contains("let data = Vec::from_java(&env, data);"));
    assert!(text.contains("send(data.as_ptr(), data.len());"));
}

#[test]
fn bridge_symbol_escapes_underscores_and_dots() {
    let ctx = JniContext {
        namespace: "my_app.backend".to_string(),
        type_map: vec![],
    };
    let no_args: Vec<ArgExpr> = vec![];
    let text = generate_jni_function(&no_args, "ping", "ping", &ctx);
    assert!(text.contains("fn Java_my_1app_backend_NativeBindings_ping("));
}

#[test]
fn qualified_class_path_uses_slashes() {
    let ctx = JniContext {
        namespace: "my_app.backend".to_string(),
        type_map: vec![],
    };
    assert_eq!(ctx.fully_qualified("Session"), "my_app/backend/Session");
}

#[test]
fn bridge_callback_forwards_through_context() {
    let ctx = JniContext {
        namespace: "net.backend".to_string(),
        type_map: vec![],
    };
    let cb = BareFnExpr {
        abi: Abi::C,
        lifetimes: 0,
        inputs: vec![arg("user_data", void_ptr()), arg("value", path("i32"))],
        output: RetExpr::Omitted,
    };
    let text = generate_jni_callback(&cb, "call_callback_int", &ctx);
    assert!(text.starts_with("extern \"C\" fn call_callback_int(ctx: *mut c_void"));
    assert!(text.contains("let cb = convert_cb_from_java(&env, ctx);"));
    assert!(text.contains("env.call_method(cb.as_obj(), \"call\", &[value]);"));
}
