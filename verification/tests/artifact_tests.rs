//! Artifact-level tests: the types, constants and utility files, and the
//! output collection itself.

use bindgen::ast::{Attr, ConstExpr, FieldExpr, Item, ItemKind, StructShape, TyExpr, VariantExpr};
use bindgen::common::Outputs;
use bindgen::csharp::LangCSharp;
use bindgen::strutil::{ends_with_str, u64_to_dec};

fn path(s: &str) -> TyExpr {
    TyExpr::Path(vec![s.to_string()])
}

fn repr_c_item(name: &str, kind: ItemKind) -> Item {
    Item {
        name: name.to_string(),
        span: 1,
        generics: 0,
        attrs: vec![Attr::ReprC],
        kind,
    }
}

#[test]
fn outputs_insert_replaces_and_append_extends() {
    let mut outputs = Outputs::new();
    assert_eq!(outputs.len(), 0);
    outputs.insert("a.txt", "one".to_string());
    outputs.insert("a.txt", "two".to_string());
    assert_eq!(outputs.len(), 1);
    assert_eq!(outputs.get("a.txt").unwrap(), "two");
    outputs.append_to("a.txt", "-more");
    assert_eq!(outputs.get("a.txt").unwrap(), "two-more");
    outputs.append_to("b.txt", "fresh");
    assert_eq!(outputs.len(), 2);
    assert_eq!(outputs.get("b.txt").unwrap(), "fresh");
    assert!(outputs.contains("b.txt"));
    assert!(!outputs.contains("c.txt"));
}

#[test]
fn decimal_formatting_is_exact() {
    assert_eq!(u64_to_dec(0), "0");
    assert_eq!(u64_to_dec(7), "7");
    assert_eq!(u64_to_dec(1024), "1024");
    assert_eq!(u64_to_dec(u64::MAX), "18446744073709551615");
}

#[test]
fn suffix_test_is_exact() {
    assert!(ends_with_str("foo_len", "_len"));
    assert!(!ends_with_str("len", "_len"));
    assert!(ends_with_str("x", ""));
    assert!(!ends_with_str("", "x"));
}

#[test]
fn scenario_native_struct_split_in_types_artifact() {
    let mut lang = LangCSharp::new();
    let mut outputs = Outputs::new();
    lang.set_utils_enabled(false);
    lang.parse_struct(
        &repr_c_item(
            "Blob",
            ItemKind::Struct(StructShape::Fields(vec![
                FieldExpr {
                    name: "data".to_string(),
                    attrs: vec![],
                    ty: TyExpr::Ptr(false, Box::new(path("u8"))),
                },
                FieldExpr {
                    name: "data_len".to_string(),
                    attrs: vec![],
                    ty: path("usize"),
                },
            ])),
        ),
        &mut outputs,
    )
    .unwrap();
    lang.finalise_output(&mut outputs).unwrap();
    let types = outputs.get("Types.cs").expect("types artifact");
    assert!(types.contains("public class Blob {\n  public byte[] data;\n}"));
    assert!(types.contains("internal struct BlobNative {"));
    // The raw companion keeps the metadata field; the wrapper never shows it.
    let wrapper_part = types.split("internal struct BlobNative").next().unwrap();
    assert!(!wrapper_part.contains("data_len"));
}

#[test]
fn plain_struct_emitted_as_value_struct() {
    let mut lang = LangCSharp::new();
    let mut outputs = Outputs::new();
    lang.set_utils_enabled(false);
    lang.parse_struct(
        &repr_c_item(
            "Point",
            ItemKind::Struct(StructShape::Fields(vec![
                FieldExpr {
                    name: "x".to_string(),
                    attrs: vec![],
                    ty: path("i32"),
                },
                FieldExpr {
                    name: "y".to_string(),
                    attrs: vec![],
                    ty: path("i32"),
                },
            ])),
        ),
        &mut outputs,
    )
    .unwrap();
    lang.finalise_output(&mut outputs).unwrap();
    let types = outputs.get("Types.cs").unwrap();
    assert!(types.contains(
        "[StructLayout(LayoutKind.Sequential)]\npublic struct Point {\n  public int x;\n  public int y;\n}"
    ));
}

#[test]
fn constants_artifact_holds_discovered_and_custom() {
    let mut lang = LangCSharp::new();
    let mut outputs = Outputs::new();
    lang.set_utils_enabled(false);
    lang.parse_const(
        &Item {
            name: "max_len".to_string(),
            span: 1,
            generics: 0,
            attrs: vec![],
            kind: ItemKind::Const(path("u64"), ConstExpr::Int(256)),
        },
        &mut outputs,
    )
    .unwrap();
    lang.add_const("bool", "enabled", "true");
    lang.finalise_output(&mut outputs).unwrap();
    let consts = outputs.get("Constants.cs").expect("constants artifact");
    assert!(consts.contains("public const ulong MaxLen = 256;"));
    assert!(consts.contains("public const bool Enabled = true;"));
}

#[test]
fn enum_artifact_keeps_explicit_values() {
    let mut lang = LangCSharp::new();
    let mut outputs = Outputs::new();
    lang.set_utils_enabled(false);
    lang.parse_enum(
        &repr_c_item(
            "Mode",
            ItemKind::Enum(vec![
                VariantExpr {
                    name: "Fast".to_string(),
                    value: Some(ConstExpr::Int(3)),
                },
                VariantExpr {
                    name: "Slow".to_string(),
                    value: None,
                },
            ]),
        ),
        &mut outputs,
    )
    .unwrap();
    lang.finalise_output(&mut outputs).unwrap();
    let types = outputs.get("Types.cs").unwrap();
    assert!(types.contains("public enum Mode {\n  Fast = 3,\n  Slow,\n}"));
}

#[test]
fn utility_artifact_is_emitted_when_enabled() {
    let mut lang = LangCSharp::new();
    let mut outputs = Outputs::new();
    lang.set_namespace("Net.Backend");
    lang.set_utils_class_name("Helpers");
    lang.finalise_output(&mut outputs).unwrap();
    assert_eq!(outputs.len(), 1);
    let utils = outputs.get("Helpers.cs").unwrap();
    assert_eq!(
        utils,
        "using System;\n\nnamespace Net.Backend {\npublic static class Helpers {\n}\n}\n"
    );
}

#[test]
fn types_file_name_drops_target_suffix() {
    let mut lang = LangCSharp::new();
    lang.set_types_file_name("CustomTypes.cs");
    assert_eq!(lang.context.types_file_name, "CustomTypes");
    lang.set_types_file_name("Plain");
    assert_eq!(lang.context.types_file_name, "Plain");
}

#[test]
fn run_state_cleared_after_finalisation() {
    let mut lang = LangCSharp::new();
    let mut outputs = Outputs::new();
    lang.add_opaque_type("App");
    assert!(lang.context.is_opaque("App"));
    lang.parse_const(
        &Item {
            name: "k".to_string(),
            span: 1,
            generics: 0,
            attrs: vec![],
            kind: ItemKind::Const(path("u32"), ConstExpr::Int(1)),
        },
        &mut outputs,
    )
    .unwrap();
    lang.finalise_output(&mut outputs).unwrap();
    assert!(!lang.context.is_opaque("App"));
    assert_eq!(lang.consts.len(), 0);
    assert_eq!(lang.functions.len(), 0);
}
