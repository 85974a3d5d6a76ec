//! Generation of the native-side bridge glue: classification of struct
//! fields by boundary convention, target type signatures, and the bridge
//! function and callback declarations.

use vstd::prelude::*;
use vstd::string::*;
use crate::ast::{
    ArgExpr, ArgExprV, BareFnExpr, FieldExpr, FieldExprV, TyExpr, TyExprV, args_model,
    fields_model, lemma_args_model_index, lemma_fields_model_index, lemma_segments_model_index,
    lemma_ty_expr_model_variants, segments_model,
};
use crate::common::{is_path_to, is_user_data_arg, is_user_data_arg_spec};
use crate::naming::{camel_of, to_camel_case};
use crate::patterns::{base_of, field_base_name};
use crate::strutil::{
    dots_to_slashes, ends_with_str, eq_str, join_pieces, join_strings, replace_dots_with_slashes,
    spec_ends_with,
};

verus! {

/// A primitive signature letter.
#[derive(Clone, Copy, PartialEq, Eq, Structural, Debug)]
pub enum PrimSig {
    ByteSig,
    ShortSig,
    IntSig,
    LongSig,
    BoolSig,
    VoidSig,
}

/// The letter of a primitive signature.
pub open spec fn sig_letter(p: PrimSig) -> Seq<char> {
    match p {
        PrimSig::ByteSig => "B"@,
        PrimSig::ShortSig => "S"@,
        PrimSig::IntSig => "I"@,
        PrimSig::LongSig => "J"@,
        PrimSig::BoolSig => "Z"@,
        PrimSig::VoidSig => "V"@,
    }
}

fn sig_letter_str(p: PrimSig) -> (r: &'static str)
    ensures
        r@ == sig_letter(p),
{
    match p {
        PrimSig::ByteSig => "B",
        PrimSig::ShortSig => "S",
        PrimSig::IntSig => "I",
        PrimSig::LongSig => "J",
        PrimSig::BoolSig => "Z",
        PrimSig::VoidSig => "V",
    }
}

/// A target-language type in signature form.
pub enum JavaType {
    Primitive(PrimSig),
    /// An object type, named by its slash-separated class path.
    Object(String),
    /// An array of another signature type.
    JArray(Box<JavaType>),
}

/// Model of a signature type.
pub enum JavaTypeV {
    Primitive(PrimSig),
    Object(Seq<char>),
    JArray(Box<JavaTypeV>),
}

pub open spec fn java_type_model(t: JavaType) -> JavaTypeV
    decreases t,
{
    match t {
        JavaType::Primitive(p) => JavaTypeV::Primitive(p),
        JavaType::Object(s) => JavaTypeV::Object(s@),
        JavaType::JArray(inner) => JavaTypeV::JArray(Box::new(java_type_model(*inner))),
    }
}

impl View for JavaType {
    type V = JavaTypeV;

    open spec fn view(&self) -> JavaTypeV {
        java_type_model(*self)
    }
}

/// The signature text of a type: a letter, `L<class>;`, or `[<element>`.
pub open spec fn jsig(t: JavaTypeV) -> Seq<char>
    decreases t,
{
    match t {
        JavaTypeV::Primitive(p) => sig_letter(p),
        JavaTypeV::Object(cls) => "L"@ + cls + ";"@,
        JavaTypeV::JArray(inner) => "["@ + jsig(*inner),
    }
}

/// Render the signature text of a type.
pub fn signature_text(t: &JavaType) -> (r: String)
    ensures
        r@ == jsig(t@),
    decreases *t,
{
    match t {
        JavaType::Primitive(p) => {
            let mut r = String::new();
            r.append(sig_letter_str(*p));
            proof {
                assert(r@ =~= jsig(t@));
            }
            r
        },
        JavaType::Object(cls) => {
            let mut r = String::from_str("L");
            r.append(cls.as_str());
            r.append(";");
            proof {
                assert(r@ =~= jsig(t@));
            }
            r
        },
        JavaType::JArray(inner) => {
            let mut r = String::from_str("[");
            let rest = signature_text(inner);
            r.append(rest.as_str());
            proof {
                assert(r@ =~= jsig(t@));
            }
            r
        },
    }
}

/// The signature type for a target type name that the bridge special-cases,
/// if any.
pub open spec fn spec_java_ty_sig(s: Seq<char>) -> Option<JavaTypeV> {
    if s == "long"@ {
        Option::Some(JavaTypeV::Primitive(PrimSig::LongSig))
    } else if s == "byte[]"@ {
        Option::Some(JavaTypeV::JArray(Box::new(JavaTypeV::Primitive(PrimSig::ByteSig))))
    } else {
        Option::None
    }
}

/// Map a rewritten target type name to its signature type.
pub fn java_ty_to_signature(s: &str) -> (r: Option<JavaType>)
    ensures
        match r {
            Option::Some(t) => spec_java_ty_sig(s@) == Option::Some(t@),
            Option::None => spec_java_ty_sig(s@) is None,
        },
{
    if eq_str(s, "long") {
        Option::Some(JavaType::Primitive(PrimSig::LongSig))
    } else if eq_str(s, "byte[]") {
        let inner = JavaType::Primitive(PrimSig::ByteSig);
        proof {
            assert(inner@ == JavaTypeV::Primitive(PrimSig::ByteSig));
        }
        Option::Some(JavaType::JArray(Box::new(inner)))
    } else {
        Option::None
    }
}

// ----------------------------------------------------------------------------
// The bridge context.

/// One entry of the name rewriting table.
pub struct TypeMapEntry {
    pub from: String,
    pub to: String,
}

/// Naming configuration of the bridge generator.
pub struct JniContext {
    /// The dot-separated package prefix of the generated classes.
    pub namespace: String,
    /// Names rewritten before signature lookup.
    pub type_map: Vec<TypeMapEntry>,
}

/// Look a name up in the rewriting table, front to back.
pub open spec fn type_map_get(entries: Seq<(Seq<char>, Seq<char>)>, k: Seq<char>) -> Option<
    Seq<char>,
>
    decreases entries,
{
    if entries.len() == 0 {
        Option::None
    } else if entries[0].0 == k {
        Option::Some(entries[0].1)
    } else {
        type_map_get(entries.drop_first(), k)
    }
}

impl JniContext {
    /// The rewriting table as an association sequence.
    pub open spec fn map_model(self) -> Seq<(Seq<char>, Seq<char>)> {
        self.type_map@.map_values(|e: TypeMapEntry| (e.from@, e.to@))
    }

    fn map_lookup(&self, k: &str) -> (r: Option<&String>)
        ensures
            match r {
                Option::Some(v) => type_map_get(self.map_model(), k@) == Option::Some(v@),
                Option::None => type_map_get(self.map_model(), k@) is None,
            },
    {
        let ghost model = self.map_model();
        let mut i: usize = 0;
        while i < self.type_map.len()
            invariant
                i <= self.type_map@.len(),
                model == self.map_model(),
                model.len() == self.type_map@.len(),
                forall|j: int| 0 <= j < i ==> #[trigger] model[j].0 != k@,
            decreases self.type_map@.len() - i,
        {
            proof {
                assert(model[i as int] == (self.type_map@[i as int].from@,
                    self.type_map@[i as int].to@));
            }
            if eq_str(self.type_map[i].from.as_str(), k) {
                proof {
                    lemma_type_map_found(model, k@, i as int);
                }
                return Option::Some(&self.type_map[i].to);
            }
            i = i + 1;
        }
        proof {
            lemma_type_map_none(model, k@);
        }
        Option::None
    }

    /// The fully qualified class path for a name: the package with its dots
    /// replaced by slashes, a slash, and the name.
    pub fn fully_qualified(&self, ty: &str) -> (r: String)
        ensures
            r@ == dots_to_slashes(self.namespace@) + "/"@ + ty@,
    {
        let mut r = replace_dots_with_slashes(self.namespace.as_str());
        r.append("/");
        r.append(ty);
        r
    }
}

proof fn lemma_type_map_found(s: Seq<(Seq<char>, Seq<char>)>, k: Seq<char>, i: int)
    requires
        0 <= i < s.len(),
        s[i].0 == k,
        forall|j: int| 0 <= j < i ==> #[trigger] s[j].0 != k,
    ensures
        type_map_get(s, k) == Option::Some(s[i].1),
    decreases s,
{
    if i > 0 {
        let t = s.drop_first();
        assert(t[i - 1] == s[i]);
        assert forall|j: int| 0 <= j < i - 1 implies #[trigger] t[j].0 != k by {
            assert(t[j] == s[j + 1]);
        }
        lemma_type_map_found(t, k, i - 1);
    }
}

proof fn lemma_type_map_none(s: Seq<(Seq<char>, Seq<char>)>, k: Seq<char>)
    requires
        forall|j: int| 0 <= j < s.len() ==> #[trigger] s[j].0 != k,
    ensures
        type_map_get(s, k) is None,
    decreases s,
{
    if s.len() > 0 {
        assert(forall|j: int| 0 <= j < s.drop_first().len() ==> #[trigger] s.drop_first()[j].0 != k);
        lemma_type_map_none(s.drop_first(), k);
    }
}

/// Whether the last segment of a path spells `name`.
pub open spec fn last_seg_is(t: TyExprV, name: Seq<char>) -> bool {
    match t {
        TyExprV::Path(segs) => segs.len() > 0 && segs.last() == name,
        _ => false,
    }
}

fn check_last_seg(t: &TyExpr, name: &str) -> (r: bool)
    ensures
        r == last_seg_is(t@, name@),
{
    proof {
        lemma_ty_expr_model_variants(*t);
    }
    match t {
        TyExpr::Path(segs) => {
            proof {
                lemma_segments_model_index(segs@);
            }
            if segs.len() == 0 {
                false
            } else {
                eq_str(segs[segs.len() - 1].as_str(), name)
            }
        },
        _ => false,
    }
}

/// The signature type of a type expression as the bridge sees it, if any:
/// callbacks are objects, sized integers map to primitive letters, strings
/// and booleans to their boxed classes, pointers look through to their
/// pointee, and anything else is an object in the configured package.
pub open spec fn spec_rust_sig(
    t: TyExprV,
    namespace: Seq<char>,
    type_map: Seq<(Seq<char>, Seq<char>)>,
) -> Option<JavaTypeV>
    decreases t,
{
    match t {
        TyExprV::BareFn(_) => Option::Some(JavaTypeV::Object("java/lang/Object"@)),
        TyExprV::Path(segs) => {
            if segs.len() == 0 {
                Option::None
            } else {
                let last = segs.last();
                if last == "c_byte"@ || last == "u8"@ || last == "i8"@ {
                    Option::Some(JavaTypeV::Primitive(PrimSig::ByteSig))
                } else if last == "c_short"@ || last == "u16"@ || last == "i16"@ {
                    Option::Some(JavaTypeV::Primitive(PrimSig::ShortSig))
                } else if last == "c_int"@ || last == "u32"@ || last == "i32"@ {
                    Option::Some(JavaTypeV::Primitive(PrimSig::IntSig))
                } else if last == "c_long"@ || last == "u64"@ || last == "i64"@ || last
                    == "c_usize"@ || last == "usize"@ || last == "isize"@ {
                    Option::Some(JavaTypeV::Primitive(PrimSig::LongSig))
                } else if last == "c_bool"@ || last == "bool"@ {
                    Option::Some(JavaTypeV::Object("java/lang/Boolean"@))
                } else {
                    match type_map_get(type_map, last) {
                        Option::Some(mapped) => match spec_java_ty_sig(mapped) {
                            Option::Some(sig) => Option::Some(sig),
                            Option::None => Option::Some(
                                JavaTypeV::Object(dots_to_slashes(namespace) + "/"@ + last),
                            ),
                        },
                        Option::None => Option::Some(
                            JavaTypeV::Object(dots_to_slashes(namespace) + "/"@ + last),
                        ),
                    }
                }
            }
        },
        TyExprV::Ptr(_, inner) => {
            if is_path_to(*inner, "c_char"@) {
                Option::Some(JavaTypeV::Object("java/lang/String"@))
            } else {
                spec_rust_sig(*inner, namespace, type_map)
            }
        },
        _ => Option::None,
    }
}

/// Compute the signature type of a type expression as the bridge sees it.
pub fn rust_ty_to_signature(ty: &TyExpr, context: &JniContext) -> (r: Option<JavaType>)
    ensures
        match r {
            Option::Some(t) => spec_rust_sig(ty@, context.namespace@, context.map_model())
                == Option::Some(t@),
            Option::None => spec_rust_sig(ty@, context.namespace@, context.map_model()) is None,
        },
    decreases *ty,
{
    proof {
        lemma_ty_expr_model_variants(*ty);
    }
    match ty {
        TyExpr::BareFn(_) => Option::Some(JavaType::Object(String::from_str("java/lang/Object"))),
        TyExpr::Path(segs) => {
            proof {
                lemma_segments_model_index(segs@);
            }
            if segs.len() == 0 {
                return Option::None;
            }
            let last = &segs[segs.len() - 1];
            proof {
                assert(segments_model(segs@).last() == segs@[segs@.len() - 1]@);
            }
            let l = last.as_str();
            if eq_str(l, "c_byte") || eq_str(l, "u8") || eq_str(l, "i8") {
                Option::Some(JavaType::Primitive(PrimSig::ByteSig))
            } else if eq_str(l, "c_short") || eq_str(l, "u16") || eq_str(l, "i16") {
                Option::Some(JavaType::Primitive(PrimSig::ShortSig))
            } else if eq_str(l, "c_int") || eq_str(l, "u32") || eq_str(l, "i32") {
                Option::Some(JavaType::Primitive(PrimSig::IntSig))
            } else if eq_str(l, "c_long") || eq_str(l, "u64") || eq_str(l, "i64") || eq_str(
                l,
                "c_usize",
            ) || eq_str(l, "usize") || eq_str(l, "isize") {
                Option::Some(JavaType::Primitive(PrimSig::LongSig))
            } else if eq_str(l, "c_bool") || eq_str(l, "bool") {
                Option::Some(JavaType::Object(String::from_str("java/lang/Boolean")))
            } else {
                let mapped = context.map_lookup(l);
                match mapped {
                    Option::Some(m) => {
                        let sig = java_ty_to_signature(m.as_str());
                        match sig {
                            Option::Some(t) => Option::Some(t),
                            Option::None => Option::Some(
                                JavaType::Object(context.fully_qualified(l)),
                            ),
                        }
                    },
                    Option::None => Option::Some(JavaType::Object(context.fully_qualified(l))),
                }
            }
        },
        TyExpr::Ptr(_, inner) => {
            let is_string = match &**inner {
                TyExpr::Path(segs) => {
                    proof {
                        lemma_segments_model_index(segs@);
                        assert(crate::ast::ty_expr_model(**inner) == TyExprV::Path(
                            segments_model(segs@),
                        ));
                    }
                    if segs.len() == 1 {
                        let r = eq_str(segs[0].as_str(), "c_char");
                        proof {
                            if r {
                                assert(segments_model(segs@) =~= seq!["c_char"@]);
                            } else {
                                assert(segments_model(segs@)[0] != "c_char"@);
                            }
                        }
                        r
                    } else {
                        proof {
                            if segments_model(segs@) == seq!["c_char"@] {
                                assert(segments_model(segs@).len() == 1);
                            }
                        }
                        false
                    }
                },
                _ => {
                    proof {
                        lemma_ty_expr_model_variants(**inner);
                    }
                    false
                },
            };
            if is_string {
                Option::Some(JavaType::Object(String::from_str("java/lang/String")))
            } else {
                rust_ty_to_signature(inner, context)
            }
        },
        _ => Option::None,
    }
}


// ----------------------------------------------------------------------------
// Struct field classification.

/// How one struct field crosses the boundary.
pub enum FieldClass {
    /// A pointer absorbed with its length (and optional capacity) metadata
    /// field into one array value.
    Arr { len_field: String, cap_field: Option<String> },
    /// A pointer to the machine character type: a string.
    Txt,
    /// A pointer to another aggregate.
    Sptr,
    /// A length or capacity metadata field, absorbed by its array.
    Meta,
    /// Anything else, passed as a plain value.
    Prim,
}

/// Model of a field classification.
pub enum FieldClassV {
    Arr { len_field: Seq<char>, cap_field: Option<Seq<char>> },
    Txt,
    Sptr,
    Meta,
    Prim,
}

pub open spec fn field_class_model(c: FieldClass) -> FieldClassV {
    match c {
        FieldClass::Arr { len_field, cap_field } => FieldClassV::Arr {
            len_field: len_field@,
            cap_field: match cap_field {
                Option::Some(s) => Option::Some(s@),
                Option::None => Option::None,
            },
        },
        FieldClass::Txt => FieldClassV::Txt,
        FieldClass::Sptr => FieldClassV::Sptr,
        FieldClass::Meta => FieldClassV::Meta,
        FieldClass::Prim => FieldClassV::Prim,
    }
}

impl View for FieldClass {
    type V = FieldClassV;

    open spec fn view(&self) -> FieldClassV {
        field_class_model(*self)
    }
}

/// Whether some field carries the given name.
pub open spec fn ast_has_field(fs: Seq<FieldExprV>, n: Seq<char>) -> bool {
    exists|j: int| 0 <= j < fs.len() && #[trigger] fs[j].name == n
}

fn ast_find_field(fields: &Vec<FieldExpr>, n: &str) -> (r: bool)
    ensures
        r == ast_has_field(fields_model(fields@), n@),
{
    proof {
        lemma_fields_model_index(fields@);
    }
    let ghost model = fields_model(fields@);
    let mut j: usize = 0;
    while j < fields.len()
        invariant
            j <= fields@.len(),
            model == fields_model(fields@),
            model.len() == fields@.len(),
            forall|k: int|
                0 <= k < fields@.len() ==> model[k] == crate::ast::field_model(
                    #[trigger] fields@[k],
                ),
            forall|k: int| 0 <= k < j ==> #[trigger] model[k].name != n@,
        decreases fields@.len() - j,
    {
        proof {
            assert(model[j as int] == crate::ast::field_model(fields@[j as int]));
        }
        if eq_str(fields[j].name.as_str(), n) {
            assert(model[j as int].name == n@);
            return true;
        }
        j = j + 1;
    }
    false
}

/// A metadata field: its path's last segment is the pointer-sized integer
/// and its name ends in a length or capacity suffix.
pub open spec fn is_meta_ast_field(f: FieldExprV) -> bool {
    last_seg_is(f.ty, "usize"@) && (spec_ends_with(f.name, "_len"@) || spec_ends_with(
        f.name,
        "_cap"@,
    ))
}

/// The boundary classification of the field at `i`.
pub open spec fn spec_field_class(fs: Seq<FieldExprV>, i: int) -> FieldClassV {
    let f = fs[i];
    if f.ty is Ptr {
        let base = base_of(f.name);
        if ast_has_field(fs, base + "_len"@) {
            FieldClassV::Arr {
                len_field: base + "_len"@,
                cap_field: if ast_has_field(fs, base + "_cap"@) {
                    Option::Some(base + "_cap"@)
                } else {
                    Option::None
                },
            }
        } else {
            match f.ty {
                TyExprV::Ptr(_, inner) => {
                    if is_path_to(*inner, "c_char"@) {
                        FieldClassV::Txt
                    } else {
                        FieldClassV::Sptr
                    }
                },
                _ => FieldClassV::Prim,
            }
        }
    } else if is_meta_ast_field(f) {
        FieldClassV::Meta
    } else {
        FieldClassV::Prim
    }
}

/// Classify every field of a struct by boundary convention: a pointer whose
/// base name has a length companion is one logical array (the length and an
/// optional capacity field are absorbed), a character pointer is a string,
/// another pointer refers to an aggregate, and metadata fields never stand
/// alone.
pub fn transform_struct_fields(fields: &Vec<FieldExpr>) -> (r: Vec<FieldClass>)
    ensures
        r@.len() == fields@.len(),
        forall|i: int|
            0 <= i < fields@.len() ==> #[trigger] r@[i]@ == spec_field_class(
                fields_model(fields@),
                i,
            ),
{
    proof {
        lemma_fields_model_index(fields@);
    }
    let ghost model = fields_model(fields@);
    let mut r: Vec<FieldClass> = Vec::new();
    let mut i: usize = 0;
    while i < fields.len()
        invariant
            i <= fields@.len(),
            model == fields_model(fields@),
            model.len() == fields@.len(),
            forall|j: int|
                0 <= j < fields@.len() ==> model[j] == crate::ast::field_model(
                    #[trigger] fields@[j],
                ),
            r@.len() == i,
            forall|j: int| 0 <= j < i ==> #[trigger] r@[j]@ == spec_field_class(model, j),
        decreases fields@.len() - i,
    {
        let f = &fields[i];
        proof {
            lemma_ty_expr_model_variants(fields@[i as int].ty);
        }
        let cls: FieldClass = match &f.ty {
            TyExpr::Ptr(_, inner) => {
                let base = field_base_name(f.name.as_str());
                let mut len_name = base.clone();
                len_name.append("_len");
                proof {
                    reveal_strlit("_len");
                }
                if ast_find_field(fields, len_name.as_str()) {
                    let mut cap_name = base;
                    cap_name.append("_cap");
                    proof {
                        reveal_strlit("_cap");
                    }
                    let cap = if ast_find_field(fields, cap_name.as_str()) {
                        Option::Some(cap_name)
                    } else {
                        Option::None
                    };
                    FieldClass::Arr { len_field: len_name, cap_field: cap }
                } else {
                    let is_string = match &**inner {
                        TyExpr::Path(segs) => {
                            proof {
                                lemma_segments_model_index(segs@);
                                assert(crate::ast::ty_expr_model(**inner) == TyExprV::Path(
                                    segments_model(segs@),
                                ));
                            }
                            if segs.len() == 1 {
                                let r = eq_str(segs[0].as_str(), "c_char");
                                proof {
                                    if r {
                                        assert(segments_model(segs@) =~= seq!["c_char"@]);
                                    } else {
                                        assert(segments_model(segs@)[0] != "c_char"@);
                                    }
                                }
                                r
                            } else {
                                proof {
                                    if segments_model(segs@) == seq!["c_char"@] {
                                        assert(segments_model(segs@).len() == 1);
                                    }
                                }
                                false
                            }
                        },
                        _ => {
                            proof {
                                lemma_ty_expr_model_variants(**inner);
                            }
                            false
                        },
                    };
                    if is_string {
                        FieldClass::Txt
                    } else {
                        FieldClass::Sptr
                    }
                }
            },
            _ => {
                let meta = check_last_seg(&f.ty, "usize") && (ends_with_str(
                    f.name.as_str(),
                    "_len",
                ) || ends_with_str(f.name.as_str(), "_cap"));
                if meta {
                    FieldClass::Meta
                } else {
                    FieldClass::Prim
                }
            },
        };
        r.push(cls);
        i = i + 1;
    }
    r
}


// ----------------------------------------------------------------------------
// Struct bridge generation.

/// The conversion line a field contributes when marshalling out.
pub open spec fn to_java_line(fs: Seq<FieldExprV>, i: int) -> Seq<char> {
    let f = fs[i];
    match spec_field_class(fs, i) {
        FieldClassV::Arr { len_field, cap_field } => "        env.set_field(output, \""@
            + camel_of(f.name) + "\", to_java_array(&env, self."@ + f.name + ", self."@ + len_field
            + "));\n"@,
        FieldClassV::Txt => "        env.set_field(output, \""@ + camel_of(f.name) + "\", self."@
            + f.name + ".to_java(&env));\n"@,
        FieldClassV::Sptr => "        env.set_field(output, \""@ + camel_of(f.name)
            + "\", (*self."@ + f.name + ").to_java(&env));\n"@,
        FieldClassV::Meta => Seq::empty(),
        FieldClassV::Prim => "        env.set_field(output, \""@ + camel_of(f.name) + "\", self."@
            + f.name + ".to_java(&env));\n"@,
    }
}

pub open spec fn to_java_lines(fs: Seq<FieldExprV>, i: int) -> Seq<char>
    decreases fs.len() - i,
{
    if i < 0 || i >= fs.len() {
        Seq::empty()
    } else {
        to_java_line(fs, i) + to_java_lines(fs, i + 1)
    }
}

/// The whole outbound marshalling implementation of a struct: absorbed
/// metadata fields contribute nothing.
pub open spec fn spec_struct_to_java(
    native_name: Seq<char>,
    class_name: Seq<char>,
    fs: Seq<FieldExprV>,
    namespace: Seq<char>,
) -> Seq<char> {
    "impl ToJava for "@ + native_name
        + " {\n    fn to_java(&self, env: &JNIEnv) -> JObject {\n        let output = env.new_object(\""@
        + namespace + "/"@ + class_name + "\");\n"@ + to_java_lines(fs, 0)
        + "        output\n    }\n}\n"@
}

/// The conversion line a field contributes when marshalling in: an array
/// recovers its metadata fields from the array value itself.
pub open spec fn from_java_line(fs: Seq<FieldExprV>, i: int) -> Seq<char> {
    let f = fs[i];
    match spec_field_class(fs, i) {
        FieldClassV::Arr { len_field, cap_field } => "        let "@ + f.name
            + " = from_java_array(&env, input, \""@ + camel_of(f.name) + "\");\n        let "@
            + len_field + " = "@ + f.name + ".len();\n"@ + (match cap_field {
            Option::Some(c) => "        let "@ + c + " = "@ + f.name + ".capacity();\n"@,
            Option::None => Seq::empty(),
        }),
        FieldClassV::Txt => "        let "@ + f.name + " = from_java_string(&env, input, \""@
            + camel_of(f.name) + "\");\n"@,
        FieldClassV::Sptr => "        let "@ + f.name + " = from_java_object(&env, input, \""@
            + camel_of(f.name) + "\");\n"@,
        FieldClassV::Meta => Seq::empty(),
        FieldClassV::Prim => "        let "@ + f.name + " = from_java_field(&env, input, \""@
            + camel_of(f.name) + "\");\n"@,
    }
}

pub open spec fn from_java_lines(fs: Seq<FieldExprV>, i: int) -> Seq<char>
    decreases fs.len() - i,
{
    if i < 0 || i >= fs.len() {
        Seq::empty()
    } else {
        from_java_line(fs, i) + from_java_lines(fs, i + 1)
    }
}

pub open spec fn ctor_lines(fs: Seq<FieldExprV>, i: int) -> Seq<char>
    decreases fs.len() - i,
{
    if i < 0 || i >= fs.len() {
        Seq::empty()
    } else {
        "            "@ + fs[i].name + ",\n"@ + ctor_lines(fs, i + 1)
    }
}

/// The whole inbound marshalling implementation of a struct.
pub open spec fn spec_struct_from_java(native_name: Seq<char>, fs: Seq<FieldExprV>) -> Seq<char> {
    "impl FromJava for "@ + native_name
        + " {\n    fn from_java(env: &JNIEnv, input: JObject) -> Self {\n"@ + from_java_lines(
        fs,
        0,
    ) + "        "@ + native_name + " {\n"@ + ctor_lines(fs, 0) + "        }\n    }\n}\n"@
}

fn emit_to_java_line(f: &FieldExpr, cls: &FieldClass) -> (r: String)
    ensures
        ({
            let fv = f@;
            match cls@ {
                FieldClassV::Arr { len_field, cap_field } => r@ == "        env.set_field(output, \""@
                    + camel_of(fv.name) + "\", to_java_array(&env, self."@ + fv.name + ", self."@
                    + len_field + "));\n"@,
                FieldClassV::Txt => r@ == "        env.set_field(output, \""@ + camel_of(fv.name)
                    + "\", self."@ + fv.name + ".to_java(&env));\n"@,
                FieldClassV::Sptr => r@ == "        env.set_field(output, \""@ + camel_of(fv.name)
                    + "\", (*self."@ + fv.name + ").to_java(&env));\n"@,
                FieldClassV::Meta => r@ == Seq::<char>::empty(),
                FieldClassV::Prim => r@ == "        env.set_field(output, \""@ + camel_of(fv.name)
                    + "\", self."@ + fv.name + ".to_java(&env));\n"@,
            }
        }),
{
    match cls {
        FieldClass::Arr { len_field, cap_field } => {
            let mut r = String::from_str("        env.set_field(output, \"");
            let cname = to_camel_case(f.name.as_str());
            r.append(cname.as_str());
            r.append("\", to_java_array(&env, self.");
            r.append(f.name.as_str());
            r.append(", self.");
            r.append(len_field.as_str());
            r.append("));\n");
            proof {
                assert(r@ =~= "        env.set_field(output, \""@ + camel_of(f@.name)
                    + "\", to_java_array(&env, self."@ + f@.name + ", self."@ + len_field@
                    + "));\n"@);
            }
            r
        },
        FieldClass::Txt => {
            let mut r = String::from_str("        env.set_field(output, \"");
            let cname = to_camel_case(f.name.as_str());
            r.append(cname.as_str());
            r.append("\", self.");
            r.append(f.name.as_str());
            r.append(".to_java(&env));\n");
            proof {
                assert(r@ =~= "        env.set_field(output, \""@ + camel_of(f@.name)
                    + "\", self."@ + f@.name + ".to_java(&env));\n"@);
            }
            r
        },
        FieldClass::Sptr => {
            let mut r = String::from_str("        env.set_field(output, \"");
            let cname = to_camel_case(f.name.as_str());
            r.append(cname.as_str());
            r.append("\", (*self.");
            r.append(f.name.as_str());
            r.append(").to_java(&env));\n");
            proof {
                assert(r@ =~= "        env.set_field(output, \""@ + camel_of(f@.name)
                    + "\", (*self."@ + f@.name + ").to_java(&env));\n"@);
            }
            r
        },
        FieldClass::Meta => String::new(),
        FieldClass::Prim => {
            let mut r = String::from_str("        env.set_field(output, \"");
            let cname = to_camel_case(f.name.as_str());
            r.append(cname.as_str());
            r.append("\", self.");
            r.append(f.name.as_str());
            r.append(".to_java(&env));\n");
            proof {
                assert(r@ =~= "        env.set_field(output, \""@ + camel_of(f@.name)
                    + "\", self."@ + f@.name + ".to_java(&env));\n"@);
            }
            r
        },
    }
}

fn emit_from_java_line(f: &FieldExpr, cls: &FieldClass) -> (r: String)
    ensures
        ({
            let fv = f@;
            match cls@ {
                FieldClassV::Arr { len_field, cap_field } => r@ == "        let "@ + fv.name
                    + " = from_java_array(&env, input, \""@ + camel_of(fv.name)
                    + "\");\n        let "@ + len_field + " = "@ + fv.name + ".len();\n"@ + (
                match cap_field {
                    Option::Some(c) => "        let "@ + c + " = "@ + fv.name + ".capacity();\n"@,
                    Option::None => Seq::empty(),
                }),
                FieldClassV::Txt => r@ == "        let "@ + fv.name
                    + " = from_java_string(&env, input, \""@ + camel_of(fv.name) + "\");\n"@,
                FieldClassV::Sptr => r@ == "        let "@ + fv.name
                    + " = from_java_object(&env, input, \""@ + camel_of(fv.name) + "\");\n"@,
                FieldClassV::Meta => r@ == Seq::<char>::empty(),
                FieldClassV::Prim => r@ == "        let "@ + fv.name
                    + " = from_java_field(&env, input, \""@ + camel_of(fv.name) + "\");\n"@,
            }
        }),
{
    match cls {
        FieldClass::Arr { len_field, cap_field } => {
            let mut r = String::from_str("        let ");
            r.append(f.name.as_str());
            r.append(" = from_java_array(&env, input, \"");
            let cname = to_camel_case(f.name.as_str());
            r.append(cname.as_str());
            r.append("\");\n        let ");
            r.append(len_field.as_str());
            r.append(" = ");
            r.append(f.name.as_str());
            r.append(".len();\n");
            match cap_field {
                Option::Some(c) => {
                    r.append("        let ");
                    r.append(c.as_str());
                    r.append(" = ");
                    r.append(f.name.as_str());
                    r.append(".capacity();\n");
                },
                Option::None => {},
            }
            proof {
                assert(r@ =~= "        let "@ + f@.name + " = from_java_array(&env, input, \""@
                    + camel_of(f@.name) + "\");\n        let "@ + len_field@ + " = "@ + f@.name
                    + ".len();\n"@ + (match cls@ {
                    FieldClassV::Arr { cap_field: cf, .. } => (match cf {
                        Option::Some(c) => "        let "@ + c + " = "@ + f@.name
                            + ".capacity();\n"@,
                        Option::None => Seq::empty(),
                    }),
                    _ => Seq::empty(),
                }));
            }
            r
        },
        FieldClass::Txt => {
            let mut r = String::from_str("        let ");
            r.append(f.name.as_str());
            r.append(" = from_java_string(&env, input, \"");
            let cname = to_camel_case(f.name.as_str());
            r.append(cname.as_str());
            r.append("\");\n");
            proof {
                assert(r@ =~= "        let "@ + f@.name + " = from_java_string(&env, input, \""@
                    + camel_of(f@.name) + "\");\n"@);
            }
            r
        },
        FieldClass::Sptr => {
            let mut r = String::from_str("        let ");
            r.append(f.name.as_str());
            r.append(" = from_java_object(&env, input, \"");
            let cname = to_camel_case(f.name.as_str());
            r.append(cname.as_str());
            r.append("\");\n");
            proof {
                assert(r@ =~= "        let "@ + f@.name + " = from_java_object(&env, input, \""@
                    + camel_of(f@.name) + "\");\n"@);
            }
            r
        },
        FieldClass::Meta => String::new(),
        FieldClass::Prim => {
            let mut r = String::from_str("        let ");
            r.append(f.name.as_str());
            r.append(" = from_java_field(&env, input, \"");
            let cname = to_camel_case(f.name.as_str());
            r.append(cname.as_str());
            r.append("\");\n");
            proof {
                assert(r@ =~= "        let "@ + f@.name + " = from_java_field(&env, input, \""@
                    + camel_of(f@.name) + "\");\n"@);
            }
            r
        },
    }
}

/// Render the outbound marshalling implementation of a struct.
pub fn generate_struct_to_java(
    native_name: &str,
    java_class_name: &str,
    fields: &Vec<FieldExpr>,
    context: &JniContext,
) -> (r: String)
    ensures
        r@ == spec_struct_to_java(
            native_name@,
            java_class_name@,
            fields_model(fields@),
            context.namespace@,
        ),
{
    proof {
        lemma_fields_model_index(fields@);
    }
    let ghost model = fields_model(fields@);
    let classes = transform_struct_fields(fields);
    let mut r = String::from_str("impl ToJava for ");
    r.append(native_name);
    r.append(
        " {\n    fn to_java(&self, env: &JNIEnv) -> JObject {\n        let output = env.new_object(\"",
    );
    r.append(context.namespace.as_str());
    r.append("/");
    r.append(java_class_name);
    r.append("\");\n");
    let ghost header = r@;
    let mut i: usize = 0;
    while i < fields.len()
        invariant
            i <= fields@.len(),
            model == fields_model(fields@),
            model.len() == fields@.len(),
            forall|k: int|
                0 <= k < fields@.len() ==> model[k] == crate::ast::field_model(
                    #[trigger] fields@[k],
                ),
            classes@.len() == fields@.len(),
            forall|k: int|
                0 <= k < fields@.len() ==> #[trigger] classes@[k]@ == spec_field_class(model, k),
            header + to_java_lines(model, 0) == r@ + to_java_lines(model, i as int),
        decreases fields@.len() - i,
    {
        let ghost prev = r@;
        let line = emit_to_java_line(&fields[i], &classes[i]);
        r.append(line.as_str());
        proof {
            assert(line@ == to_java_line(model, i as int));
            assert(header + to_java_lines(model, 0) =~= r@ + to_java_lines(model, i + 1));
        }
        i = i + 1;
    }
    proof {
        assert(to_java_lines(model, model.len() as int) =~= Seq::<char>::empty());
        assert(r@ =~= header + to_java_lines(model, 0));
    }
    r.append("        output\n    }\n}\n");
    proof {
        assert(r@ =~= spec_struct_to_java(
            native_name@,
            java_class_name@,
            model,
            context.namespace@,
        ));
    }
    r
}

/// Render the inbound marshalling implementation of a struct.
pub fn generate_struct_from_java(native_name: &str, fields: &Vec<FieldExpr>) -> (r: String)
    ensures
        r@ == spec_struct_from_java(native_name@, fields_model(fields@)),
{
    proof {
        lemma_fields_model_index(fields@);
    }
    let ghost model = fields_model(fields@);
    let classes = transform_struct_fields(fields);
    let mut r = String::from_str("impl FromJava for ");
    r.append(native_name);
    r.append(" {\n    fn from_java(env: &JNIEnv, input: JObject) -> Self {\n");
    let ghost header = r@;
    let mut i: usize = 0;
    while i < fields.len()
        invariant
            i <= fields@.len(),
            model == fields_model(fields@),
            model.len() == fields@.len(),
            forall|k: int|
                0 <= k < fields@.len() ==> model[k] == crate::ast::field_model(
                    #[trigger] fields@[k],
                ),
            classes@.len() == fields@.len(),
            forall|k: int|
                0 <= k < fields@.len() ==> #[trigger] classes@[k]@ == spec_field_class(model, k),
            header + from_java_lines(model, 0) == r@ + from_java_lines(model, i as int),
        decreases fields@.len() - i,
    {
        let line = emit_from_java_line(&fields[i], &classes[i]);
        r.append(line.as_str());
        proof {
            assert(line@ == from_java_line(model, i as int));
            assert(header + from_java_lines(model, 0) =~= r@ + from_java_lines(model, i + 1));
        }
        i = i + 1;
    }
    proof {
        assert(from_java_lines(model, model.len() as int) =~= Seq::<char>::empty());
        assert(r@ =~= header + from_java_lines(model, 0));
    }
    r.append("        ");
    r.append(native_name);
    r.append(" {\n");
    let ghost mid = r@;
    let mut i: usize = 0;
    while i < fields.len()
        invariant
            i <= fields@.len(),
            model == fields_model(fields@),
            model.len() == fields@.len(),
            forall|k: int|
                0 <= k < fields@.len() ==> model[k] == crate::ast::field_model(
                    #[trigger] fields@[k],
                ),
            mid + ctor_lines(model, 0) == r@ + ctor_lines(model, i as int),
        decreases fields@.len() - i,
    {
        r.append("            ");
        r.append(fields[i].name.as_str());
        r.append(",\n");
        proof {
            assert(mid + ctor_lines(model, 0) =~= r@ + ctor_lines(model, i + 1));
        }
        i = i + 1;
    }
    proof {
        assert(ctor_lines(model, model.len() as int) =~= Seq::<char>::empty());
        assert(r@ =~= mid + ctor_lines(model, 0));
    }
    r.append("        }\n    }\n}\n");
    proof {
        assert(r@ =~= spec_struct_from_java(native_name@, model));
    }
    r
}

/// Render both marshalling implementations of a struct.
pub fn generate_struct(
    fields: &Vec<FieldExpr>,
    native_name: &str,
    java_class_name: &str,
    context: &JniContext,
) -> (r: String)
    ensures
        r@ == spec_struct_from_java(native_name@, fields_model(fields@)) + "\n"@
            + spec_struct_to_java(
            native_name@,
            java_class_name@,
            fields_model(fields@),
            context.namespace@,
        ),
{
    let mut r = generate_struct_from_java(native_name, fields);
    r.append("\n");
    let to = generate_struct_to_java(native_name, java_class_name, fields, context);
    r.append(to.as_str());
    r
}


// ----------------------------------------------------------------------------
// Bridge function generation.

/// The bridge-side parameter type for an argument.
pub open spec fn jni_arg_ty(t: TyExprV) -> Seq<char> {
    match t {
        TyExprV::BareFn(_) => "JObject"@,
        TyExprV::Path(segs) => {
            if segs.len() == 0 {
                "JObject"@
            } else {
                let last = segs.last();
                if last == "c_char"@ || last == "u8"@ || last == "i8"@ {
                    "jbyte"@
                } else if last == "c_short"@ || last == "u16"@ || last == "i16"@ {
                    "jshort"@
                } else if last == "c_int"@ || last == "u32"@ || last == "i32"@ {
                    "jint"@
                } else if last == "c_long"@ || last == "u64"@ || last == "i64"@ || last
                    == "c_usize"@ || last == "usize"@ || last == "isize"@ {
                    "jlong"@
                } else {
                    last
                }
            }
        },
        TyExprV::Ptr(_, inner) => {
            if is_path_to(*inner, "c_char"@) {
                "JString"@
            } else {
                "JObject"@
            }
        },
        _ => "JObject"@,
    }
}

fn emit_jni_arg_ty(t: &TyExpr) -> (r: String)
    ensures
        r@ == jni_arg_ty(t@),
{
    proof {
        lemma_ty_expr_model_variants(*t);
    }
    match t {
        TyExpr::BareFn(_) => String::from_str("JObject"),
        TyExpr::Path(segs) => {
            proof {
                lemma_segments_model_index(segs@);
            }
            if segs.len() == 0 {
                String::from_str("JObject")
            } else {
                let last = &segs[segs.len() - 1];
                proof {
                    assert(segments_model(segs@).last() == segs@[segs@.len() - 1]@);
                }
                let l = last.as_str();
                if eq_str(l, "c_char") || eq_str(l, "u8") || eq_str(l, "i8") {
                    String::from_str("jbyte")
                } else if eq_str(l, "c_short") || eq_str(l, "u16") || eq_str(l, "i16") {
                    String::from_str("jshort")
                } else if eq_str(l, "c_int") || eq_str(l, "u32") || eq_str(l, "i32") {
                    String::from_str("jint")
                } else if eq_str(l, "c_long") || eq_str(l, "u64") || eq_str(l, "i64") || eq_str(
                    l,
                    "c_usize",
                ) || eq_str(l, "usize") || eq_str(l, "isize") {
                    String::from_str("jlong")
                } else {
                    last.clone()
                }
            }
        },
        TyExpr::Ptr(_, inner) => {
            let is_string = match &**inner {
                TyExpr::Path(segs) => {
                    proof {
                        lemma_segments_model_index(segs@);
                        assert(crate::ast::ty_expr_model(**inner) == TyExprV::Path(
                            segments_model(segs@),
                        ));
                    }
                    if segs.len() == 1 {
                        let r = eq_str(segs[0].as_str(), "c_char");
                        proof {
                            if r {
                                assert(segments_model(segs@) =~= seq!["c_char"@]);
                            } else {
                                assert(segments_model(segs@)[0] != "c_char"@);
                            }
                        }
                        r
                    } else {
                        proof {
                            if segments_model(segs@) == seq!["c_char"@] {
                                assert(segments_model(segs@).len() == 1);
                            }
                        }
                        false
                    }
                },
                _ => {
                    proof {
                        lemma_ty_expr_model_variants(**inner);
                    }
                    false
                },
            };
            if is_string {
                String::from_str("JString")
            } else {
                String::from_str("JObject")
            }
        },
        _ => String::from_str("JObject"),
    }
}

/// The declared bridge parameters, one per argument.
pub open spec fn jni_input_pieces(args: Seq<ArgExprV>, i: int) -> Seq<char>
    decreases args.len() - i,
{
    if i < 0 || i >= args.len() {
        Seq::empty()
    } else {
        ", "@ + args[i].name + ": "@ + jni_arg_ty(args[i].ty) + jni_input_pieces(args, i + 1)
    }
}

/// The conversion statement one visible argument contributes.
pub open spec fn jni_stmt(args: Seq<ArgExprV>, i: int, pair: bool) -> Seq<char> {
    let a = args[i];
    if pair {
        "    let "@ + a.name + " = Vec::from_java(&env, "@ + a.name + ");\n"@
    } else {
        match a.ty {
            TyExprV::BareFn(_) => "    let "@ + a.name + " = convert_cb_from_java(&env, "@
                + a.name + ");\n"@,
            TyExprV::Ptr(_, inner) => {
                if is_path_to(*inner, "c_char"@) {
                    "    let "@ + a.name + " = CString::from_java(&env, "@ + a.name + ");\n"@
                } else {
                    "    let "@ + a.name + " = from_java_object(&env, "@ + a.name + ");\n"@
                }
            },
            _ => Seq::empty(),
        }
    }
}

/// The native call arguments one visible argument contributes.
pub open spec fn jni_call_args(args: Seq<ArgExprV>, i: int, pair: bool) -> Seq<Seq<char>> {
    let a = args[i];
    if pair {
        seq![a.name + ".as_ptr()"@, a.name + ".len()"@]
    } else {
        match a.ty {
            TyExprV::Ptr(_, inner) => {
                if is_path_to(*inner, "c_char"@) {
                    seq![a.name + ".as_ptr()"@]
                } else {
                    seq!["&"@ + a.name]
                }
            },
            _ => seq![a.name],
        }
    }
}

/// Whether the visible argument at `i` starts an array pointer/length pair,
/// pairing with the next visible argument.
pub open spec fn jni_pair_at(args: Seq<ArgExprV>, i: int) -> bool {
    let j = crate::java::next_visible(args, i);
    j < args.len() && crate::common::is_array_arg_spec(args[i], Option::Some(args[j]))
}

/// The conversion statements of all visible arguments from `i` on.
pub open spec fn jni_stmts(args: Seq<ArgExprV>, i: int) -> Seq<char>
    decreases args.len() - i,
{
    if i < 0 || i >= args.len() {
        Seq::empty()
    } else if is_user_data_arg_spec(args[i]) {
        jni_stmts(args, i + 1)
    } else {
        let pair = jni_pair_at(args, i);
        let j = crate::java::next_visible(args, i);
        let next = if pair && j >= i + 1 {
            j + 1
        } else {
            i + 1
        };
        jni_stmt(args, i, pair) + jni_stmts(args, next)
    }
}

/// The native call argument pieces of all visible arguments from `i` on.
pub open spec fn jni_calls(args: Seq<ArgExprV>, i: int) -> Seq<Seq<char>>
    decreases args.len() - i,
{
    if i < 0 || i >= args.len() {
        Seq::empty()
    } else if is_user_data_arg_spec(args[i]) {
        jni_calls(args, i + 1)
    } else {
        let pair = jni_pair_at(args, i);
        let j = crate::java::next_visible(args, i);
        let next = if pair && j >= i + 1 {
            j + 1
        } else {
            i + 1
        };
        jni_call_args(args, i, pair) + jni_calls(args, next)
    }
}

/// The piece one character contributes to a bridge symbol: dots separate
/// package segments, and underscores are escaped.
pub open spec fn mangled_piece(c: char) -> Seq<char> {
    if c == '.' {
        seq!['_']
    } else if c == '_' {
        seq!['_', '1']
    } else {
        seq![c]
    }
}

/// A package prefix mangled into a bridge symbol.
pub open spec fn jni_mangle(s: Seq<char>) -> Seq<char>
    decreases s.len(),
{
    if s.len() == 0 {
        Seq::empty()
    } else {
        jni_mangle(s.drop_last()) + mangled_piece(s.last())
    }
}

fn mangle_symbol(s: &str) -> (r: String)
    ensures
        r@ == jni_mangle(s@),
{
    let n = s.unicode_len();
    let mut r = String::new();
    let mut i: usize = 0;
    while i < n
        invariant
            i <= n,
            n == s@.len(),
            r@ == jni_mangle(s@.take(i as int)),
        decreases n - i,
    {
        let c = s.get_char(i);
        if c == '.' {
            r.append("_");
            proof {
                reveal_strlit("_");
            }
        } else if c == '_' {
            r.append("_1");
            proof {
                reveal_strlit("_1");
            }
        } else {
            let piece = s.substring_char(i, i + 1);
            r.append(piece);
        }
        proof {
            assert(s@.take(i + 1).drop_last() =~= s@.take(i as int));
            assert(s@.take(i + 1).last() == s@[i as int]);
            assert(r@ =~= jni_mangle(s@.take(i + 1)));
        }
        i = i + 1;
    }
    proof {
        assert(s@.take(n as int) =~= s@);
    }
    r
}

/// The whole bridge function for one exported function.
pub open spec fn spec_jni_function(
    args: Seq<ArgExprV>,
    native_name: Seq<char>,
    func_name: Seq<char>,
    namespace: Seq<char>,
) -> Seq<char> {
    "#[no_mangle]\npub extern \"system\" fn Java_"@ + jni_mangle(namespace) + "_NativeBindings_"@
        + func_name
        + "(env: JNIEnv, _class: JClass"@ + jni_input_pieces(args, 0) + ") {\n"@ + jni_stmts(
        args,
        0,
    ) + "    "@ + native_name + "("@ + join_pieces(jni_calls(args, 0), ", "@) + ");\n}\n"@
}

fn emit_jni_stmt(arg: &ArgExpr, pair: bool) -> (r: String)
    ensures
        ({
            let a = arg@;
            if pair {
                r@ == "    let "@ + a.name + " = Vec::from_java(&env, "@ + a.name + ");\n"@
            } else {
                match a.ty {
                    TyExprV::BareFn(_) => r@ == "    let "@ + a.name
                        + " = convert_cb_from_java(&env, "@ + a.name + ");\n"@,
                    TyExprV::Ptr(_, inner) => {
                        if is_path_to(*inner, "c_char"@) {
                            r@ == "    let "@ + a.name + " = CString::from_java(&env, "@ + a.name
                                + ");\n"@
                        } else {
                            r@ == "    let "@ + a.name + " = from_java_object(&env, "@ + a.name
                                + ");\n"@
                        }
                    },
                    _ => r@ == Seq::<char>::empty(),
                }
            }
        }),
{
    proof {
        lemma_ty_expr_model_variants(arg.ty);
    }
    if pair {
        let mut r = String::from_str("    let ");
        r.append(arg.name.as_str());
        r.append(" = Vec::from_java(&env, ");
        r.append(arg.name.as_str());
        r.append(");\n");
        proof {
            assert(r@ =~= "    let "@ + arg@.name + " = Vec::from_java(&env, "@ + arg@.name
                + ");\n"@);
        }
        return r;
    }
    match &arg.ty {
        TyExpr::BareFn(_) => {
            let mut r = String::from_str("    let ");
            r.append(arg.name.as_str());
            r.append(" = convert_cb_from_java(&env, ");
            r.append(arg.name.as_str());
            r.append(");\n");
            proof {
                assert(r@ =~= "    let "@ + arg@.name + " = convert_cb_from_java(&env, "@
                    + arg@.name + ");\n"@);
            }
            r
        },
        TyExpr::Ptr(_, inner) => {
            let is_string = match &**inner {
                TyExpr::Path(segs) => {
                    proof {
                        lemma_segments_model_index(segs@);
                        assert(crate::ast::ty_expr_model(**inner) == TyExprV::Path(
                            segments_model(segs@),
                        ));
                    }
                    if segs.len() == 1 {
                        let r = eq_str(segs[0].as_str(), "c_char");
                        proof {
                            if r {
                                assert(segments_model(segs@) =~= seq!["c_char"@]);
                            } else {
                                assert(segments_model(segs@)[0] != "c_char"@);
                            }
                        }
                        r
                    } else {
                        proof {
                            if segments_model(segs@) == seq!["c_char"@] {
                                assert(segments_model(segs@).len() == 1);
                            }
                        }
                        false
                    }
                },
                _ => {
                    proof {
                        lemma_ty_expr_model_variants(**inner);
                    }
                    false
                },
            };
            let mut r = String::from_str("    let ");
            r.append(arg.name.as_str());
            if is_string {
                r.append(" = CString::from_java(&env, ");
            } else {
                r.append(" = from_java_object(&env, ");
            }
            r.append(arg.name.as_str());
            r.append(");\n");
            proof {
                if is_path_to(crate::ast::ty_expr_model(**inner), "c_char"@) {
                    assert(r@ =~= "    let "@ + arg@.name + " = CString::from_java(&env, "@
                        + arg@.name + ");\n"@);
                } else {
                    assert(r@ =~= "    let "@ + arg@.name + " = from_java_object(&env, "@
                        + arg@.name + ");\n"@);
                }
            }
            r
        },
        _ => String::new(),
    }
}

/// Render the bridge function for one exported function; the generated
/// symbol carries the mangled package prefix.
pub fn generate_jni_function(
    args: &Vec<ArgExpr>,
    native_name: &str,
    func_name: &str,
    context: &JniContext,
) -> (r: String)
    ensures
        r@ == spec_jni_function(
            args_model(args@),
            native_name@,
            func_name@,
            context.namespace@,
        ),
{
    proof {
        lemma_args_model_index(args@);
    }
    let ghost model = args_model(args@);
    let mut r = String::from_str("#[no_mangle]\npub extern \"system\" fn Java_");
    let mangled = mangle_symbol(context.namespace.as_str());
    r.append(mangled.as_str());
    r.append("_NativeBindings_");
    r.append(func_name);
    r.append("(env: JNIEnv, _class: JClass");
    let ghost header = r@;
    let mut i: usize = 0;
    while i < args.len()
        invariant
            i <= args@.len(),
            model == args_model(args@),
            model.len() == args@.len(),
            forall|k: int|
                0 <= k < args@.len() ==> model[k] == crate::ast::arg_model(#[trigger] args@[k]),
            header + jni_input_pieces(model, 0) == r@ + jni_input_pieces(model, i as int),
        decreases args@.len() - i,
    {
        let ghost prev = r@;
        r.append(", ");
        r.append(args[i].name.as_str());
        r.append(": ");
        let ty = emit_jni_arg_ty(&args[i].ty);
        r.append(ty.as_str());
        proof {
            assert(header + jni_input_pieces(model, 0) =~= r@ + jni_input_pieces(model, i + 1));
        }
        i = i + 1;
    }
    proof {
        assert(jni_input_pieces(model, model.len() as int) =~= Seq::<char>::empty());
        assert(r@ =~= header + jni_input_pieces(model, 0));
    }
    r.append(") {\n");
    let ghost mid = r@;
    let mut call_pieces: Vec<String> = Vec::new();
    let mut i: usize = 0;
    while i < args.len()
        invariant
            i <= args@.len(),
            model == args_model(args@),
            model.len() == args@.len(),
            forall|k: int|
                0 <= k < args@.len() ==> model[k] == crate::ast::arg_model(#[trigger] args@[k]),
            mid + jni_stmts(model, 0) == r@ + jni_stmts(model, i as int),
            jni_calls(model, 0) == call_pieces.deep_view() + jni_calls(model, i as int),
        decreases args@.len() - i,
    {
        let arg = &args[i];
        if is_user_data_arg(arg) {
            i = i + 1;
            continue ;
        }
        let j = crate::java::find_next_visible(args, i);
        let pair = if j < args.len() {
            crate::common::is_array_arg(arg, Option::Some(&args[j]))
        } else {
            false
        };
        let stmt = emit_jni_stmt(arg, pair);
        let ghost prev = r@;
        let ghost prev_calls = call_pieces.deep_view();
        r.append(stmt.as_str());
        proof {
            assert(stmt@ == jni_stmt(model, i as int, pair));
        }
        if pair {
            let mut p1 = String::new();
            p1.append(arg.name.as_str());
            p1.append(".as_ptr()");
            call_pieces.push(p1);
            let mut p2 = String::new();
            p2.append(arg.name.as_str());
            p2.append(".len()");
            call_pieces.push(p2);
            proof {
                assert(call_pieces.deep_view() =~= prev_calls.push(model[i as int].name
                    + ".as_ptr()"@).push(model[i as int].name + ".len()"@));
                assert(call_pieces.deep_view() + jni_calls(model, j + 1) =~= prev_calls + (
                jni_call_args(model, i as int, pair) + jni_calls(model, j + 1)));
                assert(mid + jni_stmts(model, 0) =~= r@ + jni_stmts(model, j + 1));
            }
            i = j + 1;
        } else {
            proof {
                lemma_ty_expr_model_variants(args@[i as int].ty);
            }
            let piece: String = match &arg.ty {
                TyExpr::Ptr(_, inner) => {
                    let is_string = {
                        let stmt_is_cstring = match &**inner {
                            TyExpr::Path(segs) => {
                                proof {
                                    lemma_segments_model_index(segs@);
                                    assert(crate::ast::ty_expr_model(**inner) == TyExprV::Path(
                                        segments_model(segs@),
                                    ));
                                }
                                if segs.len() == 1 {
                                    let r = eq_str(segs[0].as_str(), "c_char");
                                    proof {
                                        if r {
                                            assert(segments_model(segs@) =~= seq!["c_char"@]);
                                        } else {
                                            assert(segments_model(segs@)[0] != "c_char"@);
                                        }
                                    }
                                    r
                                } else {
                                    proof {
                                        if segments_model(segs@) == seq!["c_char"@] {
                                            assert(segments_model(segs@).len() == 1);
                                        }
                                    }
                                    false
                                }
                            },
                            _ => {
                                proof {
                                    lemma_ty_expr_model_variants(**inner);
                                }
                                false
                            },
                        };
                        stmt_is_cstring
                    };
                    if is_string {
                        let mut p = String::new();
                        p.append(arg.name.as_str());
                        p.append(".as_ptr()");
                        p
                    } else {
                        let mut p = String::from_str("&");
                        p.append(arg.name.as_str());
                        p
                    }
                },
                _ => {
                    let mut p = String::new();
                    p.append(arg.name.as_str());
                    p
                },
            };
            call_pieces.push(piece);
            proof {
                assert(call_pieces.deep_view() =~= prev_calls.push(call_pieces@.last()@));
                assert(call_pieces.deep_view() + jni_calls(model, i + 1) =~= prev_calls + (
                jni_call_args(model, i as int, pair) + jni_calls(model, i + 1)));
                assert(mid + jni_stmts(model, 0) =~= r@ + jni_stmts(model, i + 1));
            }
            i = i + 1;
        }
    }
    proof {
        assert(jni_stmts(model, model.len() as int) =~= Seq::<char>::empty());
        assert(jni_calls(model, model.len() as int) =~= Seq::<Seq<char>>::empty());
        assert(r@ =~= mid + jni_stmts(model, 0));
        assert(call_pieces.deep_view() =~= jni_calls(model, 0));
    }
    r.append("    ");
    r.append(native_name);
    r.append("(");
    let calls = join_strings(&call_pieces, ", ");
    r.append(calls.as_str());
    r.append(");\n}\n");
    proof {
        assert(r@ =~= spec_jni_function(model, native_name@, func_name@, context.namespace@));
    }
    r
}

/// The whole bridge trampoline for one callback: it recovers the stored
/// reference from the context argument and forwards the call.
pub open spec fn spec_jni_callback(
    args: Seq<ArgExprV>,
    cb_name: Seq<char>,
) -> Seq<char> {
    "extern \"C\" fn "@ + cb_name + "(ctx: *mut c_void"@ + jni_input_pieces(args, 0)
        + ") {\n    let cb = convert_cb_from_java(&env, ctx);\n"@ + jni_stmts(args, 0)
        + "    env.call_method(cb.as_obj(), \"call\", &["@ + join_pieces(jni_calls(args, 0), ", "@)
        + "]);\n}\n"@
}

/// Render the bridge trampoline for one callback.
pub fn generate_jni_callback(cb: &BareFnExpr, cb_name: &str, _context: &JniContext) -> (r: String)
    ensures
        r@ == spec_jni_callback(args_model(cb.inputs@), cb_name@),
{
    proof {
        lemma_args_model_index(cb.inputs@);
    }
    let ghost model = args_model(cb.inputs@);
    let args = &cb.inputs;
    let mut r = String::from_str("extern \"C\" fn ");
    r.append(cb_name);
    r.append("(ctx: *mut c_void");
    let ghost header = r@;
    let mut i: usize = 0;
    while i < args.len()
        invariant
            i <= args@.len(),
            model == args_model(cb.inputs@),
            args@ == cb.inputs@,
            model.len() == args@.len(),
            forall|k: int|
                0 <= k < args@.len() ==> model[k] == crate::ast::arg_model(#[trigger] args@[k]),
            header + jni_input_pieces(model, 0) == r@ + jni_input_pieces(model, i as int),
        decreases args@.len() - i,
    {
        r.append(", ");
        r.append(args[i].name.as_str());
        r.append(": ");
        let ty = emit_jni_arg_ty(&args[i].ty);
        r.append(ty.as_str());
        proof {
            assert(header + jni_input_pieces(model, 0) =~= r@ + jni_input_pieces(model, i + 1));
        }
        i = i + 1;
    }
    proof {
        assert(jni_input_pieces(model, model.len() as int) =~= Seq::<char>::empty());
        assert(r@ =~= header + jni_input_pieces(model, 0));
    }
    r.append(") {\n    let cb = convert_cb_from_java(&env, ctx);\n");
    let ghost mid = r@;
    let mut call_pieces: Vec<String> = Vec::new();
    let mut i: usize = 0;
    while i < args.len()
        invariant
            i <= args@.len(),
            model == args_model(cb.inputs@),
            args@ == cb.inputs@,
            model.len() == args@.len(),
            forall|k: int|
                0 <= k < args@.len() ==> model[k] == crate::ast::arg_model(#[trigger] args@[k]),
            mid + jni_stmts(model, 0) == r@ + jni_stmts(model, i as int),
            jni_calls(model, 0) == call_pieces.deep_view() + jni_calls(model, i as int),
        decreases args@.len() - i,
    {
        let arg = &args[i];
        if is_user_data_arg(arg) {
            i = i + 1;
            continue ;
        }
        let j = crate::java::find_next_visible(args, i);
        let pair = if j < args.len() {
            crate::common::is_array_arg(arg, Option::Some(&args[j]))
        } else {
            false
        };
        let stmt = emit_jni_stmt(arg, pair);
        let ghost prev_calls = call_pieces.deep_view();
        r.append(stmt.as_str());
        proof {
            assert(stmt@ == jni_stmt(model, i as int, pair));
        }
        if pair {
            let mut p1 = String::new();
            p1.append(arg.name.as_str());
            p1.append(".as_ptr()");
            call_pieces.push(p1);
            let mut p2 = String::new();
            p2.append(arg.name.as_str());
            p2.append(".len()");
            call_pieces.push(p2);
            proof {
                assert(call_pieces.deep_view() =~= prev_calls.push(model[i as int].name
                    + ".as_ptr()"@).push(model[i as int].name + ".len()"@));
                assert(call_pieces.deep_view() + jni_calls(model, j + 1) =~= prev_calls + (
                jni_call_args(model, i as int, pair) + jni_calls(model, j + 1)));
                assert(mid + jni_stmts(model, 0) =~= r@ + jni_stmts(model, j + 1));
            }
            i = j + 1;
        } else {
            proof {
                lemma_ty_expr_model_variants(args@[i as int].ty);
            }
            let piece: String = match &arg.ty {
                TyExpr::Ptr(_, inner) => {
                    let is_string = match &**inner {
                        TyExpr::Path(segs) => {
                            proof {
                                lemma_segments_model_index(segs@);
                                assert(crate::ast::ty_expr_model(**inner) == TyExprV::Path(
                                    segments_model(segs@),
                                ));
                            }
                            if segs.len() == 1 {
                                let r = eq_str(segs[0].as_str(), "c_char");
                                proof {
                                    if r {
                                        assert(segments_model(segs@) =~= seq!["c_char"@]);
                                    } else {
                                        assert(segments_model(segs@)[0] != "c_char"@);
                                    }
                                }
                                r
                            } else {
                                proof {
                                    if segments_model(segs@) == seq!["c_char"@] {
                                        assert(segments_model(segs@).len() == 1);
                                    }
                                }
                                false
                            }
                        },
                        _ => {
                            proof {
                                lemma_ty_expr_model_variants(**inner);
                            }
                            false
                        },
                    };
                    if is_string {
                        let mut p = String::new();
                        p.append(arg.name.as_str());
                        p.append(".as_ptr()");
                        p
                    } else {
                        let mut p = String::from_str("&");
                        p.append(arg.name.as_str());
                        p
                    }
                },
                _ => {
                    let mut p = String::new();
                    p.append(arg.name.as_str());
                    p
                },
            };
            call_pieces.push(piece);
            proof {
                assert(call_pieces.deep_view() =~= prev_calls.push(call_pieces@.last()@));
                assert(call_pieces.deep_view() + jni_calls(model, i + 1) =~= prev_calls + (
                jni_call_args(model, i as int, pair) + jni_calls(model, i + 1)));
                assert(mid + jni_stmts(model, 0) =~= r@ + jni_stmts(model, i + 1));
            }
            i = i + 1;
        }
    }
    proof {
        assert(jni_stmts(model, model.len() as int) =~= Seq::<char>::empty());
        assert(jni_calls(model, model.len() as int) =~= Seq::<Seq<char>>::empty());
        assert(r@ =~= mid + jni_stmts(model, 0));
        assert(call_pieces.deep_view() =~= jni_calls(model, 0));
    }
    r.append("    env.call_method(cb.as_obj(), \"call\", &[");
    let calls = join_strings(&call_pieces, ", ");
    r.append(calls.as_str());
    r.append("]);\n}\n");
    proof {
        assert(r@ =~= spec_jni_callback(model, cb_name@));
    }
    r
}

} // verus!
