//! The already-parsed representation of foreign declarations that the
//! generator consumes: type-expression trees, attributes, and item
//! declarations. The generator never parses source text itself; the driving
//! caller hands it values of these types.

use vstd::prelude::*;

verus! {

/// Calling convention of a function or function pointer.
#[derive(Clone, Copy, PartialEq, Eq, Structural, Debug)]
pub enum Abi {
    C,
    Cdecl,
    Stdcall,
    Fastcall,
    System,
    Rust,
    Other,
}

/// A literal or other constant expression, as the parser hands it over.
pub enum ConstExpr {
    /// A non-negative integer literal.
    Int(u64),
    /// A boolean literal.
    Bool(bool),
    /// A string literal.
    Str(String),
    /// Any other expression, carried as printed text.
    Other(String),
}

/// A type expression tree.
pub enum TyExpr {
    /// A possibly module-qualified path, as its segments.
    Path(Vec<String>),
    /// A raw pointer; the flag is true for a mutable pointer.
    Ptr(bool, Box<TyExpr>),
    /// A fixed-size array with its size expression.
    FixedArray(Box<TyExpr>, ConstExpr),
    /// A bare function pointer.
    BareFn(Box<BareFnExpr>),
    /// The unit type.
    Unit,
    /// The never type.
    Never,
    /// Any other construct, carried as printed text.
    Other(String),
}

/// A bare function type: calling convention, lifetime count and declaration.
pub struct BareFnExpr {
    pub abi: Abi,
    /// Number of declared lifetime parameters.
    pub lifetimes: u64,
    pub inputs: Vec<ArgExpr>,
    pub output: RetExpr,
}

/// One declared parameter: pattern text and type.
pub struct ArgExpr {
    pub name: String,
    pub ty: TyExpr,
}

/// A declared return type.
pub enum RetExpr {
    /// No return type was written.
    Omitted,
    /// An explicit return type.
    Ty(TyExpr),
}

/// One attribute of a declaration, already classified by the parser.
pub enum Attr {
    /// The no-name-mangling marker.
    NoMangle,
    /// The C-compatible-layout marker.
    ReprC,
    /// A layout marker other than the C-compatible one.
    ReprOther(String),
    /// One line of documentation text.
    Doc(String),
    /// Any other attribute, carried as printed text.
    Other(String),
}

/// One enum variant: name and optional discriminant expression.
pub struct VariantExpr {
    pub name: String,
    pub value: Option<ConstExpr>,
}

/// One named struct field.
pub struct FieldExpr {
    pub name: String,
    pub attrs: Vec<Attr>,
    pub ty: TyExpr,
}

/// The shape of a struct body.
pub enum StructShape {
    /// Named fields.
    Fields(Vec<FieldExpr>),
    /// A tuple struct with the given number of unnamed fields.
    Tuple(u64),
    /// A unit struct.
    Unit,
}

/// What kind of declaration an item is.
pub enum ItemKind {
    Const(TyExpr, ConstExpr),
    Alias(TyExpr),
    Enum(Vec<VariantExpr>),
    Struct(StructShape),
    Fn(BareFnExpr),
}

/// One top-level declaration.
pub struct Item {
    pub name: String,
    /// Source location, for diagnostics.
    pub span: u64,
    /// Number of generic parameters; nonzero means parameterized.
    pub generics: u64,
    pub attrs: Vec<Attr>,
    pub kind: ItemKind,
}

// ----------------------------------------------------------------------------
// Mathematical models.

/// Model of a constant expression.
pub enum ConstExprV {
    Int(u64),
    Bool(bool),
    Str(Seq<char>),
    Other(Seq<char>),
}

/// Model of a type expression.
pub enum TyExprV {
    Path(Seq<Seq<char>>),
    Ptr(bool, Box<TyExprV>),
    FixedArray(Box<TyExprV>, ConstExprV),
    BareFn(Box<BareFnExprV>),
    Unit,
    Never,
    Other(Seq<char>),
}

/// Model of a bare function type.
pub struct BareFnExprV {
    pub abi: Abi,
    pub lifetimes: u64,
    pub inputs: Seq<ArgExprV>,
    pub output: RetExprV,
}

/// Model of a declared parameter.
pub struct ArgExprV {
    pub name: Seq<char>,
    pub ty: TyExprV,
}

/// Model of a declared return type.
pub enum RetExprV {
    Omitted,
    Ty(TyExprV),
}

/// Model of an attribute.
pub enum AttrV {
    NoMangle,
    ReprC,
    ReprOther(Seq<char>),
    Doc(Seq<char>),
    Other(Seq<char>),
}

/// Model of an enum variant.
pub struct VariantExprV {
    pub name: Seq<char>,
    pub value: Option<ConstExprV>,
}

/// Model of a named struct field.
pub struct FieldExprV {
    pub name: Seq<char>,
    pub attrs: Seq<AttrV>,
    pub ty: TyExprV,
}

/// Model of a struct shape.
pub enum StructShapeV {
    Fields(Seq<FieldExprV>),
    Tuple(u64),
    Unit,
}

/// Model of an item kind.
pub enum ItemKindV {
    Const(TyExprV, ConstExprV),
    Alias(TyExprV),
    Enum(Seq<VariantExprV>),
    Struct(StructShapeV),
    Fn(BareFnExprV),
}

/// Model of a declaration.
pub struct ItemV {
    pub name: Seq<char>,
    pub span: u64,
    pub generics: u64,
    pub attrs: Seq<AttrV>,
    pub kind: ItemKindV,
}

pub open spec fn const_expr_model(c: ConstExpr) -> ConstExprV {
    match c {
        ConstExpr::Int(v) => ConstExprV::Int(v),
        ConstExpr::Bool(b) => ConstExprV::Bool(b),
        ConstExpr::Str(s) => ConstExprV::Str(s@),
        ConstExpr::Other(s) => ConstExprV::Other(s@),
    }
}

pub open spec fn segments_model(segs: Seq<String>) -> Seq<Seq<char>>
    decreases segs.len(),
{
    if segs.len() == 0 {
        Seq::empty()
    } else {
        segments_model(segs.drop_last()).push(segs.last()@)
    }
}

pub open spec fn ty_expr_model(t: TyExpr) -> TyExprV
    decreases t,
{
    match t {
        TyExpr::Path(segs) => TyExprV::Path(segments_model(segs@)),
        TyExpr::Ptr(m, inner) => TyExprV::Ptr(m, Box::new(ty_expr_model(*inner))),
        TyExpr::FixedArray(inner, size) => TyExprV::FixedArray(
            Box::new(ty_expr_model(*inner)),
            const_expr_model(size),
        ),
        TyExpr::BareFn(f) => TyExprV::BareFn(Box::new(bare_fn_model(*f))),
        TyExpr::Unit => TyExprV::Unit,
        TyExpr::Never => TyExprV::Never,
        TyExpr::Other(s) => TyExprV::Other(s@),
    }
}

pub open spec fn bare_fn_model(f: BareFnExpr) -> BareFnExprV
    decreases f,
{
    BareFnExprV {
        abi: f.abi,
        lifetimes: f.lifetimes,
        inputs: args_model(f.inputs@),
        output: ret_model(f.output),
    }
}

pub open spec fn args_model(args: Seq<ArgExpr>) -> Seq<ArgExprV>
    decreases args,
{
    if args.len() == 0 {
        Seq::empty()
    } else {
        args_model(args.drop_last()).push(arg_model(args.last()))
    }
}

pub open spec fn arg_model(a: ArgExpr) -> ArgExprV
    decreases a,
{
    ArgExprV { name: a.name@, ty: ty_expr_model(a.ty) }
}

pub open spec fn ret_model(r: RetExpr) -> RetExprV
    decreases r,
{
    match r {
        RetExpr::Omitted => RetExprV::Omitted,
        RetExpr::Ty(t) => RetExprV::Ty(ty_expr_model(t)),
    }
}

pub open spec fn attr_model(a: Attr) -> AttrV {
    match a {
        Attr::NoMangle => AttrV::NoMangle,
        Attr::ReprC => AttrV::ReprC,
        Attr::ReprOther(s) => AttrV::ReprOther(s@),
        Attr::Doc(s) => AttrV::Doc(s@),
        Attr::Other(s) => AttrV::Other(s@),
    }
}

pub open spec fn attrs_model(attrs: Seq<Attr>) -> Seq<AttrV> {
    attrs.map_values(|a: Attr| attr_model(a))
}

pub open spec fn variant_model(v: VariantExpr) -> VariantExprV {
    VariantExprV {
        name: v.name@,
        value: match v.value {
            Option::Some(c) => Option::Some(const_expr_model(c)),
            Option::None => Option::None,
        },
    }
}

pub open spec fn variants_model(vs: Seq<VariantExpr>) -> Seq<VariantExprV> {
    vs.map_values(|v: VariantExpr| variant_model(v))
}

pub open spec fn field_model(f: FieldExpr) -> FieldExprV
    decreases f,
{
    FieldExprV { name: f.name@, attrs: attrs_model(f.attrs@), ty: ty_expr_model(f.ty) }
}

pub open spec fn fields_model(fs: Seq<FieldExpr>) -> Seq<FieldExprV>
    decreases fs,
{
    if fs.len() == 0 {
        Seq::empty()
    } else {
        fields_model(fs.drop_last()).push(field_model(fs.last()))
    }
}

pub open spec fn shape_model(s: StructShape) -> StructShapeV
    decreases s,
{
    match s {
        StructShape::Fields(fs) => StructShapeV::Fields(fields_model(fs@)),
        StructShape::Tuple(n) => StructShapeV::Tuple(n),
        StructShape::Unit => StructShapeV::Unit,
    }
}

pub open spec fn item_kind_model(k: ItemKind) -> ItemKindV
    decreases k,
{
    match k {
        ItemKind::Const(t, c) => ItemKindV::Const(ty_expr_model(t), const_expr_model(c)),
        ItemKind::Alias(t) => ItemKindV::Alias(ty_expr_model(t)),
        ItemKind::Enum(vs) => ItemKindV::Enum(variants_model(vs@)),
        ItemKind::Struct(s) => ItemKindV::Struct(shape_model(s)),
        ItemKind::Fn(f) => ItemKindV::Fn(bare_fn_model(f)),
    }
}

impl View for ConstExpr {
    type V = ConstExprV;

    open spec fn view(&self) -> ConstExprV {
        const_expr_model(*self)
    }
}

impl View for TyExpr {
    type V = TyExprV;

    open spec fn view(&self) -> TyExprV {
        ty_expr_model(*self)
    }
}

impl View for BareFnExpr {
    type V = BareFnExprV;

    open spec fn view(&self) -> BareFnExprV {
        bare_fn_model(*self)
    }
}

impl View for ArgExpr {
    type V = ArgExprV;

    open spec fn view(&self) -> ArgExprV {
        arg_model(*self)
    }
}

impl View for RetExpr {
    type V = RetExprV;

    open spec fn view(&self) -> RetExprV {
        ret_model(*self)
    }
}

impl View for Attr {
    type V = AttrV;

    open spec fn view(&self) -> AttrV {
        attr_model(*self)
    }
}

impl View for VariantExpr {
    type V = VariantExprV;

    open spec fn view(&self) -> VariantExprV {
        variant_model(*self)
    }
}

impl View for FieldExpr {
    type V = FieldExprV;

    open spec fn view(&self) -> FieldExprV {
        field_model(*self)
    }
}

impl View for StructShape {
    type V = StructShapeV;

    open spec fn view(&self) -> StructShapeV {
        shape_model(*self)
    }
}

impl View for Item {
    type V = ItemV;

    open spec fn view(&self) -> ItemV {
        ItemV {
            name: self.name@,
            span: self.span,
            generics: self.generics,
            attrs: attrs_model(self.attrs@),
            kind: item_kind_model(self.kind),
        }
    }
}

/// The model of a type expression is built with the same head constructor
/// as the expression.
pub proof fn lemma_ty_expr_model_variants(t: TyExpr)
    ensures
        (ty_expr_model(t) is Path) == (t is Path),
        (ty_expr_model(t) is Ptr) == (t is Ptr),
        (ty_expr_model(t) is FixedArray) == (t is FixedArray),
        (ty_expr_model(t) is BareFn) == (t is BareFn),
        (ty_expr_model(t) is Unit) == (t is Unit),
        (ty_expr_model(t) is Never) == (t is Never),
        (ty_expr_model(t) is Other) == (t is Other),
{
    match t {
        TyExpr::Path(_) => {},
        TyExpr::Ptr(_, _) => {},
        TyExpr::FixedArray(_, _) => {},
        TyExpr::BareFn(_) => {},
        TyExpr::Unit => {},
        TyExpr::Never => {},
        TyExpr::Other(_) => {},
    }
}

/// A sequence of argument models is the pointwise model of the arguments.
pub proof fn lemma_args_model_index(args: Seq<ArgExpr>)
    ensures
        args_model(args).len() == args.len(),
        forall|i: int| 0 <= i < args.len() ==> args_model(args)[i] == arg_model(#[trigger] args[i]),
    decreases args.len(),
{
    if args.len() > 0 {
        lemma_args_model_index(args.drop_last());
        assert forall|i: int| 0 <= i < args.len() implies args_model(args)[i] == arg_model(
            #[trigger] args[i],
        ) by {
            if i < args.len() - 1 {
                assert(args.drop_last()[i] == args[i]);
                assert(args_model(args)[i] == args_model(args.drop_last())[i]);
            } else {
                assert(args.last() == args[i]);
            }
        }
    }
}

/// A sequence of segment models is the pointwise view of the segments.
pub proof fn lemma_segments_model_index(segs: Seq<String>)
    ensures
        segments_model(segs).len() == segs.len(),
        forall|i: int| 0 <= i < segs.len() ==> segments_model(segs)[i] == #[trigger] segs[i]@,
    decreases segs.len(),
{
    if segs.len() > 0 {
        lemma_segments_model_index(segs.drop_last());
        assert forall|i: int| 0 <= i < segs.len() implies segments_model(segs)[i] == #[trigger] segs[i]@ by {
            if i < segs.len() - 1 {
                assert(segs.drop_last()[i] == segs[i]);
                assert(segments_model(segs)[i] == segments_model(segs.drop_last())[i]);
            } else {
                assert(segs.last() == segs[i]);
            }
        }
    }
}

/// A sequence of field models is the pointwise model of the fields.
pub proof fn lemma_fields_model_index(fs: Seq<FieldExpr>)
    ensures
        fields_model(fs).len() == fs.len(),
        forall|i: int| 0 <= i < fs.len() ==> fields_model(fs)[i] == field_model(#[trigger] fs[i]),
    decreases fs.len(),
{
    if fs.len() > 0 {
        lemma_fields_model_index(fs.drop_last());
        assert forall|i: int| 0 <= i < fs.len() implies fields_model(fs)[i] == field_model(
            #[trigger] fs[i],
        ) by {
            if i < fs.len() - 1 {
                assert(fs.drop_last()[i] == fs[i]);
                assert(fields_model(fs)[i] == fields_model(fs.drop_last())[i]);
            } else {
                assert(fs.last() == fs[i]);
            }
        }
    }
}

} // verus!
