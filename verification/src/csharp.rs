//! The object-oriented managed-language backend: collection of declarations,
//! alias resolution, native-type propagation, callback deduplication, and
//! emission of the output artifacts.

use vstd::prelude::*;
use vstd::string::*;
use crate::intermediate::{
    Function, FunctionV, Param, ParamV, Type, TypeV, lemma_params_model_index,
    lemma_type_model_variants, param_model, params_model,
};
use crate::ast::{ConstExpr, Item, ItemKind, ItemKindV, StructShape, StructShapeV};
use crate::common::{
    AttrCheck, FilterMode, Outputs, any_attr_matches, docs_of, is_extern, parse_attr,
    spec_is_extern,
};
use crate::intermediate::{
    Const, ConstV, Enum, EnumV, Snippet, SnippetV, Struct, StructV, spec_literal_const,
    spec_num_callbacks, spec_transform_fields, spec_transform_type, spec_transform_variants,
    transform_const, transform_enum, transform_function, transform_struct, transform_type,
    num_callbacks,
};
use crate::naming::{pascal_of, to_pascal_case};
use crate::patterns::{array_field_at, has_array_field, is_array_field};
use crate::strutil::{
    contains_name, distinct_names, eq_str, insert_unique, lemma_lex_irreflexive,
    lemma_lex_total, lemma_lex_transitive, lex_lt, names_view, seq_has_name, str_lex_lt,
};
use crate::{Error, Level};
use crate::table::{assoc_get, lemma_assoc_get_found, lemma_assoc_get_none, lemma_assoc_get_push,
    lemma_assoc_get_update};

pub mod emit;

verus! {

/// One alias declaration: the alias name and the type it stands for.
pub struct AliasEntry {
    pub name: String,
    pub ty: Type,
}

/// The mapping from declared type-alias names to intermediate types.
pub struct AliasTable {
    entries: Vec<AliasEntry>,
}

impl AliasTable {
    /// The table as an association sequence of name/type models.
    pub closed spec fn entry_seq(self) -> Seq<(Seq<char>, TypeV)> {
        self.entries@.map_values(|e: AliasEntry| (e.name@, e.ty@))
    }

    /// Alias names are distinct.
    pub open spec fn wf(self) -> bool {
        forall|i: int, j: int|
            0 <= i < j < self.entry_seq().len() ==> #[trigger] self.entry_seq()[i].0 != (
            #[trigger] self.entry_seq()[j].0)
    }

    /// The direct (one-step) entry for a name.
    pub open spec fn get_of(self, k: Seq<char>) -> Option<TypeV> {
        assoc_get(self.entry_seq(), k)
    }

    /// Number of entries.
    pub open spec fn count(self) -> nat {
        self.entry_seq().len()
    }

    /// An empty table.
    pub fn new() -> (r: AliasTable)
        ensures
            r.wf(),
            r.count() == 0,
            forall|k: Seq<char>| #[trigger] r.get_of(k) is None,
    {
        let r = AliasTable { entries: Vec::new() };
        proof {
            assert(r.entry_seq() =~= Seq::empty());
            assert forall|k: Seq<char>| #[trigger] r.get_of(k) is None by {
                assert(assoc_get(r.entry_seq(), k) is None);
            }
        }
        r
    }

    fn position_of(&self, name: &str) -> (r: Option<usize>)
        ensures
            match r {
                Option::Some(i) => i < self.entry_seq().len() && self.entry_seq()[i as int].0
                    == name@ && forall|j: int|
                    0 <= j < i ==> #[trigger] self.entry_seq()[j].0 != name@,
                Option::None => !(self.get_of(name@) is Some),
            },
    {
        let mut i: usize = 0;
        while i < self.entries.len()
            invariant
                i <= self.entries@.len(),
                forall|j: int| 0 <= j < i ==> #[trigger] self.entry_seq()[j].0 != name@,
            decreases self.entries@.len() - i,
        {
            if eq_str(self.entries[i].name.as_str(), name) {
                return Option::Some(i);
            }
            i = i + 1;
        }
        proof {
            lemma_assoc_get_none(self.entry_seq(), name@);
        }
        Option::None
    }

    /// Map `name` to `ty`, replacing any previous entry for it.
    pub fn insert(&mut self, name: &str, ty: Type)
        requires
            old(self).wf(),
        ensures
            final(self).wf(),
            final(self).get_of(name@) == Option::Some(ty@),
            forall|k: Seq<char>|
                k != name@ ==> #[trigger] final(self).get_of(k) == old(self).get_of(k),
            final(self).count() == if old(self).get_of(name@) is Some {
                old(self).count()
            } else {
                old(self).count() + 1
            },
    {
        let pos = self.position_of(name);
        match pos {
            Option::Some(i) => {
                let ghost old_seq = self.entry_seq();
                proof {
                    lemma_assoc_get_found(old_seq, name@, i as int);
                }
                let mut entry = self.entries.remove(i);
                entry.ty = ty;
                self.entries.insert(i, entry);
                proof {
                    assert(self.entry_seq() =~= old_seq.update(
                        i as int,
                        (old_seq[i as int].0, entry.ty@),
                    ));
                    lemma_assoc_get_update(old_seq, i as int, entry.ty@);
                    assert(forall|j: int|
                        0 <= j < self.entry_seq().len() ==> #[trigger] self.entry_seq()[j].0
                            == old_seq[j].0);
                }
            },
            Option::None => {
                let ghost old_seq = self.entry_seq();
                self.entries.push(AliasEntry { name: String::from_str(name), ty });
                proof {
                    assert(self.entry_seq() =~= old_seq.push((name@, ty@)));
                    lemma_assoc_get_push(old_seq, name@, ty@);
                }
            },
        }
    }

    fn find<'a>(&'a self, name: &str) -> (r: Option<&'a Type>)
        ensures
            match r {
                Option::Some(t) => self.get_of(name@) == Option::Some(t@),
                Option::None => self.get_of(name@) is None,
            },
    {
        let pos = self.position_of(name);
        match pos {
            Option::Some(i) => {
                proof {
                    lemma_assoc_get_found(self.entry_seq(), name@, i as int);
                }
                Option::Some(&self.entries[i].ty)
            },
            Option::None => Option::None,
        }
    }

    /// Number of entries.
    pub fn len(&self) -> (r: usize)
        ensures
            r == self.count(),
    {
        self.entries.len()
    }
}

// ----------------------------------------------------------------------------
// Structural copies.

/// Copy a type; the copy has the same model.
pub fn dup_type(t: &Type) -> (r: Type)
    ensures
        r@ == t@,
    decreases *t,
{
    match t {
        Type::Unit => Type::Unit,
        Type::Bool => Type::Bool,
        Type::CChar => Type::CChar,
        Type::F32 => Type::F32,
        Type::F64 => Type::F64,
        Type::I8 => Type::I8,
        Type::I16 => Type::I16,
        Type::I32 => Type::I32,
        Type::I64 => Type::I64,
        Type::ISize => Type::ISize,
        Type::U8 => Type::U8,
        Type::U16 => Type::U16,
        Type::U32 => Type::U32,
        Type::U64 => Type::U64,
        Type::USize => Type::USize,
        Type::StringPtr => Type::StringPtr,
        Type::Pointer(inner) => Type::Pointer(Box::new(dup_type(inner))),
        Type::Array(inner, n) => Type::Array(Box::new(dup_type(inner)), *n),
        Type::Function(f) => Type::Function(Box::new(dup_function(f))),
        Type::User(n) => Type::User(n.clone()),
    }
}

/// Copy a function signature; the copy has the same model.
pub fn dup_function(f: &Function) -> (r: Function)
    ensures
        r@ == f@,
    decreases *f,
{
    proof {
        lemma_params_model_index(f.inputs@);
    }
    let ghost model = params_model(f.inputs@);
    let mut inputs: Vec<Param> = Vec::new();
    let mut i: usize = 0;
    while i < f.inputs.len()
        invariant
            i <= f.inputs@.len(),
            model == params_model(f.inputs@),
            model.len() == f.inputs@.len(),
            forall|j: int|
                0 <= j < f.inputs@.len() ==> model[j] == param_model(#[trigger] f.inputs@[j]),
            params_model(inputs@) == model.take(i as int),
            inputs@.len() == i,
        decreases f.inputs@.len() - i,
    {
        let p = &f.inputs[i];
        let ghost snap = inputs@;
        let ghost prev = params_model(inputs@);
        inputs.push(Param { name: p.name.clone(), ty: dup_type(&p.ty) });
        proof {
            assert(inputs@.drop_last() =~= snap);
            assert(params_model(inputs@) == prev.push(param_model(inputs@.last())));
            assert(model.take(i + 1).drop_last() =~= model.take(i as int));
            assert(model.take(i + 1).last() == model[i as int]);
            assert(params_model(inputs@) =~= model.take(i + 1));
        }
        i = i + 1;
    }
    proof {
        assert(model.take(model.len() as int) =~= model);
    }
    Function { inputs, output: dup_type(&f.output) }
}

// ----------------------------------------------------------------------------
// Transitive alias lookup, bounded against cyclic chains.

/// Chase a name through the table for at most `fuel` steps: the result is
/// the first non-alias type reached, a dangling named reference left as-is,
/// or nothing when the name is absent or the chain does not bottom out.
pub open spec fn chase(table: Seq<(Seq<char>, TypeV)>, name: Seq<char>, fuel: nat) -> Option<TypeV>
    decreases fuel,
{
    match assoc_get(table, name) {
        Option::None => Option::None,
        Option::Some(t) => match t {
            TypeV::User(n2) => {
                if assoc_get(table, n2) is None {
                    Option::Some(TypeV::User(n2))
                } else if fuel == 0 {
                    Option::None
                } else {
                    chase(table, n2, (fuel - 1) as nat)
                }
            },
            _ => Option::Some(t),
        },
    }
}

/// The transitive meaning of a name: chased with fuel enough for any acyclic
/// chain, so only a malformed cyclic chain comes up empty.
pub open spec fn lookup_spec(table: Seq<(Seq<char>, TypeV)>, name: Seq<char>) -> Option<TypeV> {
    chase(table, name, table.len())
}

fn lookup_fueled(aliases: &AliasTable, name: &str, fuel: usize) -> (r: Option<Type>)
    ensures
        crate::intermediate::opt_type_model(r) == chase(aliases.entry_seq(), name@, fuel as nat),
    decreases fuel,
{
    let found = aliases.find(name);
    match found {
        Option::None => Option::None,
        Option::Some(t) => {
            proof {
                lemma_type_model_variants(*t);
            }
            match t {
                Type::User(n2) => {
                    let again = aliases.find(n2.as_str());
                    if again.is_none() {
                        Option::Some(Type::User(n2.clone()))
                    } else if fuel == 0 {
                        Option::None
                    } else {
                        lookup_fueled(aliases, n2.as_str(), fuel - 1)
                    }
                },
                _ => Option::Some(dup_type(t)),
            }
        },
    }
}

/// Resolve an alias name transitively; a cyclic alias chain resolves to
/// nothing rather than looping.
pub fn lookup_alias(aliases: &AliasTable, name: &str) -> (r: Option<Type>)
    ensures
        crate::intermediate::opt_type_model(r) == lookup_spec(aliases.entry_seq(), name@),
{
    let fuel = aliases.len();
    lookup_fueled(aliases, name, fuel)
}

// ----------------------------------------------------------------------------
// Alias substitution through a type.

/// Fully expand a type against the table: every named reference, at any
/// depth, is replaced by the expansion of its alias body. The fuel bounds
/// the alias chains, so expanding a name that reaches a cyclic chain yields
/// nothing instead of diverging.
pub open spec fn expand_ty(t: TypeV, table: Seq<(Seq<char>, TypeV)>, fuel: nat) -> Option<TypeV>
    decreases fuel, t,
{
    match t {
        TypeV::User(n) => match assoc_get(table, n) {
            Option::None => Option::Some(TypeV::User(n)),
            Option::Some(body) => {
                if fuel == 0 {
                    Option::None
                } else {
                    expand_ty(body, table, (fuel - 1) as nat)
                }
            },
        },
        TypeV::Pointer(inner) => match expand_ty(*inner, table, fuel) {
            Option::Some(r) => Option::Some(TypeV::Pointer(Box::new(r))),
            Option::None => Option::None,
        },
        TypeV::Array(inner, n) => match expand_ty(*inner, table, fuel) {
            Option::Some(r) => Option::Some(TypeV::Array(Box::new(r), n)),
            Option::None => Option::None,
        },
        TypeV::Function(f) => match expand_fun(*f, table, fuel) {
            Option::Some(r) => Option::Some(TypeV::Function(Box::new(r))),
            Option::None => Option::None,
        },
        _ => Option::Some(t),
    }
}

pub open spec fn expand_fun(f: FunctionV, table: Seq<(Seq<char>, TypeV)>, fuel: nat) -> Option<
    FunctionV,
>
    decreases fuel, f,
{
    match expand_ty(f.output, table, fuel) {
        Option::None => Option::None,
        Option::Some(output) => match expand_params(f.inputs, table, fuel) {
            Option::None => Option::None,
            Option::Some(inputs) => Option::Some(FunctionV { inputs, output }),
        },
    }
}

pub open spec fn expand_params(
    ps: Seq<ParamV>,
    table: Seq<(Seq<char>, TypeV)>,
    fuel: nat,
) -> Option<Seq<ParamV>>
    decreases fuel, ps,
{
    if ps.len() == 0 {
        Option::Some(Seq::empty())
    } else {
        match expand_params(ps.drop_last(), table, fuel) {
            Option::None => Option::None,
            Option::Some(s) => match expand_ty(ps.last().ty, table, fuel) {
                Option::None => Option::None,
                Option::Some(ty) => Option::Some(s.push(ParamV { name: ps.last().name, ty })),
            },
        }
    }
}

/// The type with every named reference, at any depth, replaced by its full
/// expansion. An unresolvable reference, or one whose expansion reaches a
/// cyclic alias chain, stays as it is — so substituting a second time
/// changes nothing.
pub open spec fn resolve_ty(t: TypeV, table: Seq<(Seq<char>, TypeV)>) -> TypeV
    decreases t,
{
    match t {
        TypeV::User(n) => match expand_ty(TypeV::User(n), table, table.len() as nat) {
            Option::Some(r) => r,
            Option::None => TypeV::User(n),
        },
        TypeV::Pointer(inner) => TypeV::Pointer(Box::new(resolve_ty(*inner, table))),
        TypeV::Array(inner, n) => TypeV::Array(Box::new(resolve_ty(*inner, table)), n),
        TypeV::Function(f) => TypeV::Function(Box::new(resolve_fun(*f, table))),
        _ => t,
    }
}

pub open spec fn resolve_fun(f: FunctionV, table: Seq<(Seq<char>, TypeV)>) -> FunctionV
    decreases f,
{
    FunctionV { inputs: resolve_params(f.inputs, table), output: resolve_ty(f.output, table) }
}

pub open spec fn resolve_params(ps: Seq<ParamV>, table: Seq<(Seq<char>, TypeV)>) -> Seq<ParamV>
    decreases ps,
{
    if ps.len() == 0 {
        Seq::empty()
    } else {
        resolve_params(ps.drop_last(), table).push(
            ParamV { name: ps.last().name, ty: resolve_ty(ps.last().ty, table) },
        )
    }
}

fn expand_type(aliases: &AliasTable, t: &Type, fuel: usize) -> (r: Option<Type>)
    ensures
        crate::intermediate::opt_type_model(r) == expand_ty(t@, aliases.entry_seq(), fuel as nat),
    decreases fuel, *t,
{
    match t {
        Type::User(n) => {
            let found = aliases.find(n.as_str());
            match found {
                Option::None => Option::Some(Type::User(n.clone())),
                Option::Some(body) => {
                    if fuel == 0 {
                        Option::None
                    } else {
                        expand_type(aliases, body, fuel - 1)
                    }
                },
            }
        },
        Type::Pointer(inner) => {
            let expanded = expand_type(aliases, inner, fuel);
            match expanded {
                Option::Some(r) => Option::Some(Type::Pointer(Box::new(r))),
                Option::None => Option::None,
            }
        },
        Type::Array(inner, n) => {
            let expanded = expand_type(aliases, inner, fuel);
            match expanded {
                Option::Some(r) => Option::Some(Type::Array(Box::new(r), *n)),
                Option::None => Option::None,
            }
        },
        Type::Function(f) => {
            let expanded = expand_function(aliases, f, fuel);
            match expanded {
                Option::Some(r) => Option::Some(Type::Function(Box::new(r))),
                Option::None => Option::None,
            }
        },
        _ => Option::Some(dup_type(t)),
    }
}

proof fn lemma_expand_params_fail(
    ps: Seq<ParamV>,
    table: Seq<(Seq<char>, TypeV)>,
    fuel: nat,
    i: int,
)
    requires
        0 <= i < ps.len(),
        expand_ty(ps[i].ty, table, fuel) is None,
    ensures
        expand_params(ps, table, fuel) is None,
    decreases ps.len(),
{
    if ps.len() > 0 {
        if i == ps.len() - 1 {
            assert(ps.last() == ps[i]);
        } else {
            assert(ps.drop_last()[i] == ps[i]);
            lemma_expand_params_fail(ps.drop_last(), table, fuel, i);
        }
    }
}

fn expand_function(aliases: &AliasTable, f: &Function, fuel: usize) -> (r: Option<Function>)
    ensures
        crate::intermediate::opt_fun_model(r) == expand_fun(f@, aliases.entry_seq(), fuel as nat),
    decreases fuel, *f,
{
    let output = match expand_type(aliases, &f.output, fuel) {
        Option::Some(t) => t,
        Option::None => {
            return Option::None;
        },
    };
    proof {
        lemma_params_model_index(f.inputs@);
    }
    let ghost model = params_model(f.inputs@);
    let mut inputs: Vec<Param> = Vec::new();
    let mut i: usize = 0;
    while i < f.inputs.len()
        invariant
            i <= f.inputs@.len(),
            model == params_model(f.inputs@),
            model.len() == f.inputs@.len(),
            forall|j: int|
                0 <= j < f.inputs@.len() ==> model[j] == param_model(#[trigger] f.inputs@[j]),
            expand_params(model.take(i as int), aliases.entry_seq(), fuel as nat) == Option::Some(
                params_model(inputs@),
            ),
            inputs@.len() == i,
        decreases f.inputs@.len() - i,
    {
        let p = &f.inputs[i];
        let ty = match expand_type(aliases, &p.ty, fuel) {
            Option::Some(ty) => ty,
            Option::None => {
                proof {
                    lemma_expand_params_fail(model, aliases.entry_seq(), fuel as nat, i as int);
                }
                return Option::None;
            },
        };
        let ghost snap = inputs@;
        let ghost prev = params_model(inputs@);
        inputs.push(Param { name: p.name.clone(), ty });
        proof {
            assert(inputs@.drop_last() =~= snap);
            assert(params_model(inputs@) == prev.push(param_model(inputs@.last())));
            assert(model.take(i + 1).drop_last() =~= model.take(i as int));
            assert(model.take(i + 1).last() == model[i as int]);
        }
        i = i + 1;
    }
    proof {
        assert(model.take(model.len() as int) =~= model);
    }
    Option::Some(Function { inputs, output })
}

/// Substitute fully expanded aliases through a type.
pub fn resolve_alias(aliases: &AliasTable, ty: &Type) -> (r: Type)
    ensures
        r@ == resolve_ty(ty@, aliases.entry_seq()),
    decreases *ty,
{
    match ty {
        Type::User(n) => {
            let fuel = aliases.len();
            let expanded = expand_type(aliases, ty, fuel);
            match expanded {
                Option::Some(r) => r,
                Option::None => Type::User(n.clone()),
            }
        },
        Type::Pointer(inner) => Type::Pointer(Box::new(resolve_alias(aliases, inner))),
        Type::Array(inner, n) => Type::Array(Box::new(resolve_alias(aliases, inner)), *n),
        Type::Function(f) => Type::Function(Box::new(resolve_alias_fn(aliases, f))),
        _ => dup_type(ty),
    }
}

/// Substitute resolved aliases through a function signature.
pub fn resolve_alias_fn(aliases: &AliasTable, f: &Function) -> (r: Function)
    ensures
        r@ == resolve_fun(f@, aliases.entry_seq()),
    decreases *f,
{
    proof {
        lemma_params_model_index(f.inputs@);
    }
    let ghost model = params_model(f.inputs@);
    let mut inputs: Vec<Param> = Vec::new();
    let mut i: usize = 0;
    while i < f.inputs.len()
        invariant
            i <= f.inputs@.len(),
            model == params_model(f.inputs@),
            model.len() == f.inputs@.len(),
            forall|j: int|
                0 <= j < f.inputs@.len() ==> model[j] == param_model(#[trigger] f.inputs@[j]),
            params_model(inputs@) == resolve_params(model.take(i as int), aliases.entry_seq()),
            inputs@.len() == i,
        decreases f.inputs@.len() - i,
    {
        let p = &f.inputs[i];
        let ghost snap = inputs@;
        let ghost prev = params_model(inputs@);
        inputs.push(Param { name: p.name.clone(), ty: resolve_alias(aliases, &p.ty) });
        proof {
            assert(inputs@.drop_last() =~= snap);
            assert(params_model(inputs@) == prev.push(param_model(inputs@.last())));
            assert(model.take(i + 1).drop_last() =~= model.take(i as int));
            assert(model.take(i + 1).last() == model[i as int]);
        }
        i = i + 1;
    }
    proof {
        assert(model.take(model.len() as int) =~= model);
    }
    Function { inputs, output: resolve_alias(aliases, &f.output) }
}

// ----------------------------------------------------------------------------
// Idempotence of alias substitution.

/// No named reference inside the type is a key of the table.
pub open spec fn ty_mentions_no_key(t: TypeV, table: Seq<(Seq<char>, TypeV)>) -> bool
    decreases t,
{
    match t {
        TypeV::User(n) => assoc_get(table, n) is None,
        TypeV::Pointer(inner) => ty_mentions_no_key(*inner, table),
        TypeV::Array(inner, _) => ty_mentions_no_key(*inner, table),
        TypeV::Function(f) => fun_mentions_no_key(*f, table),
        _ => true,
    }
}

pub open spec fn fun_mentions_no_key(f: FunctionV, table: Seq<(Seq<char>, TypeV)>) -> bool
    decreases f,
{
    ty_mentions_no_key(f.output, table) && params_mention_no_key(f.inputs, table)
}

pub open spec fn params_mention_no_key(ps: Seq<ParamV>, table: Seq<(Seq<char>, TypeV)>) -> bool
    decreases ps,
{
    if ps.len() == 0 {
        true
    } else {
        params_mention_no_key(ps.drop_last(), table) && ty_mentions_no_key(ps.last().ty, table)
    }
}

proof fn lemma_resolve_no_key(t: TypeV, table: Seq<(Seq<char>, TypeV)>)
    requires
        ty_mentions_no_key(t, table),
    ensures
        resolve_ty(t, table) == t,
    decreases t,
{
    match t {
        TypeV::User(n) => {
        },
        TypeV::Pointer(inner) => {
            lemma_resolve_no_key(*inner, table);
        },
        TypeV::Array(inner, _) => {
            lemma_resolve_no_key(*inner, table);
        },
        TypeV::Function(f) => {
            lemma_resolve_no_key_fun(*f, table);
        },
        _ => {},
    }
}

proof fn lemma_resolve_no_key_fun(f: FunctionV, table: Seq<(Seq<char>, TypeV)>)
    requires
        fun_mentions_no_key(f, table),
    ensures
        resolve_fun(f, table) == f,
    decreases f,
{
    lemma_resolve_no_key(f.output, table);
    lemma_resolve_no_key_params(f.inputs, table);
}

proof fn lemma_resolve_no_key_params(ps: Seq<ParamV>, table: Seq<(Seq<char>, TypeV)>)
    requires
        params_mention_no_key(ps, table),
    ensures
        resolve_params(ps, table) == ps,
    decreases ps,
{
    if ps.len() > 0 {
        lemma_resolve_no_key_params(ps.drop_last(), table);
        lemma_resolve_no_key(ps.last().ty, table);
        assert(resolve_params(ps, table) =~= ps);
    }
}

/// A successful expansion mentions no alias key: every named reference that
/// remains is unresolvable.
proof fn lemma_expand_no_key(t: TypeV, table: Seq<(Seq<char>, TypeV)>, fuel: nat)
    ensures
        match expand_ty(t, table, fuel) {
            Option::Some(r) => ty_mentions_no_key(r, table),
            Option::None => true,
        },
    decreases fuel, t,
{
    match t {
        TypeV::User(n) => {
            match assoc_get(table, n) {
                Option::None => {},
                Option::Some(body) => {
                    if fuel > 0 {
                        lemma_expand_no_key(body, table, (fuel - 1) as nat);
                    }
                },
            }
        },
        TypeV::Pointer(inner) => {
            lemma_expand_no_key(*inner, table, fuel);
        },
        TypeV::Array(inner, _) => {
            lemma_expand_no_key(*inner, table, fuel);
        },
        TypeV::Function(f) => {
            lemma_expand_no_key_fun(*f, table, fuel);
        },
        _ => {},
    }
}

proof fn lemma_expand_no_key_fun(f: FunctionV, table: Seq<(Seq<char>, TypeV)>, fuel: nat)
    ensures
        match expand_fun(f, table, fuel) {
            Option::Some(r) => fun_mentions_no_key(r, table),
            Option::None => true,
        },
    decreases fuel, f,
{
    lemma_expand_no_key(f.output, table, fuel);
    lemma_expand_no_key_params(f.inputs, table, fuel);
}

proof fn lemma_expand_no_key_params(ps: Seq<ParamV>, table: Seq<(Seq<char>, TypeV)>, fuel: nat)
    ensures
        match expand_params(ps, table, fuel) {
            Option::Some(rs) => params_mention_no_key(rs, table),
            Option::None => true,
        },
    decreases fuel, ps,
{
    if ps.len() > 0 {
        lemma_expand_no_key_params(ps.drop_last(), table, fuel);
        lemma_expand_no_key(ps.last().ty, table, fuel);
        match expand_params(ps, table, fuel) {
            Option::Some(rs) => {
                assert(rs.drop_last() =~= expand_params(ps.drop_last(), table, fuel)->0);
                assert(rs.last().ty == expand_ty(ps.last().ty, table, fuel)->0);
            },
            Option::None => {},
        }
    }
}

/// Alias substitution is idempotent: substituting a second time changes
/// nothing, whatever the table holds.
pub proof fn lemma_resolve_idempotent(t: TypeV, table: Seq<(Seq<char>, TypeV)>)
    ensures
        resolve_ty(resolve_ty(t, table), table) == resolve_ty(t, table),
    decreases t,
{
    match t {
        TypeV::User(n) => {
            match expand_ty(TypeV::User(n), table, table.len() as nat) {
                Option::Some(r) => {
                    lemma_expand_no_key(TypeV::User(n), table, table.len() as nat);
                    lemma_resolve_no_key(r, table);
                },
                Option::None => {
                },
            }
        },
        TypeV::Pointer(inner) => {
            lemma_resolve_idempotent(*inner, table);
        },
        TypeV::Array(inner, _) => {
            lemma_resolve_idempotent(*inner, table);
        },
        TypeV::Function(f) => {
            lemma_resolve_idempotent_fun(*f, table);
        },
        _ => {},
    }
}

/// Alias substitution through a whole signature is idempotent.
pub proof fn lemma_resolve_idempotent_fun(f: FunctionV, table: Seq<(Seq<char>, TypeV)>)
    ensures
        resolve_fun(resolve_fun(f, table), table) == resolve_fun(f, table),
    decreases f,
{
    lemma_resolve_idempotent(f.output, table);
    lemma_resolve_idempotent_params(f.inputs, table);
}

proof fn lemma_resolve_idempotent_params(ps: Seq<ParamV>, table: Seq<(Seq<char>, TypeV)>)
    ensures
        resolve_params(resolve_params(ps, table), table) == resolve_params(ps, table),
    decreases ps,
{
    if ps.len() > 0 {
        lemma_resolve_idempotent_params(ps.drop_last(), table);
        lemma_resolve_idempotent(ps.last().ty, table);
        let r1 = resolve_params(ps, table);
        assert(r1.drop_last() =~= resolve_params(ps.drop_last(), table));
        assert(r1.last() == ParamV { name: ps.last().name, ty: resolve_ty(ps.last().ty, table) });
        assert(resolve_params(r1, table) =~= r1);
    }
}

// ----------------------------------------------------------------------------
// The run context and the collector.

/// Naming configuration and the per-run classification sets.
pub struct Context {
    pub lib_name: String,
    pub namespace: String,
    pub class_name: String,
    pub consts_class_name: String,
    pub types_file_name: String,
    pub utils_class_name: String,
    pub preserve_comments: bool,
    pub opaque_types: Vec<String>,
    pub native_types: Vec<String>,
}

/// Whether a type refers, through any number of pointer layers, to a name in
/// the native set.
pub open spec fn is_native_ty(t: TypeV, natives: Seq<Seq<char>>) -> bool
    decreases t,
{
    match t {
        TypeV::Pointer(inner) => is_native_ty(*inner, natives),
        TypeV::User(n) => seq_has_name(natives, n),
        _ => false,
    }
}

impl Context {
    /// The native-struct names recognised so far.
    pub open spec fn natives(self) -> Seq<Seq<char>> {
        names_view(self.native_types@)
    }

    /// The externally declared opaque-handle names.
    pub open spec fn opaques(self) -> Seq<Seq<char>> {
        names_view(self.opaque_types@)
    }

    /// Whether the name was declared an opaque handle.
    pub fn is_opaque(&self, name: &str) -> (r: bool)
        ensures
            r == seq_has_name(self.opaques(), name@),
    {
        contains_name(&self.opaque_types, name)
    }

    /// Whether the name was recognised as a native struct.
    pub fn is_native_name(&self, name: &str) -> (r: bool)
        ensures
            r == seq_has_name(self.natives(), name@),
    {
        contains_name(&self.native_types, name)
    }

    /// Whether the type refers, through pointers, to a native struct.
    pub fn is_native_type(&self, ty: &Type) -> (r: bool)
        ensures
            r == is_native_ty(ty@, self.natives()),
        decreases *ty,
    {
        proof {
            lemma_type_model_variants(*ty);
        }
        match ty {
            Type::Pointer(inner) => self.is_native_type(inner),
            Type::User(n) => self.is_native_name(n.as_str()),
            _ => false,
        }
    }
}

/// The struct would be marked native under the given native set: it holds a
/// dynamically-sized array pattern, or a field referring to a native name.
pub open spec fn struct_triggers(s: SnippetV<StructV>, natives: Seq<Seq<char>>) -> bool {
    has_array_field(s.item.fields) || exists|i: int|
        0 <= i < s.item.fields.len() && is_native_ty(#[trigger] s.item.fields[i].ty, natives)
}

/// No struct outside the native set would be marked native: the set is a
/// fixed point of the propagation sweep.
pub open spec fn natives_closed(structs: Seq<SnippetV<StructV>>, natives: Seq<Seq<char>>) -> bool {
    forall|k: int|
        0 <= k < structs.len() ==> (seq_has_name(natives, (#[trigger] structs[k]).name)
            || !struct_triggers(structs[k], natives))
}

/// Growing the native set never un-marks a type.
pub proof fn lemma_native_ty_monotone(t: TypeV, n1: Seq<Seq<char>>, n2: Seq<Seq<char>>)
    requires
        forall|x: Seq<char>| seq_has_name(n1, x) ==> seq_has_name(n2, x),
        is_native_ty(t, n1),
    ensures
        is_native_ty(t, n2),
    decreases t,
{
    match t {
        TypeV::Pointer(inner) => {
            lemma_native_ty_monotone(*inner, n1, n2);
        },
        _ => {},
    }
}

/// Growing the native set never un-triggers a struct.
pub proof fn lemma_triggers_monotone(s: SnippetV<StructV>, n1: Seq<Seq<char>>, n2: Seq<Seq<char>>)
    requires
        forall|x: Seq<char>| seq_has_name(n1, x) ==> seq_has_name(n2, x),
        struct_triggers(s, n1),
    ensures
        struct_triggers(s, n2),
{
    if !has_array_field(s.item.fields) {
        let i = choose|i: int|
            0 <= i < s.item.fields.len() && is_native_ty(#[trigger] s.item.fields[i].ty, n1);
        lemma_native_ty_monotone(s.item.fields[i].ty, n1, n2);
    }
}

/// How many structs are not yet in the native set.
pub open spec fn missing_count(structs: Seq<SnippetV<StructV>>, natives: Seq<Seq<char>>) -> nat
    decreases structs,
{
    if structs.len() == 0 {
        0
    } else {
        missing_count(structs.drop_last(), natives) + if seq_has_name(
            natives,
            structs.last().name,
        ) {
            0nat
        } else {
            1nat
        }
    }
}

proof fn lemma_missing_monotone(
    structs: Seq<SnippetV<StructV>>,
    n1: Seq<Seq<char>>,
    n2: Seq<Seq<char>>,
)
    requires
        forall|x: Seq<char>| seq_has_name(n1, x) ==> seq_has_name(n2, x),
    ensures
        missing_count(structs, n2) <= missing_count(structs, n1),
    decreases structs,
{
    if structs.len() > 0 {
        lemma_missing_monotone(structs.drop_last(), n1, n2);
    }
}

proof fn lemma_missing_strict(
    structs: Seq<SnippetV<StructV>>,
    n1: Seq<Seq<char>>,
    n2: Seq<Seq<char>>,
    k: int,
)
    requires
        forall|x: Seq<char>| seq_has_name(n1, x) ==> seq_has_name(n2, x),
        0 <= k < structs.len(),
        !seq_has_name(n1, structs[k].name),
        seq_has_name(n2, structs[k].name),
    ensures
        missing_count(structs, n2) < missing_count(structs, n1),
    decreases structs,
{
    if k == structs.len() - 1 {
        lemma_missing_monotone(structs.drop_last(), n1, n2);
        assert(structs.last() == structs[k]);
    } else {
        assert(structs.drop_last()[k] == structs[k]);
        lemma_missing_strict(structs.drop_last(), n1, n2, k);
    }
}

/// The collector and emitter for the object-oriented managed target.
pub struct LangCSharp {
    pub filter: Vec<String>,
    pub filter_mode: FilterMode,
    pub wrapper_function_blacklist: Vec<String>,
    pub types_enabled: bool,
    pub utils_enabled: bool,
    pub context: Context,
    pub custom_consts: Vec<String>,
    pub consts: Vec<Snippet<Const>>,
    pub enums: Vec<Snippet<Enum>>,
    pub structs: Vec<Snippet<Struct>>,
    pub functions: Vec<Snippet<Function>>,
    pub aliases: AliasTable,
}

/// Whether the identifier is dropped by the configured filter.
pub open spec fn spec_is_ignored(
    filter: Seq<Seq<char>>,
    mode: FilterMode,
    ident: Seq<char>,
) -> bool {
    match mode {
        FilterMode::Blacklist => seq_has_name(filter, ident),
        FilterMode::Whitelist => !seq_has_name(filter, ident),
    }
}

impl LangCSharp {
    /// The collected struct snippets, as models.
    pub open spec fn structs_model(self) -> Seq<SnippetV<StructV>> {
        self.structs@.map_values(|s: Snippet<Struct>| s@)
    }

    /// The collected function snippets, as models.
    pub open spec fn functions_model(self) -> Seq<SnippetV<FunctionV>> {
        self.functions@.map_values(|s: Snippet<Function>| s@)
    }

    /// The collected constant snippets, as models.
    pub open spec fn consts_model(self) -> Seq<SnippetV<ConstV>> {
        self.consts@.map_values(|s: Snippet<Const>| s@)
    }

    /// The collected enum snippets, as models.
    pub open spec fn enums_model(self) -> Seq<SnippetV<EnumV>> {
        self.enums@.map_values(|s: Snippet<Enum>| s@)
    }

    /// The structural invariant: distinct alias keys and distinct native
    /// names.
    pub open spec fn wf(self) -> bool {
        self.aliases.wf() && distinct_names(self.context.natives())
    }

    /// A fresh collector with the default naming configuration.
    pub fn new() -> (r: LangCSharp)
        ensures
            r.wf(),
            r.filter_mode == FilterMode::Blacklist,
            r.filter@.len() == 0,
            r.wrapper_function_blacklist@.len() == 0,
            r.types_enabled,
            r.utils_enabled,
            r.context.lib_name@ == "backend"@,
            r.context.namespace@ == "Backend"@,
            r.context.class_name@ == "Backend"@,
            r.context.consts_class_name@ == "Constants"@,
            r.context.types_file_name@ == "Types"@,
            r.context.utils_class_name@ == "Utils"@,
            !r.context.preserve_comments,
            r.context.opaque_types@.len() == 0,
            r.context.native_types@.len() == 0,
            r.custom_consts@.len() == 0,
            r.consts@.len() == 0,
            r.enums@.len() == 0,
            r.structs@.len() == 0,
            r.functions@.len() == 0,
            r.aliases.count() == 0,
            forall|k: Seq<char>| #[trigger] r.aliases.get_of(k) is None,
    {
        let r = LangCSharp {
            filter_mode: FilterMode::Blacklist,
            filter: Vec::new(),
            wrapper_function_blacklist: Vec::new(),
            types_enabled: true,
            utils_enabled: true,
            context: Context {
                lib_name: String::from_str("backend"),
                namespace: String::from_str("Backend"),
                class_name: String::from_str("Backend"),
                consts_class_name: String::from_str("Constants"),
                types_file_name: String::from_str("Types"),
                utils_class_name: String::from_str("Utils"),
                preserve_comments: false,
                opaque_types: Vec::new(),
                native_types: Vec::new(),
            },
            custom_consts: Vec::new(),
            consts: Vec::new(),
            enums: Vec::new(),
            structs: Vec::new(),
            functions: Vec::new(),
            aliases: AliasTable::new(),
        };
        proof {
            assert(r.context.natives() =~= Seq::<Seq<char>>::empty());
        }
        r
    }

    /// Set the name of the linked native library.
    pub fn set_lib_name(&mut self, name: &str)
        ensures
            *final(self) == (LangCSharp {
                context: Context { lib_name: final(self).context.lib_name, ..old(self).context },
                ..*old(self)
            }),
            final(self).context.lib_name@ == name@,
    {
        self.context.lib_name = String::from_str(name);
    }

    /// Set the namespace all generated declarations live in.
    pub fn set_namespace(&mut self, namespace: &str)
        ensures
            *final(self) == (LangCSharp {
                context: Context { namespace: final(self).context.namespace, ..old(self).context },
                ..*old(self)
            }),
            final(self).context.namespace@ == namespace@,
    {
        self.context.namespace = String::from_str(namespace);
    }

    /// Set the name of the static class holding the transformed functions.
    pub fn set_class_name(&mut self, name: &str)
        ensures
            *final(self) == (LangCSharp {
                context: Context {
                    class_name: final(self).context.class_name,
                    ..old(self).context
                },
                ..*old(self)
            }),
            final(self).context.class_name@ == name@,
    {
        self.context.class_name = String::from_str(name);
    }

    /// Declare a name an opaque handle.
    pub fn add_opaque_type(&mut self, name: &str)
        requires
            distinct_names(old(self).context.opaques()),
        ensures
            *final(self) == (LangCSharp {
                context: Context {
                    opaque_types: final(self).context.opaque_types,
                    ..old(self).context
                },
                ..*old(self)
            }),
            distinct_names(final(self).context.opaques()),
            seq_has_name(final(self).context.opaques(), name@),
            forall|k: Seq<char>|
                #[trigger] seq_has_name(final(self).context.opaques(), k) == (seq_has_name(
                    old(self).context.opaques(),
                    k,
                ) || k == name@),
    {
        let mut v = Vec::new();
        core::mem::swap(&mut v, &mut self.context.opaque_types);
        insert_unique(&mut v, name);
        core::mem::swap(&mut v, &mut self.context.opaque_types);
    }

    /// Set the name of the class holding the constants.
    pub fn set_consts_class_name(&mut self, name: &str)
        ensures
            *final(self) == (LangCSharp {
                context: Context {
                    consts_class_name: final(self).context.consts_class_name,
                    ..old(self).context
                },
                ..*old(self)
            }),
            final(self).context.consts_class_name@ == name@,
    {
        self.context.consts_class_name = String::from_str(name);
    }

    /// Enable or disable emission of the types artifact.
    pub fn set_types_enabled(&mut self, enabled: bool)
        ensures
            *final(self) == (LangCSharp { types_enabled: enabled, ..*old(self) }),
    {
        self.types_enabled = enabled;
    }

    /// Set the name of the types artifact, dropping a trailing `.cs`.
    pub fn set_types_file_name(&mut self, name: &str)
        ensures
            *final(self) == (LangCSharp {
                context: Context {
                    types_file_name: final(self).context.types_file_name,
                    ..old(self).context
                },
                ..*old(self)
            }),
            final(self).context.types_file_name@ == if crate::strutil::spec_ends_with(
                name@,
                ".cs"@,
            ) {
                name@.take(name@.len() - 3)
            } else {
                name@
            },
    {
        if crate::strutil::ends_with_str(name, ".cs") {
            proof {
                reveal_strlit(".cs");
            }
            self.context.types_file_name = crate::strutil::strip_last_chars(name, 3);
        } else {
            self.context.types_file_name = String::from_str(name);
        }
    }

    /// Set the name of the utility class.
    pub fn set_utils_class_name(&mut self, name: &str)
        ensures
            *final(self) == (LangCSharp {
                context: Context {
                    utils_class_name: final(self).context.utils_class_name,
                    ..old(self).context
                },
                ..*old(self)
            }),
            final(self).context.utils_class_name@ == name@,
    {
        self.context.utils_class_name = String::from_str(name);
    }

    /// Enable or disable emission of the utility artifact.
    pub fn set_utils_enabled(&mut self, enabled: bool)
        ensures
            *final(self) == (LangCSharp { utils_enabled: enabled, ..*old(self) }),
    {
        self.utils_enabled = enabled;
    }

    /// Record a custom constant to be emitted verbatim beside the discovered
    /// ones.
    pub fn add_const(&mut self, ty: &str, name: &str, value: &str)
        ensures
            *final(self) == (LangCSharp { custom_consts: final(self).custom_consts, ..*old(self) }),
            final(self).custom_consts@.len() == old(self).custom_consts@.len() + 1,
            forall|i: int|
                0 <= i < old(self).custom_consts@.len() ==> #[trigger] final(self).custom_consts@[i]
                    == old(self).custom_consts@[i],
            final(self).custom_consts@.last()@ == "public const "@ + ty@ + " "@ + pascal_of(name@)
                + " = "@ + value@ + ";"@,
    {
        let mut decl = String::from_str("public const ");
        decl.append(ty);
        decl.append(" ");
        let pascal = to_pascal_case(name);
        decl.append(pascal.as_str());
        decl.append(" = ");
        decl.append(value);
        decl.append(";");
        self.custom_consts.push(decl);
    }

    /// Clear the identifier filter and set its mode.
    pub fn reset_filter(&mut self, filter_mode: FilterMode)
        ensures
            *final(self) == (LangCSharp {
                filter: final(self).filter,
                filter_mode,
                ..*old(self)
            }),
            final(self).filter@.len() == 0,
    {
        self.filter = Vec::new();
        self.filter_mode = filter_mode;
    }

    /// Add an identifier to the filter.
    pub fn filter(&mut self, ident: &str)
        ensures
            *final(self) == (LangCSharp { filter: final(self).filter, ..*old(self) }),
            forall|k: Seq<char>|
                #[trigger] seq_has_name(names_view(final(self).filter@), k) == (seq_has_name(
                    names_view(old(self).filter@),
                    k,
                ) || k == ident@),
    {
        let ghost old_names = names_view(self.filter@);
        self.filter.push(String::from_str(ident));
        proof {
            assert(names_view(self.filter@) =~= old_names.push(ident@));
            assert forall|k: Seq<char>|
                #[trigger] seq_has_name(names_view(self.filter@), k) == (seq_has_name(
                    old_names,
                    k,
                ) || k == ident@) by {
                let names = names_view(self.filter@);
                if seq_has_name(names, k) {
                    let i = choose|i: int| 0 <= i < names.len() && #[trigger] names[i] == k;
                    if i < old_names.len() {
                        assert(old_names[i] == k);
                    }
                }
                if seq_has_name(old_names, k) {
                    let i = choose|i: int| 0 <= i < old_names.len() && #[trigger] old_names[i] == k;
                    assert(names[i] == k);
                }
                if k == ident@ {
                    assert(names[names.len() - 1] == k);
                }
            }
        }
    }

    /// Never generate a convenience wrapper for the given function.
    pub fn blacklist_wrapper_function(&mut self, ident: &str)
        ensures
            *final(self) == (LangCSharp {
                wrapper_function_blacklist: final(self).wrapper_function_blacklist,
                ..*old(self)
            }),
            forall|k: Seq<char>|
                #[trigger] seq_has_name(
                    names_view(final(self).wrapper_function_blacklist@),
                    k,
                ) == (seq_has_name(names_view(old(self).wrapper_function_blacklist@), k) || k
                    == ident@),
    {
        let ghost old_names = names_view(self.wrapper_function_blacklist@);
        self.wrapper_function_blacklist.push(String::from_str(ident));
        proof {
            assert(names_view(self.wrapper_function_blacklist@) =~= old_names.push(ident@));
            assert forall|k: Seq<char>|
                #[trigger] seq_has_name(names_view(self.wrapper_function_blacklist@), k) == (
            seq_has_name(old_names, k) || k == ident@) by {
                let names = names_view(self.wrapper_function_blacklist@);
                if seq_has_name(names, k) {
                    let i = choose|i: int| 0 <= i < names.len() && #[trigger] names[i] == k;
                    if i < old_names.len() {
                        assert(old_names[i] == k);
                    }
                }
                if seq_has_name(old_names, k) {
                    let i = choose|i: int| 0 <= i < old_names.len() && #[trigger] old_names[i] == k;
                    assert(names[i] == k);
                }
                if k == ident@ {
                    assert(names[names.len() - 1] == k);
                }
            }
        }
    }

    /// Forget every wrapper suppression.
    pub fn reset_wrapper_function_blacklist(&mut self)
        ensures
            *final(self) == (LangCSharp {
                wrapper_function_blacklist: final(self).wrapper_function_blacklist,
                ..*old(self)
            }),
            final(self).wrapper_function_blacklist@.len() == 0,
    {
        self.wrapper_function_blacklist = Vec::new();
    }

    /// Whether the identifier is dropped by the configured filter.
    pub fn is_ignored(&self, ident: &str) -> (r: bool)
        ensures
            r == spec_is_ignored(names_view(self.filter@), self.filter_mode, ident@),
    {
        match self.filter_mode {
            FilterMode::Blacklist => contains_name(&self.filter, ident),
            FilterMode::Whitelist => !contains_name(&self.filter, ident),
        }
    }

    /// Whether the function gets a convenience wrapper: it must not be
    /// suppressed and must take at most one callback.
    pub fn is_interface_function(&self, name: &str, item: &Function) -> (r: bool)
        ensures
            r == (!seq_has_name(names_view(self.wrapper_function_blacklist@), name@)
                && spec_num_callbacks(item@.inputs) <= 1),
    {
        if contains_name(&self.wrapper_function_blacklist, name) {
            return false;
        }
        let n = num_callbacks(&item.inputs);
        n <= 1
    }

    /// Sweep the struct collection to a fixed point, marking a struct native
    /// when it holds a dynamically-sized array pattern or a field referring
    /// to an already-native struct. The native set only grows; each sweep
    /// that changes anything covers at least one more struct, so at most as
    /// many sweeps run as there are structs; and re-running on an
    /// already-closed set changes nothing.
    pub fn resolve_native_types(&mut self)
        requires
            old(self).wf(),
        ensures
            final(self).wf(),
            *final(self) == (LangCSharp {
                context: Context {
                    native_types: final(self).context.native_types,
                    ..old(self).context
                },
                ..*old(self)
            }),
            forall|x: Seq<char>|
                seq_has_name(old(self).context.natives(), x) ==> seq_has_name(
                    final(self).context.natives(),
                    x,
                ),
            forall|x: Seq<char>|
                #[trigger] seq_has_name(final(self).context.natives(), x) ==> seq_has_name(
                    old(self).context.natives(),
                    x,
                ) || exists|k: int|
                    0 <= k < old(self).structs_model().len()
                        && (#[trigger] old(self).structs_model()[k]).name == x && struct_triggers(
                        old(self).structs_model()[k],
                        final(self).context.natives(),
                    ),
            natives_closed(old(self).structs_model(), final(self).context.natives()),
            natives_closed(old(self).structs_model(), old(self).context.natives())
                ==> final(self).context.native_types@ == old(self).context.native_types@,
    {
        let ghost structs0 = self.structs_model();
        let ghost natives0 = self.context.natives();
        let mut run = true;
        let ghost mut changed_ever = false;
        while run
            invariant
                self.wf(),
                structs0 == old(self).structs_model(),
                natives0 == names_view(old(self).context.native_types@),
                self.structs_model() == structs0,
                *self == (LangCSharp {
                    context: Context {
                        native_types: self.context.native_types,
                        ..old(self).context
                    },
                    ..*old(self)
                }),
                forall|x: Seq<char>|
                    seq_has_name(natives0, x) ==> seq_has_name(self.context.natives(), x),
                forall|x: Seq<char>|
                    #[trigger] seq_has_name(self.context.natives(), x) ==> seq_has_name(natives0, x)
                        || exists|k: int|
                        0 <= k < structs0.len() && (#[trigger] structs0[k]).name == x
                            && struct_triggers(structs0[k], self.context.natives()),
                !run ==> natives_closed(structs0, self.context.natives()),
                changed_ever == false ==> self.context.native_types@ == old(self).context.native_types@,
                natives_closed(structs0, natives0) ==> (self.context.native_types@
                    == old(self).context.native_types@ && changed_ever == false),
            decreases missing_count(structs0, self.context.natives()) * 2 + (if run {
                1int
            } else {
                0int
            }),
        {
            let ghost natives_sweep = self.context.natives();
            let ghost missing_sweep = missing_count(structs0, natives_sweep);
            run = false;
            let mut s_i: usize = 0;
            while s_i < self.structs.len()
                invariant
                    self.wf(),
                    structs0 == old(self).structs_model(),
                    natives0 == names_view(old(self).context.native_types@),
                    missing_sweep == missing_count(structs0, natives_sweep),
                    self.structs_model() == structs0,
                    s_i <= self.structs@.len(),
                    structs0.len() == self.structs@.len(),
                    *self == (LangCSharp {
                        context: Context {
                            native_types: self.context.native_types,
                            ..old(self).context
                        },
                        ..*old(self)
                    }),
                    forall|x: Seq<char>|
                        seq_has_name(natives_sweep, x) ==> seq_has_name(self.context.natives(), x),
                    forall|x: Seq<char>|
                        seq_has_name(natives0, x) ==> seq_has_name(self.context.natives(), x),
                    forall|x: Seq<char>|
                        #[trigger] seq_has_name(self.context.natives(), x) ==> seq_has_name(
                            natives0,
                            x,
                        ) || exists|k: int|
                            0 <= k < structs0.len() && (#[trigger] structs0[k]).name == x
                                && struct_triggers(structs0[k], self.context.natives()),
                    run ==> missing_count(structs0, self.context.natives()) < missing_sweep,
                    !run ==> self.context.natives() == natives_sweep,
                    !run ==> forall|k: int|
                        0 <= k < s_i ==> (seq_has_name(
                            self.context.natives(),
                            (#[trigger] structs0[k]).name,
                        ) || !struct_triggers(structs0[k], self.context.natives())),
                    changed_ever == false ==> self.context.native_types@ == old(self).context.native_types@,
                    natives_closed(structs0, natives0) ==> (self.context.native_types@
                        == old(self).context.native_types@ && changed_ever == false),
                decreases self.structs@.len() - s_i,
            {
                let ghost natives_before = self.context.natives();
                let snippet_name_is_native = {
                    let snippet = &self.structs[s_i];
                    self.context.is_native_name(snippet.name.as_str())
                };
                if !snippet_name_is_native {
                    let triggers = self.struct_triggers_at(s_i);
                    if triggers {
                        let ghost old_natives = self.context.natives();
                        proof {
                            assert(structs0[s_i as int] == self.structs@[s_i as int]@);
                            if natives_closed(structs0, natives0) {
                                assert(self.context.native_types@ == old(self).context.native_types@);
                                assert(natives0 == names_view(old(self).context.native_types@));
                                assert(self.context.natives() == names_view(self.context.native_types@));
                                assert(self.context.natives() =~= natives0);
                                assert(seq_has_name(natives0, (structs0[s_i as int]).name)
                                    || !struct_triggers(structs0[s_i as int], natives0));
                                assert(false);
                            }
                        }
                        let name_copy = self.structs[s_i].name.clone();
                        insert_unique(&mut self.context.native_types, name_copy.as_str());
                        run = true;
                        proof {
                            changed_ever = true;
                            let natives_now = self.context.natives();
                            assert(structs0[s_i as int].name == name_copy@);
                            lemma_triggers_monotone(structs0[s_i as int], old_natives, natives_now);
                            assert forall|x: Seq<char>|
                                seq_has_name(natives_sweep, x) implies seq_has_name(
                                natives_now,
                                x,
                            ) by {
                                assert(seq_has_name(old_natives, x));
                            }
                            assert(!seq_has_name(natives_sweep, structs0[s_i as int].name));
                            assert(seq_has_name(natives_now, structs0[s_i as int].name));
                            lemma_missing_strict(
                                structs0,
                                natives_sweep,
                                natives_now,
                                s_i as int,
                            );
                            lemma_missing_monotone(structs0, natives_sweep, natives_now);
                            assert forall|x: Seq<char>|
                                #[trigger] seq_has_name(natives_now, x) implies seq_has_name(
                                natives0,
                                x,
                            ) || exists|k: int|
                                0 <= k < structs0.len() && (#[trigger] structs0[k]).name == x
                                    && struct_triggers(structs0[k], natives_now) by {
                                if x == name_copy@ {
                                    assert(struct_triggers(structs0[s_i as int], natives_now));
                                } else {
                                    assert(seq_has_name(old_natives, x));
                                    if !seq_has_name(natives0, x) {
                                        let k = choose|k: int|
                                            0 <= k < structs0.len() && (#[trigger] structs0[k]).name
                                                == x && struct_triggers(
                                                structs0[k],
                                                old_natives,
                                            );
                                        lemma_triggers_monotone(
                                            structs0[k],
                                            old_natives,
                                            natives_now,
                                        );
                                    }
                                }
                            }
                        }
                    }
                }
                s_i = s_i + 1;
            }
            proof {
                if !run {
                    assert(natives_closed(structs0, self.context.natives()));
                }
            }
        }
    }

    fn struct_triggers_at(&self, s_i: usize) -> (r: bool)
        requires
            s_i < self.structs@.len(),
        ensures
            r == struct_triggers(self.structs_model()[s_i as int], self.context.natives()),
    {
        let ghost model = self.structs_model()[s_i as int];
        proof {
            assert(model == self.structs@[s_i as int]@);
        }
        let fields = &self.structs[s_i].item.fields;
        let r = struct_fields_trigger(fields, &self.context);
        proof {
            let natives = self.context.natives();
            let m = model.item.fields;
            assert(m =~= fields@.map_values(|f: crate::intermediate::Field| f@));
            if r {
                if !has_array_field(m) {
                    let i = choose|i: int|
                        0 <= i < fields@.len() && is_native_ty((#[trigger] fields@[i])@.ty, natives);
                    assert(m[i] == fields@[i]@);
                    assert(is_native_ty(m[i].ty, natives));
                }
                assert(struct_triggers(model, natives));
            } else {
                if struct_triggers(model, natives) {
                    if !has_array_field(m) {
                        let i = choose|i: int|
                            0 <= i < m.len() && is_native_ty(#[trigger] m[i].ty, natives);
                        assert(m[i] == fields@[i]@);
                        assert(false);
                    }
                }
            }
        }
        r
    }
}

/// The fields of a struct with aliases substituted.
pub open spec fn resolve_fields(
    fields: Seq<crate::intermediate::FieldV>,
    table: Seq<(Seq<char>, TypeV)>,
) -> Seq<crate::intermediate::FieldV>
    decreases fields,
{
    if fields.len() == 0 {
        Seq::empty()
    } else {
        resolve_fields(fields.drop_last(), table).push(
            crate::intermediate::FieldV {
                name: fields.last().name,
                ty: resolve_ty(fields.last().ty, table),
            },
        )
    }
}

/// The exported name of a struct after alias renaming: when the struct's own
/// name is an alias of another named reference, that reference becomes the
/// exported name.
pub open spec fn renamed_struct(name: Seq<char>, table: Seq<(Seq<char>, TypeV)>) -> Seq<char> {
    match lookup_spec(table, name) {
        Option::Some(TypeV::User(y)) => y,
        _ => name,
    }
}

impl LangCSharp {
    /// Substitute fully expanded aliases through every collected snippet, and
    /// rename a struct whose own name aliases another named reference.
    /// Substitution is idempotent: a second pass changes nothing.
    pub fn resolve_aliases(&mut self)
        requires
            old(self).wf(),
        ensures
            final(self).wf(),
            *final(self) == (LangCSharp {
                consts: final(self).consts,
                structs: final(self).structs,
                functions: final(self).functions,
                ..*old(self)
            }),
            final(self).consts_model().len() == old(self).consts_model().len(),
            forall|i: int|
                0 <= i < old(self).consts_model().len() ==> #[trigger] final(self).consts_model()[i]
                    == (SnippetV {
                    item: ConstV {
                        ty: resolve_ty(
                            old(self).consts_model()[i].item.ty,
                            old(self).aliases.entry_seq(),
                        ),
                        ..old(self).consts_model()[i].item
                    },
                    ..old(self).consts_model()[i]
                }),
            final(self).structs_model().len() == old(self).structs_model().len(),
            forall|i: int|
                0 <= i < old(self).structs_model().len()
                    ==> #[trigger] final(self).structs_model()[i] == (SnippetV {
                    name: renamed_struct(
                        old(self).structs_model()[i].name,
                        old(self).aliases.entry_seq(),
                    ),
                    item: StructV {
                        fields: resolve_fields(
                            old(self).structs_model()[i].item.fields,
                            old(self).aliases.entry_seq(),
                        ),
                    },
                    ..old(self).structs_model()[i]
                }),
            final(self).functions_model().len() == old(self).functions_model().len(),
            forall|i: int|
                0 <= i < old(self).functions_model().len()
                    ==> #[trigger] final(self).functions_model()[i] == (SnippetV {
                    item: resolve_fun(
                        old(self).functions_model()[i].item,
                        old(self).aliases.entry_seq(),
                    ),
                    ..old(self).functions_model()[i]
                }),
    {
        let ghost table = self.aliases.entry_seq();

        let mut new_consts: Vec<Snippet<Const>> = Vec::new();
        let mut i: usize = 0;
        while i < self.consts.len()
            invariant
                i <= self.consts@.len(),
                table == self.aliases.entry_seq(),
                new_consts@.len() == i,
                forall|j: int|
                    0 <= j < i ==> #[trigger] new_consts@[j]@ == (SnippetV {
                        item: ConstV {
                            ty: resolve_ty(self.consts_model()[j].item.ty, table),
                            ..self.consts_model()[j].item
                        },
                        ..self.consts_model()[j]
                    }),
            decreases self.consts@.len() - i,
        {
            let c = &self.consts[i];
            let value = match &c.item.value {
                ConstExpr::Int(n) => ConstExpr::Int(*n),
                ConstExpr::Bool(b) => ConstExpr::Bool(*b),
                ConstExpr::Str(t) => ConstExpr::Str(t.clone()),
                ConstExpr::Other(t) => ConstExpr::Other(t.clone()),
            };
            new_consts.push(
                Snippet {
                    docs: c.docs.clone(),
                    name: c.name.clone(),
                    item: Const { ty: resolve_alias(&self.aliases, &c.item.ty), value },
                },
            );
            proof {
                assert(self.consts_model()[i as int] == self.consts@[i as int]@);
            }
            i = i + 1;
        }
        self.consts = new_consts;

        let mut new_structs: Vec<Snippet<Struct>> = Vec::new();
        let mut i: usize = 0;
        while i < self.structs.len()
            invariant
                i <= self.structs@.len(),
                table == self.aliases.entry_seq(),
                new_structs@.len() == i,
                forall|j: int|
                    0 <= j < i ==> #[trigger] new_structs@[j]@ == (SnippetV {
                        name: renamed_struct(self.structs_model()[j].name, table),
                        item: StructV {
                            fields: resolve_fields(self.structs_model()[j].item.fields, table),
                        },
                        ..self.structs_model()[j]
                    }),
            decreases self.structs@.len() - i,
        {
            let snippet = &self.structs[i];
            let looked = lookup_alias(&self.aliases, snippet.name.as_str());
            let name = match &looked {
                Option::Some(Type::User(y)) => y.clone(),
                _ => snippet.name.clone(),
            };
            proof {
                match looked {
                    Option::Some(t) => {
                        lemma_type_model_variants(t);
                    },
                    Option::None => {},
                }
            }
            let mut new_fields: Vec<crate::intermediate::Field> = Vec::new();
            let ghost old_fields = self.structs_model()[i as int].item.fields;
            proof {
                assert(self.structs_model()[i as int] == self.structs@[i as int]@);
            }
            let fields = &snippet.item.fields;
            let mut k: usize = 0;
            while k < fields.len()
                invariant
                    k <= fields@.len(),
                    table == self.aliases.entry_seq(),
                    old_fields == fields@.map_values(|f: crate::intermediate::Field| f@),
                    old_fields.len() == fields@.len(),
                    new_fields@.map_values(|f: crate::intermediate::Field| f@) == resolve_fields(
                        old_fields.take(k as int),
                        table,
                    ),
                    new_fields@.len() == k,
                decreases fields@.len() - k,
            {
                let f = &fields[k];
                let ghost prev = new_fields@.map_values(|f: crate::intermediate::Field| f@);
                new_fields.push(
                    crate::intermediate::Field {
                        name: f.name.clone(),
                        ty: resolve_alias(&self.aliases, &f.ty),
                    },
                );
                proof {
                    assert(new_fields@.map_values(|f: crate::intermediate::Field| f@) =~= prev.push(
                        new_fields@.last()@,
                    ));
                    assert(old_fields.take(k + 1).drop_last() =~= old_fields.take(k as int));
                    assert(old_fields.take(k + 1).last() == old_fields[k as int]);
                    assert(old_fields[k as int] == fields@[k as int]@);
                }
                k = k + 1;
            }
            proof {
                assert(old_fields.take(old_fields.len() as int) =~= old_fields);
            }
            new_structs.push(
                Snippet { docs: snippet.docs.clone(), name, item: Struct { fields: new_fields } },
            );
            i = i + 1;
        }
        self.structs = new_structs;

        let mut new_functions: Vec<Snippet<Function>> = Vec::new();
        let mut i: usize = 0;
        while i < self.functions.len()
            invariant
                i <= self.functions@.len(),
                table == self.aliases.entry_seq(),
                new_functions@.len() == i,
                forall|j: int|
                    0 <= j < i ==> #[trigger] new_functions@[j]@ == (SnippetV {
                        item: resolve_fun(self.functions_model()[j].item, table),
                        ..self.functions_model()[j]
                    }),
            decreases self.functions@.len() - i,
        {
            let snippet = &self.functions[i];
            new_functions.push(
                Snippet {
                    docs: snippet.docs.clone(),
                    name: snippet.name.clone(),
                    item: resolve_alias_fn(&self.aliases, &snippet.item),
                },
            );
            proof {
                assert(self.functions_model()[i as int] == self.functions@[i as int]@);
            }
            i = i + 1;
        }
        self.functions = new_functions;
    }
}

/// The diagnostic for a parameterized declaration.
pub fn unsupported_generics_error(item: &Item, kind: &str) -> (r: Error)
    ensures
        r.level == Level::Error,
        r.span == Option::Some(item@.span),
        r.message@ == "bindgen can not handle parameterized "@ + kind@,
{
    let mut message = String::from_str("bindgen can not handle parameterized ");
    message.append(kind);
    Error { level: Level::Error, span: Option::Some(item.span), message }
}

fn unsupported_item_error(item: &Item, what: &str) -> (r: Error)
    ensures
        r.level == Level::Error,
        r.span == Option::Some(item@.span),
        r.message@ == "bindgen can not handle "@ + what@ + " `"@ + item@.name + "`"@,
{
    let mut message = String::from_str("bindgen can not handle ");
    message.append(what);
    message.append(" `");
    message.append(item.name.as_str());
    message.append("`");
    Error { level: Level::Error, span: Option::Some(item.span), message }
}

impl LangCSharp {
    /// Whether the filter drops this item.
    pub open spec fn spec_ignores(self, name: Seq<char>) -> bool {
        spec_is_ignored(names_view(self.filter@), self.filter_mode, name)
    }

    /// Record a type alias declaration. A parameterized alias is skipped with
    /// no effect; an unsupported aliased type is a hard failure.
    pub fn parse_ty(&mut self, item: &Item, _outputs: &mut Outputs) -> (r: Result<(), Error>)
        requires
            old(self).wf(),
        ensures
            final(self).wf(),
            *final(_outputs) == *old(_outputs),
            match item@.kind {
                ItemKindV::Alias(ty) => {
                    if old(self).spec_ignores(item@.name) || item@.generics > 0 {
                        r is Ok && *final(self) == *old(self)
                    } else {
                        match spec_transform_type(ty) {
                            Option::Some(t) => {
                                &&& r is Ok
                                &&& *final(self) == (LangCSharp {
                                    aliases: final(self).aliases,
                                    ..*old(self)
                                })
                                &&& final(self).aliases.get_of(item@.name) == Option::Some(t)
                                &&& forall|k: Seq<char>|
                                    k != item@.name ==> #[trigger] final(self).aliases.get_of(k)
                                        == old(self).aliases.get_of(k)
                            },
                            Option::None => {
                                &&& r is Err
                                &&& r->Err_0.level == Level::Error
                                &&& r->Err_0.span == Option::Some(item@.span)
                                &&& *final(self) == *old(self)
                            },
                        }
                    }
                },
                _ => r is Ok && *final(self) == *old(self),
            },
    {
        if self.is_ignored(item.name.as_str()) {
            return Result::Ok(());
        }
        match &item.kind {
            ItemKind::Alias(ty) => {
                if item.generics > 0 {
                    return Result::Ok(());
                }
                let transformed = transform_type(ty);
                match transformed {
                    Option::Some(t) => {
                        self.aliases.insert(item.name.as_str(), t);
                        Result::Ok(())
                    },
                    Option::None => Result::Err(unsupported_item_error(item, "the aliased type of")),
                }
            },
            _ => Result::Ok(()),
        }
    }

    /// Record a constant declaration: its type must transform and its value
    /// must be a literal, else the run fails hard.
    pub fn parse_const(&mut self, item: &Item, _outputs: &mut Outputs) -> (r: Result<(), Error>)
        requires
            old(self).wf(),
        ensures
            final(self).wf(),
            *final(_outputs) == *old(_outputs),
            match item@.kind {
                ItemKindV::Const(ty, value) => {
                    if old(self).spec_ignores(item@.name) {
                        r is Ok && *final(self) == *old(self)
                    } else {
                        if spec_transform_type(ty) is Some && spec_literal_const(value) {
                            &&& r is Ok
                            &&& *final(self) == (LangCSharp {
                                consts: final(self).consts,
                                ..*old(self)
                            })
                            &&& final(self).consts_model() == old(self).consts_model().push(
                                SnippetV {
                                    docs: docs_of(item@.attrs, Seq::<char>::empty()),
                                    name: item@.name,
                                    item: ConstV { ty: spec_transform_type(ty)->0, value },
                                },
                            )
                        } else {
                            &&& r is Err
                            &&& r->Err_0.level == Level::Error
                            &&& r->Err_0.span == Option::Some(item@.span)
                            &&& *final(self) == *old(self)
                        }
                    }
                },
                _ => r is Ok && *final(self) == *old(self),
            },
    {
        if self.is_ignored(item.name.as_str()) {
            return Result::Ok(());
        }
        let docs = parse_attr(&item.attrs, AttrCheck::Any, "").1;
        proof {
            reveal_strlit("");
            assert(""@ =~= Seq::<char>::empty());
        }
        match &item.kind {
            ItemKind::Const(ty, value) => {
                let transformed = transform_const(ty, value);
                match transformed {
                    Option::Some(c) => {
                        let ghost prev = self.consts_model();
                        self.consts.push(
                            Snippet { docs, name: item.name.clone(), item: c },
                        );
                        proof {
                            assert(self.consts_model() =~= prev.push(self.consts@.last()@));
                        }
                        Result::Ok(())
                    },
                    Option::None => Result::Err(unsupported_item_error(item, "the constant")),
                }
            },
            _ => Result::Ok(()),
        }
    }

    /// Record an enum declaration. One without the C-compatible-layout marker
    /// is skipped; a parameterized one, or one with a non-literal
    /// discriminant, fails hard.
    pub fn parse_enum(&mut self, item: &Item, _outputs: &mut Outputs) -> (r: Result<(), Error>)
        requires
            old(self).wf(),
        ensures
            final(self).wf(),
            *final(_outputs) == *old(_outputs),
            match item@.kind {
                ItemKindV::Enum(variants) => {
                    if old(self).spec_ignores(item@.name) || !any_attr_matches(
                        AttrCheck::ReprC,
                        item@.attrs,
                    ) {
                        r is Ok && *final(self) == *old(self)
                    } else if item@.generics > 0 {
                        &&& r is Err
                        &&& r->Err_0.level == Level::Error
                        &&& r->Err_0.span == Option::Some(item@.span)
                        &&& *final(self) == *old(self)
                    } else {
                        match spec_transform_variants(variants) {
                            Option::Some(vs) => {
                                &&& r is Ok
                                &&& *final(self) == (LangCSharp {
                                    enums: final(self).enums,
                                    ..*old(self)
                                })
                                &&& final(self).enums_model() == old(self).enums_model().push(
                                    SnippetV {
                                        docs: docs_of(item@.attrs, Seq::<char>::empty()),
                                        name: item@.name,
                                        item: EnumV { variants: vs },
                                    },
                                )
                            },
                            Option::None => {
                                &&& r is Err
                                &&& r->Err_0.level == Level::Error
                                &&& r->Err_0.span == Option::Some(item@.span)
                                &&& *final(self) == *old(self)
                            },
                        }
                    }
                },
                _ => r is Ok && *final(self) == *old(self),
            },
    {
        if self.is_ignored(item.name.as_str()) {
            return Result::Ok(());
        }
        let (repr_c, docs) = parse_attr(&item.attrs, AttrCheck::ReprC, "");
        if !repr_c {
            return Result::Ok(());
        }
        proof {
            reveal_strlit("");
            assert(""@ =~= Seq::<char>::empty());
        }
        match &item.kind {
            ItemKind::Enum(variants) => {
                if item.generics > 0 {
                    return Result::Err(unsupported_generics_error(item, "enums"));
                }
                let transformed = transform_enum(variants);
                match transformed {
                    Option::Some(e) => {
                        let ghost prev = self.enums_model();
                        self.enums.push(Snippet { docs, name: item.name.clone(), item: e });
                        proof {
                            assert(self.enums_model() =~= prev.push(self.enums@.last()@));
                        }
                        Result::Ok(())
                    },
                    Option::None => Result::Err(unsupported_item_error(item, "the enum")),
                }
            },
            _ => Result::Ok(()),
        }
    }

    /// Record a struct declaration. One without the C-compatible-layout
    /// marker is skipped; a parameterized one, a unit or tuple shape, or an
    /// unsupported field type fails hard. The native set is re-propagated
    /// after every recorded struct.
    pub fn parse_struct(&mut self, item: &Item, _outputs: &mut Outputs) -> (r: Result<(), Error>)
        requires
            old(self).wf(),
        ensures
            final(self).wf(),
            *final(_outputs) == *old(_outputs),
            match item@.kind {
                ItemKindV::Struct(shape) => {
                    if old(self).spec_ignores(item@.name) || !any_attr_matches(
                        AttrCheck::ReprC,
                        item@.attrs,
                    ) {
                        r is Ok && *final(self) == *old(self)
                    } else if item@.generics > 0 {
                        &&& r is Err
                        &&& r->Err_0.level == Level::Error
                        &&& r->Err_0.span == Option::Some(item@.span)
                        &&& *final(self) == *old(self)
                    } else {
                        match shape {
                            StructShapeV::Fields(fs) => match spec_transform_fields(fs) {
                                Option::Some(fields) => {
                                    &&& r is Ok
                                    &&& *final(self) == (LangCSharp {
                                        structs: final(self).structs,
                                        context: Context {
                                            native_types: final(self).context.native_types,
                                            ..old(self).context
                                        },
                                        ..*old(self)
                                    })
                                    &&& final(self).structs_model() == old(
                                        self,
                                    ).structs_model().push(
                                        SnippetV {
                                            docs: docs_of(item@.attrs, Seq::<char>::empty()),
                                            name: item@.name,
                                            item: StructV { fields },
                                        },
                                    )
                                    &&& forall|x: Seq<char>|
                                        seq_has_name(old(self).context.natives(), x)
                                            ==> seq_has_name(final(self).context.natives(), x)
                                    &&& natives_closed(
                                        final(self).structs_model(),
                                        final(self).context.natives(),
                                    )
                                },
                                Option::None => {
                                    &&& r is Err
                                    &&& r->Err_0.level == Level::Error
                                    &&& r->Err_0.span == Option::Some(item@.span)
                                    &&& *final(self) == *old(self)
                                },
                            },
                            _ => {
                                &&& r is Err
                                &&& r->Err_0.level == Level::Error
                                &&& r->Err_0.span == Option::Some(item@.span)
                                &&& *final(self) == *old(self)
                            },
                        }
                    }
                },
                _ => r is Ok && *final(self) == *old(self),
            },
    {
        if self.is_ignored(item.name.as_str()) {
            return Result::Ok(());
        }
        let (repr_c, docs) = parse_attr(&item.attrs, AttrCheck::ReprC, "");
        if !repr_c {
            return Result::Ok(());
        }
        proof {
            reveal_strlit("");
            assert(""@ =~= Seq::<char>::empty());
        }
        match &item.kind {
            ItemKind::Struct(shape) => {
                if item.generics > 0 {
                    return Result::Err(unsupported_generics_error(item, "structs"));
                }
                match shape {
                    StructShape::Fields(fs) => {
                        let transformed = transform_struct(fs);
                        match transformed {
                            Option::Some(st) => {
                                let ghost prev = self.structs_model();
                                self.structs.push(
                                    Snippet { docs, name: item.name.clone(), item: st },
                                );
                                proof {
                                    assert(self.structs_model() =~= prev.push(
                                        self.structs@.last()@,
                                    ));
                                }
                                self.resolve_native_types();
                                Result::Ok(())
                            },
                            Option::None => Result::Err(
                                unsupported_item_error(item, "the struct"),
                            ),
                        }
                    },
                    _ => Result::Err(unsupported_item_error(item, "a unit or tuple struct")),
                }
            },
            _ => Result::Ok(()),
        }
    }

    /// Record an exported function. One without the no-name-mangling marker
    /// or a C-compatible calling convention is skipped; a parameterized one,
    /// or one with an unsupported signature, fails hard.
    pub fn parse_fn(&mut self, item: &Item, _outputs: &mut Outputs) -> (r: Result<(), Error>)
        requires
            old(self).wf(),
        ensures
            final(self).wf(),
            *final(_outputs) == *old(_outputs),
            match item@.kind {
                ItemKindV::Fn(decl) => {
                    if old(self).spec_ignores(item@.name) || !any_attr_matches(
                        AttrCheck::NoMangle,
                        item@.attrs,
                    ) || !spec_is_extern(decl.abi) {
                        r is Ok && *final(self) == *old(self)
                    } else if item@.generics > 0 {
                        &&& r is Err
                        &&& r->Err_0.level == Level::Error
                        &&& r->Err_0.span == Option::Some(item@.span)
                        &&& *final(self) == *old(self)
                    } else {
                        match crate::intermediate::spec_transform_fn(decl) {
                            Option::Some(f) => {
                                &&& r is Ok
                                &&& *final(self) == (LangCSharp {
                                    functions: final(self).functions,
                                    ..*old(self)
                                })
                                &&& final(self).functions_model() == old(
                                    self,
                                ).functions_model().push(
                                    SnippetV {
                                        docs: docs_of(item@.attrs, Seq::<char>::empty()),
                                        name: item@.name,
                                        item: f,
                                    },
                                )
                            },
                            Option::None => {
                                &&& r is Err
                                &&& r->Err_0.level == Level::Error
                                &&& r->Err_0.span == Option::Some(item@.span)
                                &&& *final(self) == *old(self)
                            },
                        }
                    }
                },
                _ => r is Ok && *final(self) == *old(self),
            },
    {
        if self.is_ignored(item.name.as_str()) {
            return Result::Ok(());
        }
        let (no_mangle, docs) = parse_attr(&item.attrs, AttrCheck::NoMangle, "");
        if !no_mangle {
            return Result::Ok(());
        }
        proof {
            reveal_strlit("");
            assert(""@ =~= Seq::<char>::empty());
        }
        match &item.kind {
            ItemKind::Fn(decl) => {
                if !is_extern(decl.abi) {
                    return Result::Ok(());
                }
                if item.generics > 0 {
                    return Result::Err(unsupported_generics_error(item, "extern functions"));
                }
                let transformed = transform_function(decl);
                match transformed {
                    Option::Some(f) => {
                        let ghost prev = self.functions_model();
                        self.functions.push(Snippet { docs, name: item.name.clone(), item: f });
                        proof {
                            assert(self.functions_model() =~= prev.push(self.functions@.last()@));
                        }
                        Result::Ok(())
                    },
                    Option::None => Result::Err(unsupported_item_error(item, "the function")),
                }
            },
            _ => Result::Ok(()),
        }
    }
}


// ----------------------------------------------------------------------------
// Callback collection and deduplication.

/// The callbacks among a parameter list, in order.
pub open spec fn fn_callbacks(ps: Seq<ParamV>) -> Seq<FunctionV>
    decreases ps,
{
    if ps.len() == 0 {
        Seq::empty()
    } else {
        fn_callbacks(ps.drop_last()) + (match ps.last().ty {
            TypeV::Function(f) => {
                if crate::intermediate::is_callback_spec(ps.last().ty) {
                    seq![*f]
                } else {
                    Seq::empty()
                }
            },
            _ => Seq::empty(),
        })
    }
}

/// The ordered position of a generated name among the collected callbacks:
/// the first index whose name is not below it.
pub open spec fn cb_pos(acc: Seq<(FunctionV, bool)>, name: Seq<char>) -> int
    decreases acc,
{
    if acc.len() == 0 {
        0
    } else if lex_lt(crate::csharp::emit::cs_callback_name(acc[0].0), name) {
        1 + cb_pos(acc.drop_first(), name)
    } else {
        0
    }
}

proof fn lemma_cb_pos_props(acc: Seq<(FunctionV, bool)>, name: Seq<char>)
    ensures
        0 <= cb_pos(acc, name) <= acc.len(),
        forall|j: int|
            0 <= j < cb_pos(acc, name) ==> lex_lt(
                crate::csharp::emit::cs_callback_name(#[trigger] acc[j].0),
                name,
            ),
        cb_pos(acc, name) < acc.len() ==> !lex_lt(
            crate::csharp::emit::cs_callback_name(acc[cb_pos(acc, name)].0),
            name,
        ),
    decreases acc,
{
    if acc.len() > 0 {
        lemma_cb_pos_props(acc.drop_first(), name);
        if lex_lt(crate::csharp::emit::cs_callback_name(acc[0].0), name) {
            let p = cb_pos(acc, name);
            assert forall|j: int|
                0 <= j < p implies lex_lt(
                crate::csharp::emit::cs_callback_name(#[trigger] acc[j].0),
                name,
            ) by {
                if j > 0 {
                    assert(acc.drop_first()[j - 1] == acc[j]);
                }
            }
            if p < acc.len() {
                assert(acc.drop_first()[p - 1] == acc[p]);
            }
        }
    }
}

/// Fold one callback into the collection, keeping it ordered by generated
/// name: a new name takes its sorted position; a repeated name only
/// upgrades the single-use flag.
pub open spec fn upsert_cb(
    acc: Seq<(FunctionV, bool)>,
    cb: FunctionV,
    single: bool,
) -> Seq<(FunctionV, bool)> {
    let name = crate::csharp::emit::cs_callback_name(cb);
    let i = cb_pos(acc, name);
    if i < acc.len() && crate::csharp::emit::cs_callback_name(acc[i].0) == name {
        if single {
            acc.update(i, (acc[i].0, true))
        } else {
            acc
        }
    } else {
        acc.insert(i, (cb, single))
    }
}

pub open spec fn add_cbs(
    acc: Seq<(FunctionV, bool)>,
    cbs: Seq<FunctionV>,
    single: bool,
) -> Seq<(FunctionV, bool)>
    decreases cbs.len(),
{
    if cbs.len() == 0 {
        acc
    } else {
        add_cbs(upsert_cb(acc, cbs[0], single), cbs.drop_first(), single)
    }
}

pub open spec fn collect_from(
    acc: Seq<(FunctionV, bool)>,
    fns: Seq<SnippetV<FunctionV>>,
) -> Seq<(FunctionV, bool)>
    decreases fns.len(),
{
    if fns.len() == 0 {
        acc
    } else {
        let cbs = fn_callbacks(fns[0].item.inputs);
        collect_from(add_cbs(acc, cbs, cbs.len() == 1), fns.drop_first())
    }
}

/// The deduplicated callbacks of a whole collection, each with its
/// single-use flag: one entry per distinct generated name, ordered by that
/// name.
pub open spec fn spec_collect_callbacks(fns: Seq<SnippetV<FunctionV>>) -> Seq<(FunctionV, bool)> {
    collect_from(Seq::empty(), fns)
}

/// Collected callback names are distinct.
pub open spec fn cbs_distinct(acc: Seq<(FunctionV, bool)>) -> bool {
    forall|i: int, j: int|
        0 <= i < j < acc.len() ==> crate::csharp::emit::cs_callback_name(#[trigger] acc[i].0)
            != crate::csharp::emit::cs_callback_name(#[trigger] acc[j].0)
}

/// Collected callbacks are ordered by generated name.
pub open spec fn cbs_sorted(acc: Seq<(FunctionV, bool)>) -> bool {
    forall|i: int, j: int|
        0 <= i < j < acc.len() ==> lex_lt(
            crate::csharp::emit::cs_callback_name(#[trigger] acc[i].0),
            crate::csharp::emit::cs_callback_name(#[trigger] acc[j].0),
        )
}

/// An upsert keeps the collection ordered.
proof fn lemma_upsert_sorted(acc: Seq<(FunctionV, bool)>, cb: FunctionV, single: bool)
    requires
        cbs_sorted(acc),
    ensures
        cbs_sorted(upsert_cb(acc, cb, single)),
{
    let name = crate::csharp::emit::cs_callback_name(cb);
    lemma_cb_pos_props(acc, name);
    let i = cb_pos(acc, name);
    if i < acc.len() && crate::csharp::emit::cs_callback_name(acc[i].0) == name {
        if single {
            let u = acc.update(i, (acc[i].0, true));
            assert forall|p: int, q: int|
                0 <= p < q < u.len() implies lex_lt(
                crate::csharp::emit::cs_callback_name(#[trigger] u[p].0),
                crate::csharp::emit::cs_callback_name(#[trigger] u[q].0),
            ) by {
                assert(u[p].0 == acc[p].0);
                assert(u[q].0 == acc[q].0);
            }
        }
    } else {
        let u = acc.insert(i, (cb, single));
        if i < acc.len() {
            lemma_lex_total_or(name, crate::csharp::emit::cs_callback_name(acc[i].0));
        }
        assert forall|p: int, q: int|
            0 <= p < q < u.len() implies lex_lt(
            crate::csharp::emit::cs_callback_name(#[trigger] u[p].0),
            crate::csharp::emit::cs_callback_name(#[trigger] u[q].0),
        ) by {
            if q < i {
                assert(u[p] == acc[p]);
                assert(u[q] == acc[q]);
            } else if q == i {
                assert(u[p] == acc[p]);
                assert(u[q].0 == cb);
            } else {
                assert(u[q] == acc[q - 1]);
                if p < i {
                    assert(u[p] == acc[p]);
                } else if p == i {
                    assert(u[p].0 == cb);
                    let ni = crate::csharp::emit::cs_callback_name(acc[i].0);
                    let nq = crate::csharp::emit::cs_callback_name(acc[q - 1].0);
                    if q - 1 > i {
                        lemma_lex_transitive(name, ni, nq);
                    }
                } else {
                    assert(u[p] == acc[p - 1]);
                }
            }
        }
    }
}

/// Of two distinct texts, one is lexicographically below the other.
proof fn lemma_lex_total_or(a: Seq<char>, b: Seq<char>)
    requires
        !lex_lt(b, a),
        a != b,
    ensures
        lex_lt(a, b),
{
    if !lex_lt(a, b) {
        lemma_lex_total(a, b);
    }
}

proof fn lemma_add_cbs_sorted(acc: Seq<(FunctionV, bool)>, cbs: Seq<FunctionV>, single: bool)
    requires
        cbs_sorted(acc),
    ensures
        cbs_sorted(add_cbs(acc, cbs, single)),
    decreases cbs.len(),
{
    if cbs.len() > 0 {
        lemma_upsert_sorted(acc, cbs[0], single);
        lemma_add_cbs_sorted(upsert_cb(acc, cbs[0], single), cbs.drop_first(), single);
    }
}

proof fn lemma_collect_from_sorted(acc: Seq<(FunctionV, bool)>, fns: Seq<SnippetV<FunctionV>>)
    requires
        cbs_sorted(acc),
    ensures
        cbs_sorted(collect_from(acc, fns)),
    decreases fns.len(),
{
    if fns.len() > 0 {
        let cbs = fn_callbacks(fns[0].item.inputs);
        lemma_add_cbs_sorted(acc, cbs, cbs.len() == 1);
        lemma_collect_from_sorted(add_cbs(acc, cbs, cbs.len() == 1), fns.drop_first());
    }
}

/// The collected callbacks are ordered by generated interface name, and no
/// two share one: callbacks with structurally identical non-context
/// parameter lists share exactly one entry, so one shared wrapper artifact
/// is generated per distinct shape.
pub proof fn lemma_collected_callbacks_distinct(fns: Seq<SnippetV<FunctionV>>)
    ensures
        cbs_sorted(spec_collect_callbacks(fns)),
        cbs_distinct(spec_collect_callbacks(fns)),
    decreases fns.len(),
{
    lemma_collect_from_sorted(Seq::empty(), fns);
    let acc = spec_collect_callbacks(fns);
    assert forall|i: int, j: int|
        0 <= i < j < acc.len() implies crate::csharp::emit::cs_callback_name(#[trigger] acc[i].0)
        != crate::csharp::emit::cs_callback_name(#[trigger] acc[j].0) by {
        if crate::csharp::emit::cs_callback_name(acc[i].0) == crate::csharp::emit::cs_callback_name(
            acc[j].0,
        ) {
            lemma_lex_irreflexive(crate::csharp::emit::cs_callback_name(acc[i].0));
        }
    }
}

/// The callbacks of one parameter vector, as owned copies.
fn gather_callbacks(inputs: &Vec<Param>) -> (r: Vec<Function>)
    ensures
        r@.map_values(|f: Function| f@) == fn_callbacks(params_model(inputs@)),
{
    proof {
        lemma_params_model_index(inputs@);
    }
    let ghost model = params_model(inputs@);
    let mut r: Vec<Function> = Vec::new();
    let mut i: usize = 0;
    while i < inputs.len()
        invariant
            i <= inputs@.len(),
            model == params_model(inputs@),
            model.len() == inputs@.len(),
            forall|j: int|
                0 <= j < inputs@.len() ==> model[j] == param_model(#[trigger] inputs@[j]),
            r@.map_values(|f: Function| f@) == fn_callbacks(model.take(i as int)),
        decreases inputs@.len() - i,
    {
        let ghost prev = r@.map_values(|f: Function| f@);
        let cb = crate::intermediate::extract_callback(&inputs[i].ty);
        match cb {
            Option::Some(f) => {
                let copy = dup_function(f);
                r.push(copy);
                proof {
                    assert(r@.map_values(|f: Function| f@) =~= prev.push(r@.last()@));
                }
            },
            Option::None => {},
        }
        proof {
            assert(model.take(i + 1).drop_last() =~= model.take(i as int));
            assert(model.take(i + 1).last() == model[i as int]);
            assert(r@.map_values(|f: Function| f@) =~= fn_callbacks(model.take(i + 1)));
        }
        i = i + 1;
    }
    proof {
        assert(model.take(model.len() as int) =~= model);
    }
    r
}

proof fn lemma_cb_pos_at(acc: Seq<(FunctionV, bool)>, name: Seq<char>, i: int)
    requires
        0 <= i <= acc.len(),
        forall|j: int|
            0 <= j < i ==> lex_lt(crate::csharp::emit::cs_callback_name(#[trigger] acc[j].0), name),
        i < acc.len() ==> !lex_lt(crate::csharp::emit::cs_callback_name(acc[i].0), name),
    ensures
        cb_pos(acc, name) == i,
    decreases acc,
{
    if acc.len() > 0 && i > 0 {
        let t = acc.drop_first();
        assert forall|j: int|
            0 <= j < i - 1 implies lex_lt(
            crate::csharp::emit::cs_callback_name(#[trigger] t[j].0),
            name,
        ) by {
            assert(t[j] == acc[j + 1]);
        }
        if i - 1 < t.len() {
            assert(t[i - 1] == acc[i]);
        }
        lemma_cb_pos_at(t, name, i - 1);
    }
}

fn find_cb_insertion(acc: &Vec<(Function, bool)>, name: &str) -> (r: usize)
    ensures
        r <= acc@.len(),
        r == cb_pos(acc@.map_values(|e: (Function, bool)| (e.0@, e.1)), name@),
{
    let ghost acc_model = acc@.map_values(|e: (Function, bool)| (e.0@, e.1));
    let mut i: usize = 0;
    while i < acc.len()
        invariant
            i <= acc@.len(),
            acc_model == acc@.map_values(|e: (Function, bool)| (e.0@, e.1)),
            acc_model.len() == acc@.len(),
            forall|j: int|
                0 <= j < i ==> lex_lt(
                    crate::csharp::emit::cs_callback_name(#[trigger] acc_model[j].0),
                    name@,
                ),
        decreases acc@.len() - i,
    {
        let entry_name = crate::csharp::emit::callback_wrapper_name(&acc[i].0);
        proof {
            assert(acc_model[i as int] == (acc@[i as int].0@, acc@[i as int].1));
        }
        if !str_lex_lt(entry_name.as_str(), name) {
            proof {
                lemma_cb_pos_at(acc_model, name@, i as int);
            }
            return i;
        }
        i = i + 1;
    }
    proof {
        lemma_cb_pos_at(acc_model, name@, acc_model.len() as int);
    }
    acc.len()
}

/// Fold one callback into the collected list, keeping it ordered by
/// generated name.
fn upsert_callback(acc: &mut Vec<(Function, bool)>, cb: &Function, single: bool)
    ensures
        final(acc)@.map_values(|e: (Function, bool)| (e.0@, e.1)) == upsert_cb(
            old(acc)@.map_values(|e: (Function, bool)| (e.0@, e.1)),
            cb@,
            single,
        ),
{
    let ghost acc_model = acc@.map_values(|e: (Function, bool)| (e.0@, e.1));
    let name = crate::csharp::emit::callback_wrapper_name(cb);
    let pos = find_cb_insertion(acc, name.as_str());
    let matches_here = if pos < acc.len() {
        let entry_name = crate::csharp::emit::callback_wrapper_name(&acc[pos].0);
        proof {
            assert(acc_model[pos as int] == (acc@[pos as int].0@, acc@[pos as int].1));
        }
        eq_str(entry_name.as_str(), name.as_str())
    } else {
        false
    };
    if matches_here {
        if single {
            let mut entry = acc.remove(pos);
            entry.1 = true;
            acc.insert(pos, entry);
            proof {
                assert(acc@.map_values(|e: (Function, bool)| (e.0@, e.1)) =~= acc_model.update(
                    pos as int,
                    (acc_model[pos as int].0, true),
                ));
            }
        }
    } else {
        acc.insert(pos, (dup_function(cb), single));
        proof {
            assert(acc@.map_values(|e: (Function, bool)| (e.0@, e.1)) =~= acc_model.insert(
                pos as int,
                (cb@, single),
            ));
        }
    }
}

/// Collect the callbacks of every collected function, deduplicated by
/// generated interface name and ordered by it, each with a flag telling
/// whether some occurrence was the only callback of its function.
pub fn collect_callbacks(functions: &Vec<Snippet<Function>>) -> (r: Vec<(Function, bool)>)
    ensures
        r@.map_values(|e: (Function, bool)| (e.0@, e.1)) == spec_collect_callbacks(
            functions@.map_values(|s: Snippet<Function>| s@),
        ),
{
    let ghost fns_model = functions@.map_values(|s: Snippet<Function>| s@);
    let mut acc: Vec<(Function, bool)> = Vec::new();
    proof {
        assert(acc@.map_values(|e: (Function, bool)| (e.0@, e.1)) =~= Seq::<(
            FunctionV,
            bool,
        )>::empty());
        assert(fns_model.skip(0) =~= fns_model);
    }
    let mut i: usize = 0;
    while i < functions.len()
        invariant
            i <= functions@.len(),
            fns_model == functions@.map_values(|s: Snippet<Function>| s@),
            fns_model.len() == functions@.len(),
            collect_from(
                acc@.map_values(|e: (Function, bool)| (e.0@, e.1)),
                fns_model.skip(i as int),
            ) == spec_collect_callbacks(fns_model),
        decreases functions@.len() - i,
    {
        let snippet = &functions[i];
        proof {
            assert(fns_model[i as int] == functions@[i as int]@);
        }
        let cbs = gather_callbacks(&snippet.item.inputs);
        let single = cbs.len() == 1;
        let ghost cbs_model = fn_callbacks(fns_model[i as int].item.inputs);
        let ghost acc_before = acc@.map_values(|e: (Function, bool)| (e.0@, e.1));
        proof {
            assert(cbs_model.skip(0) =~= cbs_model);
        }
        let mut k: usize = 0;
        while k < cbs.len()
            invariant
                k <= cbs@.len(),
                cbs_model == cbs@.map_values(|f: Function| f@),
                cbs_model.len() == cbs@.len(),
                single == (cbs@.len() == 1),
                add_cbs(
                    acc@.map_values(|e: (Function, bool)| (e.0@, e.1)),
                    cbs_model.skip(k as int),
                    single,
                ) == add_cbs(acc_before, cbs_model, single),
            decreases cbs@.len() - k,
        {
            let ghost before = acc@.map_values(|e: (Function, bool)| (e.0@, e.1));
            upsert_callback(&mut acc, &cbs[k], single);
            proof {
                assert(cbs_model.skip(k as int)[0] == cbs_model[k as int]);
                assert(cbs_model[k as int] == cbs@[k as int]@);
                assert(cbs_model.skip(k as int).drop_first() =~= cbs_model.skip(k + 1));
            }
            k = k + 1;
        }
        proof {
            assert(cbs_model.skip(cbs_model.len() as int) =~= Seq::<FunctionV>::empty());
            assert(fns_model.skip(i as int)[0] == fns_model[i as int]);
            assert(fns_model.skip(i as int).drop_first() =~= fns_model.skip(i + 1));
        }
        i = i + 1;
    }
    proof {
        assert(fns_model.skip(fns_model.len() as int) =~= Seq::<SnippetV<FunctionV>>::empty());
        assert(acc@.map_values(|e: (Function, bool)| (e.0@, e.1)) =~= spec_collect_callbacks(
            fns_model,
        ));
    }
    acc
}


// ----------------------------------------------------------------------------
// Artifact assembly.

/// Whether a function gets a convenience wrapper.
pub open spec fn eligible_fn(s: SnippetV<FunctionV>, blacklist: Seq<Seq<char>>) -> bool {
    !seq_has_name(blacklist, s.name) && spec_num_callbacks(s.item.inputs) <= 1
}

/// The functions part of the implementation artifact, in collection order:
/// per function its documentation (when comments are preserved), its wrapper
/// (when eligible) and its native declaration.
pub open spec fn cs_functions_section(
    fns: Seq<SnippetV<FunctionV>>,
    blacklist: Seq<Seq<char>>,
    preserve: bool,
) -> Seq<char>
    decreases fns,
{
    if fns.len() == 0 {
        Seq::empty()
    } else {
        cs_functions_section(fns.drop_last(), blacklist, preserve) + (if preserve {
            fns.last().docs
        } else {
            Seq::empty()
        }) + (if eligible_fn(fns.last(), blacklist) {
            crate::csharp::emit::cs_wrapper_fn(fns.last().name, fns.last().item)
        } else {
            Seq::empty()
        }) + crate::csharp::emit::cs_extern_decl(fns.last().name, fns.last().item)
    }
}

/// The callbacks part of the implementation artifact: one delegate per
/// distinct callback, and one handler for each single-use one.
pub open spec fn cs_callbacks_section(cbs: Seq<(FunctionV, bool)>) -> Seq<char>
    decreases cbs,
{
    if cbs.len() == 0 {
        Seq::empty()
    } else {
        cs_callbacks_section(cbs.drop_last()) + crate::csharp::emit::cs_delegate(cbs.last().0) + (
        if cbs.last().1 {
            crate::csharp::emit::cs_callback_handler(cbs.last().0)
        } else {
            Seq::empty()
        })
    }
}

pub open spec fn cs_file_usings() -> Seq<char> {
    "using System;\nusing System.Collections.Generic;\nusing System.Runtime.InteropServices;\nusing System.Threading.Tasks;\n\n"@
}

/// The whole implementation artifact.
pub open spec fn cs_class_file(
    namespace: Seq<char>,
    class_name: Seq<char>,
    lib_name: Seq<char>,
    preserve: bool,
    fns: Seq<SnippetV<FunctionV>>,
    blacklist: Seq<Seq<char>>,
) -> Seq<char> {
    cs_file_usings() + "namespace "@ + namespace + " {\npublic partial class "@ + class_name
        + " : I"@ + class_name + " {\n#if __IOS__\ninternal const string DllName = \"__Internal\";\n#else\ninternal const string DllName = \""@
        + lib_name + "\";\n#endif\n\n"@ + cs_functions_section(fns, blacklist, preserve)
        + cs_callbacks_section(spec_collect_callbacks(fns)) + "}\n}\n"@
}

pub open spec fn cs_iface_decls(fns: Seq<SnippetV<FunctionV>>, blacklist: Seq<Seq<char>>) -> Seq<
    char,
>
    decreases fns,
{
    if fns.len() == 0 {
        Seq::empty()
    } else {
        cs_iface_decls(fns.drop_last(), blacklist) + (if eligible_fn(fns.last(), blacklist) {
            crate::csharp::emit::cs_wrapper_decl(fns.last().name, fns.last().item)
        } else {
            Seq::empty()
        })
    }
}

/// The whole companion interface artifact.
pub open spec fn cs_iface_file(
    namespace: Seq<char>,
    class_name: Seq<char>,
    fns: Seq<SnippetV<FunctionV>>,
    blacklist: Seq<Seq<char>>,
) -> Seq<char> {
    cs_file_usings() + "namespace "@ + namespace + " {\npublic partial interface I"@ + class_name
        + " {\n"@ + cs_iface_decls(fns, blacklist) + "}\n}\n"@
}

pub open spec fn cs_consts_decls(consts: Seq<SnippetV<ConstV>>, preserve: bool) -> Seq<char>
    decreases consts,
{
    if consts.len() == 0 {
        Seq::empty()
    } else {
        cs_consts_decls(consts.drop_last(), preserve) + (if preserve {
            consts.last().docs
        } else {
            Seq::empty()
        }) + crate::csharp::emit::cs_const_decl(consts.last().name, consts.last().item)
    }
}

pub open spec fn cs_custom_decls(custom: Seq<Seq<char>>) -> Seq<char>
    decreases custom,
{
    if custom.len() == 0 {
        Seq::empty()
    } else {
        cs_custom_decls(custom.drop_last()) + custom.last() + "\n"@
    }
}

/// The whole constants artifact.
pub open spec fn cs_consts_file(
    namespace: Seq<char>,
    consts_class: Seq<char>,
    consts: Seq<SnippetV<ConstV>>,
    custom: Seq<Seq<char>>,
    preserve: bool,
) -> Seq<char> {
    "using System;\n\nnamespace "@ + namespace + " {\npublic static class "@ + consts_class
        + " {\n"@ + cs_consts_decls(consts, preserve) + cs_custom_decls(custom) + "}\n}\n"@
}

pub open spec fn cs_enums_section(enums: Seq<SnippetV<EnumV>>, preserve: bool) -> Seq<char>
    decreases enums,
{
    if enums.len() == 0 {
        Seq::empty()
    } else {
        cs_enums_section(enums.drop_last(), preserve) + (if preserve {
            enums.last().docs
        } else {
            Seq::empty()
        }) + crate::csharp::emit::cs_enum_decl(enums.last().name, enums.last().item)
    }
}

/// The structs part of the types artifact: a native struct is emitted as a
/// wrapper/native split, a plain one as a value struct.
pub open spec fn cs_structs_section(
    structs: Seq<SnippetV<StructV>>,
    natives: Seq<Seq<char>>,
    preserve: bool,
) -> Seq<char>
    decreases structs,
{
    if structs.len() == 0 {
        Seq::empty()
    } else {
        cs_structs_section(structs.drop_last(), natives, preserve) + (if preserve {
            structs.last().docs
        } else {
            Seq::empty()
        }) + (if seq_has_name(natives, structs.last().name) {
            crate::csharp::emit::cs_wrapper_struct(structs.last().name, structs.last().item)
                + crate::csharp::emit::cs_native_struct(structs.last().name, structs.last().item)
        } else {
            crate::csharp::emit::cs_normal_struct(structs.last().name, structs.last().item)
        })
    }
}

/// The whole types artifact.
pub open spec fn cs_types_file(
    namespace: Seq<char>,
    enums: Seq<SnippetV<EnumV>>,
    structs: Seq<SnippetV<StructV>>,
    natives: Seq<Seq<char>>,
    preserve: bool,
) -> Seq<char> {
    "using System;\nusing System.Collections.Generic;\nusing System.Runtime.InteropServices;\nusing JetBrains.Annotations;\n\nnamespace "@
        + namespace + " {\n"@ + cs_enums_section(enums, preserve) + cs_structs_section(
        structs,
        natives,
        preserve,
    ) + "}\n"@
}

/// The whole fixed utility artifact.
pub open spec fn cs_utils_file(namespace: Seq<char>, utils_class: Seq<char>) -> Seq<char> {
    "using System;\n\nnamespace "@ + namespace + " {\npublic static class "@ + utils_class
        + " {\n}\n}\n"@
}

/// The collected snippets with aliases substituted, elementwise.
pub open spec fn resolve_const_snips(
    cs: Seq<SnippetV<ConstV>>,
    table: Seq<(Seq<char>, TypeV)>,
) -> Seq<SnippetV<ConstV>>
    decreases cs,
{
    if cs.len() == 0 {
        Seq::empty()
    } else {
        resolve_const_snips(cs.drop_last(), table).push(
            SnippetV {
                item: ConstV { ty: resolve_ty(cs.last().item.ty, table), ..cs.last().item },
                ..cs.last()
            },
        )
    }
}

pub open spec fn resolve_struct_snips(
    ss: Seq<SnippetV<StructV>>,
    table: Seq<(Seq<char>, TypeV)>,
) -> Seq<SnippetV<StructV>>
    decreases ss,
{
    if ss.len() == 0 {
        Seq::empty()
    } else {
        resolve_struct_snips(ss.drop_last(), table).push(
            SnippetV {
                name: renamed_struct(ss.last().name, table),
                item: StructV { fields: resolve_fields(ss.last().item.fields, table) },
                ..ss.last()
            },
        )
    }
}

pub open spec fn resolve_fun_snips(
    fs: Seq<SnippetV<FunctionV>>,
    table: Seq<(Seq<char>, TypeV)>,
) -> Seq<SnippetV<FunctionV>>
    decreases fs,
{
    if fs.len() == 0 {
        Seq::empty()
    } else {
        resolve_fun_snips(fs.drop_last(), table).push(
            SnippetV { item: resolve_fun(fs.last().item, table), ..fs.last() },
        )
    }
}

proof fn lemma_resolve_const_snips_index(cs: Seq<SnippetV<ConstV>>, table: Seq<(Seq<char>, TypeV)>)
    ensures
        resolve_const_snips(cs, table).len() == cs.len(),
        forall|i: int|
            0 <= i < cs.len() ==> #[trigger] resolve_const_snips(cs, table)[i] == (SnippetV {
                item: ConstV { ty: resolve_ty(cs[i].item.ty, table), ..cs[i].item },
                ..cs[i]
            }),
    decreases cs,
{
    if cs.len() > 0 {
        lemma_resolve_const_snips_index(cs.drop_last(), table);
        assert forall|i: int|
            0 <= i < cs.len() implies #[trigger] resolve_const_snips(cs, table)[i] == (SnippetV {
            item: ConstV { ty: resolve_ty(cs[i].item.ty, table), ..cs[i].item },
            ..cs[i]
        }) by {
            if i < cs.len() - 1 {
                assert(cs.drop_last()[i] == cs[i]);
                assert(resolve_const_snips(cs, table)[i] == resolve_const_snips(
                    cs.drop_last(),
                    table,
                )[i]);
            } else {
                assert(cs.last() == cs[i]);
            }
        }
    }
}

proof fn lemma_resolve_struct_snips_index(ss: Seq<SnippetV<StructV>>, table: Seq<(Seq<char>, TypeV)>)
    ensures
        resolve_struct_snips(ss, table).len() == ss.len(),
        forall|i: int|
            0 <= i < ss.len() ==> #[trigger] resolve_struct_snips(ss, table)[i] == (SnippetV {
                name: renamed_struct(ss[i].name, table),
                item: StructV { fields: resolve_fields(ss[i].item.fields, table) },
                ..ss[i]
            }),
    decreases ss,
{
    if ss.len() > 0 {
        lemma_resolve_struct_snips_index(ss.drop_last(), table);
        assert forall|i: int|
            0 <= i < ss.len() implies #[trigger] resolve_struct_snips(ss, table)[i] == (SnippetV {
            name: renamed_struct(ss[i].name, table),
            item: StructV { fields: resolve_fields(ss[i].item.fields, table) },
            ..ss[i]
        }) by {
            if i < ss.len() - 1 {
                assert(ss.drop_last()[i] == ss[i]);
                assert(resolve_struct_snips(ss, table)[i] == resolve_struct_snips(
                    ss.drop_last(),
                    table,
                )[i]);
            } else {
                assert(ss.last() == ss[i]);
            }
        }
    }
}

proof fn lemma_resolve_fun_snips_index(fs: Seq<SnippetV<FunctionV>>, table: Seq<(Seq<char>, TypeV)>)
    ensures
        resolve_fun_snips(fs, table).len() == fs.len(),
        forall|i: int|
            0 <= i < fs.len() ==> #[trigger] resolve_fun_snips(fs, table)[i] == (SnippetV {
                item: resolve_fun(fs[i].item, table),
                ..fs[i]
            }),
    decreases fs,
{
    if fs.len() > 0 {
        lemma_resolve_fun_snips_index(fs.drop_last(), table);
        assert forall|i: int|
            0 <= i < fs.len() implies #[trigger] resolve_fun_snips(fs, table)[i] == (SnippetV {
            item: resolve_fun(fs[i].item, table),
            ..fs[i]
        }) by {
            if i < fs.len() - 1 {
                assert(fs.drop_last()[i] == fs[i]);
                assert(resolve_fun_snips(fs, table)[i] == resolve_fun_snips(
                    fs.drop_last(),
                    table,
                )[i]);
            } else {
                assert(fs.last() == fs[i]);
            }
        }
    }
}


impl LangCSharp {
    fn emit_functions_section(&self) -> (r: String)
        ensures
            r@ == cs_functions_section(
                self.functions_model(),
                names_view(self.wrapper_function_blacklist@),
                self.context.preserve_comments,
            ),
    {
        let ghost model = self.functions_model();
        let ghost blk = names_view(self.wrapper_function_blacklist@);
        let mut r = String::new();
        let mut i: usize = 0;
        while i < self.functions.len()
            invariant
                i <= self.functions@.len(),
                model == self.functions_model(),
                blk == names_view(self.wrapper_function_blacklist@),
                model.len() == self.functions@.len(),
                r@ == cs_functions_section(
                    model.take(i as int),
                    blk,
                    self.context.preserve_comments,
                ),
            decreases self.functions@.len() - i,
        {
            let snippet = &self.functions[i];
            proof {
                assert(model[i as int] == self.functions@[i as int]@);
            }
            if self.context.preserve_comments {
                r.append(snippet.docs.as_str());
            }
            if self.is_interface_function(snippet.name.as_str(), &snippet.item) {
                let w = crate::csharp::emit::emit_wrapper_function(
                    snippet.name.as_str(),
                    &snippet.item,
                );
                r.append(w.as_str());
            }
            let d = crate::csharp::emit::emit_extern_decl(snippet.name.as_str(), &snippet.item);
            r.append(d.as_str());
            proof {
                assert(model.take(i + 1).drop_last() =~= model.take(i as int));
                assert(model.take(i + 1).last() == model[i as int]);
                assert(r@ =~= cs_functions_section(
                    model.take(i + 1),
                    blk,
                    self.context.preserve_comments,
                ));
            }
            i = i + 1;
        }
        proof {
            assert(model.take(model.len() as int) =~= model);
        }
        r
    }

    fn emit_callbacks_section(&self, cbs: &Vec<(Function, bool)>) -> (r: String)
        ensures
            r@ == cs_callbacks_section(cbs@.map_values(|e: (Function, bool)| (e.0@, e.1))),
    {
        let ghost model = cbs@.map_values(|e: (Function, bool)| (e.0@, e.1));
        let mut r = String::new();
        let mut i: usize = 0;
        while i < cbs.len()
            invariant
                i <= cbs@.len(),
                model == cbs@.map_values(|e: (Function, bool)| (e.0@, e.1)),
                model.len() == cbs@.len(),
                r@ == cs_callbacks_section(model.take(i as int)),
            decreases cbs@.len() - i,
        {
            let entry = &cbs[i];
            proof {
                assert(model[i as int] == (cbs@[i as int].0@, cbs@[i as int].1));
            }
            let d = crate::csharp::emit::emit_callback_delegate(&entry.0);
            r.append(d.as_str());
            if entry.1 {
                let w = crate::csharp::emit::emit_callback_wrapper(&entry.0);
                r.append(w.as_str());
            }
            proof {
                assert(model.take(i + 1).drop_last() =~= model.take(i as int));
                assert(model.take(i + 1).last() == model[i as int]);
                assert(r@ =~= cs_callbacks_section(model.take(i + 1)));
            }
            i = i + 1;
        }
        proof {
            assert(model.take(model.len() as int) =~= model);
        }
        r
    }

    fn emit_iface_decls(&self) -> (r: String)
        ensures
            r@ == cs_iface_decls(
                self.functions_model(),
                names_view(self.wrapper_function_blacklist@),
            ),
    {
        let ghost model = self.functions_model();
        let ghost blk = names_view(self.wrapper_function_blacklist@);
        let mut r = String::new();
        let mut i: usize = 0;
        while i < self.functions.len()
            invariant
                i <= self.functions@.len(),
                model == self.functions_model(),
                blk == names_view(self.wrapper_function_blacklist@),
                model.len() == self.functions@.len(),
                r@ == cs_iface_decls(model.take(i as int), blk),
            decreases self.functions@.len() - i,
        {
            let snippet = &self.functions[i];
            proof {
                assert(model[i as int] == self.functions@[i as int]@);
            }
            if self.is_interface_function(snippet.name.as_str(), &snippet.item) {
                let w = crate::csharp::emit::emit_wrapper_function_decl(
                    snippet.name.as_str(),
                    &snippet.item,
                );
                r.append(w.as_str());
            }
            proof {
                assert(model.take(i + 1).drop_last() =~= model.take(i as int));
                assert(model.take(i + 1).last() == model[i as int]);
                assert(r@ =~= cs_iface_decls(model.take(i + 1), blk));
            }
            i = i + 1;
        }
        proof {
            assert(model.take(model.len() as int) =~= model);
        }
        r
    }

    fn any_eligible(&self) -> (r: bool)
        ensures
            r == exists|i: int|
                0 <= i < self.functions_model().len() && eligible_fn(
                    #[trigger] self.functions_model()[i],
                    names_view(self.wrapper_function_blacklist@),
                ),
    {
        let ghost model = self.functions_model();
        let ghost blk = names_view(self.wrapper_function_blacklist@);
        let mut i: usize = 0;
        while i < self.functions.len()
            invariant
                i <= self.functions@.len(),
                model == self.functions_model(),
                blk == names_view(self.wrapper_function_blacklist@),
                model.len() == self.functions@.len(),
                forall|j: int| 0 <= j < i ==> !eligible_fn(#[trigger] model[j], blk),
            decreases self.functions@.len() - i,
        {
            let snippet = &self.functions[i];
            proof {
                assert(model[i as int] == self.functions@[i as int]@);
            }
            if self.is_interface_function(snippet.name.as_str(), &snippet.item) {
                return true;
            }
            i = i + 1;
        }
        false
    }

    fn emit_consts_decls(&self) -> (r: String)
        ensures
            r@ == cs_consts_decls(self.consts_model(), self.context.preserve_comments)
                + cs_custom_decls(names_view(self.custom_consts@)),
    {
        let ghost model = self.consts_model();
        let mut r = String::new();
        let mut i: usize = 0;
        while i < self.consts.len()
            invariant
                i <= self.consts@.len(),
                model == self.consts_model(),
                model.len() == self.consts@.len(),
                r@ == cs_consts_decls(model.take(i as int), self.context.preserve_comments),
            decreases self.consts@.len() - i,
        {
            let snippet = &self.consts[i];
            proof {
                assert(model[i as int] == self.consts@[i as int]@);
            }
            if self.context.preserve_comments {
                r.append(snippet.docs.as_str());
            }
            let d = crate::csharp::emit::emit_const(snippet.name.as_str(), &snippet.item);
            r.append(d.as_str());
            proof {
                assert(model.take(i + 1).drop_last() =~= model.take(i as int));
                assert(model.take(i + 1).last() == model[i as int]);
                assert(r@ =~= cs_consts_decls(
                    model.take(i + 1),
                    self.context.preserve_comments,
                ));
            }
            i = i + 1;
        }
        proof {
            assert(model.take(model.len() as int) =~= model);
        }
        let ghost custom = names_view(self.custom_consts@);
        let ghost before_custom = r@;
        let mut i: usize = 0;
        while i < self.custom_consts.len()
            invariant
                i <= self.custom_consts@.len(),
                custom == names_view(self.custom_consts@),
                custom.len() == self.custom_consts@.len(),
                before_custom == cs_consts_decls(
                    self.consts_model(),
                    self.context.preserve_comments,
                ),
                r@ == before_custom + cs_custom_decls(custom.take(i as int)),
            decreases self.custom_consts@.len() - i,
        {
            r.append(self.custom_consts[i].as_str());
            r.append("\n");
            proof {
                reveal_strlit("\n");
                assert(custom.take(i + 1).drop_last() =~= custom.take(i as int));
                assert(custom.take(i + 1).last() == custom[i as int]);
                assert(custom[i as int] == self.custom_consts@[i as int]@);
                assert(r@ =~= before_custom + cs_custom_decls(custom.take(i + 1)));
            }
            i = i + 1;
        }
        proof {
            assert(custom.take(custom.len() as int) =~= custom);
        }
        r
    }

    fn emit_types_body(&self) -> (r: String)
        ensures
            r@ == cs_enums_section(self.enums_model(), self.context.preserve_comments)
                + cs_structs_section(
                self.structs_model(),
                self.context.natives(),
                self.context.preserve_comments,
            ),
    {
        let ghost enums = self.enums_model();
        let mut r = String::new();
        let mut i: usize = 0;
        while i < self.enums.len()
            invariant
                i <= self.enums@.len(),
                enums == self.enums_model(),
                enums.len() == self.enums@.len(),
                r@ == cs_enums_section(enums.take(i as int), self.context.preserve_comments),
            decreases self.enums@.len() - i,
        {
            let snippet = &self.enums[i];
            proof {
                assert(enums[i as int] == self.enums@[i as int]@);
            }
            if self.context.preserve_comments {
                r.append(snippet.docs.as_str());
            }
            let d = crate::csharp::emit::emit_enum(snippet.name.as_str(), &snippet.item);
            r.append(d.as_str());
            proof {
                assert(enums.take(i + 1).drop_last() =~= enums.take(i as int));
                assert(enums.take(i + 1).last() == enums[i as int]);
                assert(r@ =~= cs_enums_section(
                    enums.take(i + 1),
                    self.context.preserve_comments,
                ));
            }
            i = i + 1;
        }
        proof {
            assert(enums.take(enums.len() as int) =~= enums);
        }
        let ghost structs = self.structs_model();
        let ghost natives = self.context.natives();
        let ghost before_structs = r@;
        let mut i: usize = 0;
        while i < self.structs.len()
            invariant
                i <= self.structs@.len(),
                structs == self.structs_model(),
                natives == self.context.natives(),
                structs.len() == self.structs@.len(),
                before_structs == cs_enums_section(
                    self.enums_model(),
                    self.context.preserve_comments,
                ),
                r@ == before_structs + cs_structs_section(
                    structs.take(i as int),
                    natives,
                    self.context.preserve_comments,
                ),
            decreases self.structs@.len() - i,
        {
            let snippet = &self.structs[i];
            proof {
                assert(structs[i as int] == self.structs@[i as int]@);
            }
            if self.context.preserve_comments {
                r.append(snippet.docs.as_str());
            }
            if self.context.is_native_name(snippet.name.as_str()) {
                let w = crate::csharp::emit::emit_wrapper_struct(
                    snippet.name.as_str(),
                    &snippet.item,
                );
                r.append(w.as_str());
                let n = crate::csharp::emit::emit_native_struct(
                    snippet.name.as_str(),
                    &snippet.item,
                );
                r.append(n.as_str());
            } else {
                let n = crate::csharp::emit::emit_normal_struct(
                    snippet.name.as_str(),
                    &snippet.item,
                );
                r.append(n.as_str());
            }
            proof {
                assert(structs.take(i + 1).drop_last() =~= structs.take(i as int));
                assert(structs.take(i + 1).last() == structs[i as int]);
                assert(r@ =~= before_structs + cs_structs_section(
                    structs.take(i + 1),
                    natives,
                    self.context.preserve_comments,
                ));
            }
            i = i + 1;
        }
        proof {
            assert(structs.take(structs.len() as int) =~= structs);
        }
        r
    }

    /// Resolve aliases through every collected snippet, then emit the output
    /// artifacts: the implementation and companion interface for the
    /// functions, the constants, the types (native structs as a
    /// wrapper/native split), and the fixed utility file. The per-run
    /// classification state is cleared afterwards.
    pub fn finalise_output(&mut self, outputs: &mut Outputs) -> (r: Result<(), Error>)
        requires
            old(self).wf(),
            old(outputs).wf(),
        ensures
            r is Ok,
            final(self).wf(),
            final(outputs).wf(),
            ({
                let table = old(self).aliases.entry_seq();
                let fns = resolve_fun_snips(old(self).functions_model(), table);
                let consts = resolve_const_snips(old(self).consts_model(), table);
                let structs = resolve_struct_snips(old(self).structs_model(), table);
                let blk = names_view(old(self).wrapper_function_blacklist@);
                let ctx = old(self).context;
                let class_key = ctx.class_name@ + ".cs"@;
                let iface_key = "I"@ + ctx.class_name@ + ".cs"@;
                let consts_key = ctx.consts_class_name@ + ".cs"@;
                let types_key = ctx.types_file_name@ + ".cs"@;
                let utils_key = ctx.utils_class_name@ + ".cs"@;
                forall|k: Seq<char>|
                    #[trigger] final(outputs).lookup(k) == if old(self).utils_enabled && k
                        == utils_key {
                        Option::Some(cs_utils_file(ctx.namespace@, ctx.utils_class_name@))
                    } else if old(self).types_enabled && (old(self).enums_model().len() > 0 || old(
                        self,
                    ).structs_model().len() > 0) && k == types_key {
                        Option::Some(
                            cs_types_file(
                                ctx.namespace@,
                                old(self).enums_model(),
                                structs,
                                names_view(ctx.native_types@),
                                ctx.preserve_comments,
                            ),
                        )
                    } else if (old(self).consts_model().len() > 0 || old(
                        self,
                    ).custom_consts@.len() > 0) && k == consts_key {
                        Option::Some(
                            cs_consts_file(
                                ctx.namespace@,
                                ctx.consts_class_name@,
                                consts,
                                names_view(old(self).custom_consts@),
                                ctx.preserve_comments,
                            ),
                        )
                    } else if fns.len() > 0 && (exists|i: int|
                        0 <= i < fns.len() && eligible_fn(#[trigger] fns[i], blk)) && k
                        == iface_key {
                        Option::Some(cs_iface_file(ctx.namespace@, ctx.class_name@, fns, blk))
                    } else if fns.len() > 0 && k == class_key {
                        Option::Some(
                            cs_class_file(
                                ctx.namespace@,
                                ctx.class_name@,
                                ctx.lib_name@,
                                ctx.preserve_comments,
                                fns,
                                blk,
                            ),
                        )
                    } else {
                        old(outputs).lookup(k)
                    }
            }),
            final(self).consts@.len() == 0,
            final(self).custom_consts@.len() == 0,
            final(self).enums@.len() == 0,
            final(self).functions@.len() == 0,
            final(self).context.opaque_types@.len() == 0,
            final(self).context.native_types@.len() == 0,
    {
        self.resolve_aliases();
        proof {
            let table = old(self).aliases.entry_seq();
            lemma_resolve_const_snips_index(old(self).consts_model(), table);
            lemma_resolve_struct_snips_index(old(self).structs_model(), table);
            lemma_resolve_fun_snips_index(old(self).functions_model(), table);
            assert(self.consts_model() =~= resolve_const_snips(old(self).consts_model(), table));
            assert(self.structs_model() =~= resolve_struct_snips(old(self).structs_model(), table));
            assert(self.functions_model() =~= resolve_fun_snips(
                old(self).functions_model(),
                table,
            ));
        }
        if self.functions.len() > 0 {
            let mut text = String::new();
            {
                let body = self.emit_functions_section();
                let cbs = collect_callbacks(&self.functions);
                let cb_text = self.emit_callbacks_section(&cbs);
                text.append(
                    "using System;\nusing System.Collections.Generic;\nusing System.Runtime.InteropServices;\nusing System.Threading.Tasks;\n\n",
                );
                text.append("namespace ");
                text.append(self.context.namespace.as_str());
                text.append(" {\npublic partial class ");
                text.append(self.context.class_name.as_str());
                text.append(" : I");
                text.append(self.context.class_name.as_str());
                text.append(" {\n#if __IOS__\ninternal const string DllName = \"__Internal\";\n#else\ninternal const string DllName = \"");
                text.append(self.context.lib_name.as_str());
                text.append("\";\n#endif\n\n");
                text.append(body.as_str());
                text.append(cb_text.as_str());
                text.append("}\n}\n");
            }
            let mut class_key = self.context.class_name.clone();
            class_key.append(".cs");
            proof {
                assert(text@ =~= cs_class_file(
                    self.context.namespace@,
                    self.context.class_name@,
                    self.context.lib_name@,
                    self.context.preserve_comments,
                    self.functions_model(),
                    names_view(self.wrapper_function_blacklist@),
                ));
            }
            outputs.insert(class_key.as_str(), text);

            if self.any_eligible() {
                let mut itext = String::new();
                {
                    let decls = self.emit_iface_decls();
                    itext.append(
                        "using System;\nusing System.Collections.Generic;\nusing System.Runtime.InteropServices;\nusing System.Threading.Tasks;\n\n",
                    );
                    itext.append("namespace ");
                    itext.append(self.context.namespace.as_str());
                    itext.append(" {\npublic partial interface I");
                    itext.append(self.context.class_name.as_str());
                    itext.append(" {\n");
                    itext.append(decls.as_str());
                    itext.append("}\n}\n");
                }
                let mut iface_key = String::from_str("I");
                iface_key.append(self.context.class_name.as_str());
                iface_key.append(".cs");
                proof {
                    assert(itext@ =~= cs_iface_file(
                        self.context.namespace@,
                        self.context.class_name@,
                        self.functions_model(),
                        names_view(self.wrapper_function_blacklist@),
                    ));
                }
                outputs.insert(iface_key.as_str(), itext);
            }
        }
        if self.consts.len() > 0 || self.custom_consts.len() > 0 {
            let mut text = String::new();
            {
                let decls = self.emit_consts_decls();
                text.append("using System;\n\nnamespace ");
                text.append(self.context.namespace.as_str());
                text.append(" {\npublic static class ");
                text.append(self.context.consts_class_name.as_str());
                text.append(" {\n");
                text.append(decls.as_str());
                text.append("}\n}\n");
            }
            let mut consts_key = self.context.consts_class_name.clone();
            consts_key.append(".cs");
            proof {
                assert(text@ =~= cs_consts_file(
                    self.context.namespace@,
                    self.context.consts_class_name@,
                    self.consts_model(),
                    names_view(self.custom_consts@),
                    self.context.preserve_comments,
                ));
            }
            outputs.insert(consts_key.as_str(), text);
        }
        if self.types_enabled && (self.enums.len() > 0 || self.structs.len() > 0) {
            let mut text = String::new();
            {
                let body = self.emit_types_body();
                text.append("using System;\nusing System.Collections.Generic;\nusing System.Runtime.InteropServices;\nusing JetBrains.Annotations;\n\nnamespace ");
                text.append(self.context.namespace.as_str());
                text.append(" {\n");
                text.append(body.as_str());
                text.append("}\n");
            }
            let mut types_key = self.context.types_file_name.clone();
            types_key.append(".cs");
            proof {
                assert(text@ =~= cs_types_file(
                    self.context.namespace@,
                    self.enums_model(),
                    self.structs_model(),
                    self.context.natives(),
                    self.context.preserve_comments,
                ));
            }
            outputs.insert(types_key.as_str(), text);
        }
        if self.utils_enabled {
            let mut text = String::new();
            text.append("using System;\n\nnamespace ");
            text.append(self.context.namespace.as_str());
            text.append(" {\npublic static class ");
            text.append(self.context.utils_class_name.as_str());
            text.append(" {\n}\n}\n");
            let mut utils_key = self.context.utils_class_name.clone();
            utils_key.append(".cs");
            proof {
                assert(text@ =~= cs_utils_file(
                    self.context.namespace@,
                    self.context.utils_class_name@,
                ));
            }
            outputs.insert(utils_key.as_str(), text);
        }
        self.consts = Vec::new();
        self.custom_consts = Vec::new();
        self.enums = Vec::new();
        self.functions = Vec::new();
        self.context.opaque_types = Vec::new();
        self.context.native_types = Vec::new();
        proof {
            assert(self.context.natives() =~= Seq::<Seq<char>>::empty());
        }
        Result::Ok(())
    }
}


/// A transitive lookup that ends at a named reference ends at a dangling
/// one.
proof fn lemma_chase_user_dangling(
    table: Seq<(Seq<char>, TypeV)>,
    name: Seq<char>,
    fuel: nat,
    y: Seq<char>,
)
    requires
        chase(table, name, fuel) == Option::Some(TypeV::User(y)),
    ensures
        assoc_get(table, y) is None,
    decreases fuel,
{
    match assoc_get(table, name) {
        Option::Some(t) => match t {
            TypeV::User(n2) => {
                if assoc_get(table, n2) is None {
                } else {
                    lemma_chase_user_dangling(table, n2, (fuel - 1) as nat, y);
                }
            },
            _ => {},
        },
        Option::None => {},
    }
}

/// Renaming a struct after its own name's alias is idempotent.
proof fn lemma_rename_idempotent(name: Seq<char>, table: Seq<(Seq<char>, TypeV)>)
    ensures
        renamed_struct(renamed_struct(name, table), table) == renamed_struct(name, table),
{
    match lookup_spec(table, name) {
        Option::Some(TypeV::User(y)) => {
            lemma_chase_user_dangling(table, name, table.len() as nat, y);
        },
        _ => {},
    }
}

proof fn lemma_resolve_fields_idempotent(
    fields: Seq<crate::intermediate::FieldV>,
    table: Seq<(Seq<char>, TypeV)>,
)
    ensures
        resolve_fields(resolve_fields(fields, table), table) == resolve_fields(fields, table),
    decreases fields,
{
    if fields.len() > 0 {
        lemma_resolve_fields_idempotent(fields.drop_last(), table);
        lemma_resolve_idempotent(fields.last().ty, table);
        let r1 = resolve_fields(fields, table);
        assert(r1.drop_last() =~= resolve_fields(fields.drop_last(), table));
        assert(resolve_fields(r1, table) =~= r1);
    }
}

/// Substituting aliases through a whole collected run twice is the same as
/// substituting once: the constant, struct and function snippets all reach a
/// fixed point after one pass.
pub proof fn lemma_resolve_collections_idempotent(
    consts: Seq<SnippetV<ConstV>>,
    structs: Seq<SnippetV<StructV>>,
    fns: Seq<SnippetV<FunctionV>>,
    table: Seq<(Seq<char>, TypeV)>,
)
    ensures
        resolve_const_snips(resolve_const_snips(consts, table), table) == resolve_const_snips(
            consts,
            table,
        ),
        resolve_struct_snips(resolve_struct_snips(structs, table), table) == resolve_struct_snips(
            structs,
            table,
        ),
        resolve_fun_snips(resolve_fun_snips(fns, table), table) == resolve_fun_snips(fns, table),
    decreases consts.len() + structs.len() + fns.len(),
{
    if consts.len() > 0 {
        lemma_resolve_collections_idempotent(consts.drop_last(), structs, fns, table);
        lemma_resolve_idempotent(consts.last().item.ty, table);
        let r1 = resolve_const_snips(consts, table);
        assert(r1.drop_last() =~= resolve_const_snips(consts.drop_last(), table));
        assert(resolve_const_snips(r1, table) =~= r1);
    } else if structs.len() > 0 {
        lemma_resolve_collections_idempotent(consts, structs.drop_last(), fns, table);
        lemma_rename_idempotent(structs.last().name, table);
        lemma_resolve_fields_idempotent(structs.last().item.fields, table);
        let r1 = resolve_struct_snips(structs, table);
        assert(r1.drop_last() =~= resolve_struct_snips(structs.drop_last(), table));
        assert(resolve_struct_snips(r1, table) =~= r1);
    } else if fns.len() > 0 {
        lemma_resolve_collections_idempotent(consts, structs, fns.drop_last(), table);
        lemma_resolve_idempotent_fun(fns.last().item, table);
        let r1 = resolve_fun_snips(fns, table);
        assert(r1.drop_last() =~= resolve_fun_snips(fns.drop_last(), table));
        assert(resolve_fun_snips(r1, table) =~= r1);
    }
}

/// Whether a field list triggers native classification under the context's
/// current native set.
fn struct_fields_trigger(fields: &Vec<crate::intermediate::Field>, context: &Context) -> (r: bool)
    ensures
        r == (has_array_field(fields@.map_values(|f: crate::intermediate::Field| f@)) || exists|
            i: int,
        |
            0 <= i < fields@.len() && is_native_ty(
                (#[trigger] fields@[i])@.ty,
                context.natives(),
            )),
{
    let ghost fields_model = fields@.map_values(|f: crate::intermediate::Field| f@);
    let mut i: usize = 0;
    while i < fields.len()
        invariant
            i <= fields@.len(),
            fields_model == fields@.map_values(|f: crate::intermediate::Field| f@),
            fields_model.len() == fields@.len(),
            forall|j: int| 0 <= j < i ==> !is_array_field(fields_model, j),
            forall|j: int|
                0 <= j < i ==> !is_native_ty(#[trigger] fields_model[j].ty, context.natives()),
        decreases fields@.len() - i,
    {
        if array_field_at(fields, i) {
            return true;
        }
        if context.is_native_type(&fields[i].ty) {
            proof {
                assert(is_native_ty(fields@[i as int]@.ty, context.natives()));
            }
            return true;
        }
        proof {
            assert(fields_model[i as int] == fields@[i as int]@);
        }
        i = i + 1;
    }
    proof {
        if has_array_field(fields_model) {
            let j = choose|j: int| is_array_field(fields_model, j);
            assert(false);
        }
        if exists|j: int|
            0 <= j < fields@.len() && is_native_ty((#[trigger] fields@[j])@.ty, context.natives()) {
            let j = choose|j: int|
                0 <= j < fields@.len() && is_native_ty(
                    (#[trigger] fields@[j])@.ty,
                    context.natives(),
                );
            assert(fields_model[j] == fields@[j]@);
            assert(false);
        }
    }
    false
}


} // verus!
