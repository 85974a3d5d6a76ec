//! Checks and helpers shared by all target languages: attribute queries,
//! calling-convention checks, the argument-level pattern detectors, and the
//! collection of named output artifacts.

use vstd::prelude::*;
use vstd::string::*;
use crate::ast::{
    ArgExpr, ArgExprV, Attr, AttrV, Abi, TyExpr, TyExprV, attr_model, attrs_model,
    lemma_segments_model_index, segments_model,
};
use crate::strutil::{ends_with_str, eq_str, spec_ends_with};
use crate::table::{assoc_get, lemma_assoc_get_found, lemma_assoc_get_none, lemma_assoc_get_push, lemma_assoc_get_update};

verus! {

/// How the identifier filter is interpreted.
#[derive(Clone, Copy, PartialEq, Eq, Structural, Debug)]
pub enum FilterMode {
    /// Identifiers in the filter are ignored.
    Blacklist,
    /// Identifiers not in the filter are ignored.
    Whitelist,
}

/// Which marker `parse_attr` looks for.
#[derive(Clone, Copy, PartialEq, Eq, Structural, Debug)]
pub enum AttrCheck {
    /// Look for the no-name-mangling marker.
    NoMangle,
    /// Look for the C-compatible-layout marker.
    ReprC,
    /// Accept every attribute.
    Any,
}

pub open spec fn is_no_mangle_attr(a: AttrV) -> bool {
    a is NoMangle
}

pub open spec fn is_repr_c_attr(a: AttrV) -> bool {
    a is ReprC
}

pub open spec fn attr_check_holds(c: AttrCheck, a: AttrV) -> bool {
    match c {
        AttrCheck::NoMangle => is_no_mangle_attr(a),
        AttrCheck::ReprC => is_repr_c_attr(a),
        AttrCheck::Any => true,
    }
}

pub open spec fn any_attr_matches(c: AttrCheck, attrs: Seq<AttrV>) -> bool {
    exists|i: int| 0 <= i < attrs.len() && attr_check_holds(c, #[trigger] attrs[i])
}

/// The documentation line contributed by one attribute.
pub open spec fn doc_line(a: AttrV, prepend: Seq<char>) -> Seq<char> {
    match a {
        AttrV::Doc(text) => prepend + text + seq!['\n'],
        _ => Seq::empty(),
    }
}

/// The documentation text contributed by a list of attributes, in order.
pub open spec fn docs_of(attrs: Seq<AttrV>, prepend: Seq<char>) -> Seq<char>
    decreases attrs.len(),
{
    if attrs.len() == 0 {
        Seq::empty()
    } else {
        docs_of(attrs.drop_last(), prepend) + doc_line(attrs.last(), prepend)
    }
}

/// Check the attribute is the no-name-mangling marker.
pub fn check_no_mangle(attr: &Attr) -> (r: bool)
    ensures
        r == is_no_mangle_attr(attr@),
{
    match attr {
        Attr::NoMangle => true,
        _ => false,
    }
}

/// Check the attribute is the C-compatible-layout marker.
pub fn check_repr_c(attr: &Attr) -> (r: bool)
    ensures
        r == is_repr_c_attr(attr@),
{
    match attr {
        Attr::ReprC => true,
        _ => false,
    }
}

/// If the attribute is a documentation line, prefix it with `prepend` and
/// append a line break.
pub fn retrieve_docstring(attr: &Attr, prepend: &str) -> (r: Option<String>)
    ensures
        match r {
            Option::Some(s) => s@ == doc_line(attr@, prepend@) && attr@ is Doc,
            Option::None => !(attr@ is Doc),
        },
{
    match attr {
        Attr::Doc(text) => {
            let mut s = String::from_str(prepend);
            s.append(text.as_str());
            s.append("\n");
            proof {
                reveal_strlit("\n");
                assert("\n"@ =~= seq!['\n']);
            }
            Option::Some(s)
        },
        _ => Option::None,
    }
}

/// Walk an attribute list: report whether any attribute passes the check, and
/// concatenate the documentation lines, each prefixed with `prepend`.
pub fn parse_attr(attrs: &Vec<Attr>, check: AttrCheck, prepend: &str) -> (r: (bool, String))
    ensures
        r.0 == any_attr_matches(check, attrs_model(attrs@)),
        r.1@ == docs_of(attrs_model(attrs@), prepend@),
{
    let ghost model = attrs_model(attrs@);
    let mut check_passed = false;
    let mut retrieved = String::new();
    let mut i: usize = 0;
    while i < attrs.len()
        invariant
            i <= attrs@.len(),
            model == attrs_model(attrs@),
            check_passed == any_attr_matches(check, model.take(i as int)),
            retrieved@ == docs_of(model.take(i as int), prepend@),
        decreases attrs@.len() - i,
    {
        let attr = &attrs[i];
        assert(model[i as int] == attr_model(attrs@[i as int]));
        if !check_passed {
            let passes = match check {
                AttrCheck::NoMangle => check_no_mangle(attr),
                AttrCheck::ReprC => check_repr_c(attr),
                AttrCheck::Any => true,
            };
            check_passed = passes;
        }
        if let Option::Some(line) = retrieve_docstring(attr, prepend) {
            retrieved.append(line.as_str());
        }
        proof {
            assert(model.take(i + 1).drop_last() =~= model.take(i as int));
            assert(model.take(i + 1).last() == model[i as int]);
            assert(retrieved@ == docs_of(model.take(i + 1), prepend@));
            if check_passed {
                assert(any_attr_matches(check, model.take(i + 1)));
            } else {
                assert forall|j: int| 0 <= j < i + 1 implies !attr_check_holds(
                    check,
                    #[trigger] model.take(i + 1)[j],
                ) by {
                    assert(model.take(i + 1)[j] == model[j]);
                    if j < i {
                        assert(model.take(i as int)[j] == model[j]);
                    }
                }
            }
        }
        i = i + 1;
    }
    assert(model.take(attrs@.len() as int) =~= model);
    (check_passed, retrieved)
}

pub open spec fn spec_is_extern(abi: Abi) -> bool {
    match abi {
        Abi::C | Abi::Cdecl | Abi::Stdcall | Abi::Fastcall | Abi::System => true,
        _ => false,
    }
}

/// Whether the calling convention is compatible with C.
pub fn is_extern(abi: Abi) -> (r: bool)
    ensures
        r == spec_is_extern(abi),
{
    match abi {
        Abi::C | Abi::Cdecl | Abi::Stdcall | Abi::Fastcall | Abi::System => true,
        _ => false,
    }
}

/// Whether the type expression is a single-segment path spelling `name`.
pub open spec fn is_path_to(t: TyExprV, name: Seq<char>) -> bool {
    match t {
        TyExprV::Path(segs) => segs == seq![name],
        _ => false,
    }
}

fn is_single_path(t: &TyExpr, name: &str) -> (r: bool)
    ensures
        r == is_path_to(t@, name@),
{
    match t {
        TyExpr::Path(segs) => {
            proof {
                lemma_segments_model_index(segs@);
            }
            if segs.len() == 1 {
                let r = eq_str(segs[0].as_str(), name);
                proof {
                    if r {
                        assert(segments_model(segs@) =~= seq![name@]);
                    } else {
                        assert(segments_model(segs@)[0] != name@);
                    }
                }
                r
            } else {
                proof {
                    if segments_model(segs@) == seq![name@] {
                        assert(segments_model(segs@).len() == 1);
                    }
                }
                false
            }
        },
        _ => false,
    }
}

/// The conventional opaque-context parameter: `user_data` typed as a mutable
/// void pointer.
pub open spec fn is_user_data_arg_spec(a: ArgExprV) -> bool {
    &&& a.name == "user_data"@
    &&& match a.ty {
        TyExprV::Ptr(mutable, inner) => mutable && is_path_to(*inner, "c_void"@),
        _ => false,
    }
}

/// Check the argument is the conventional opaque-context parameter.
pub fn is_user_data_arg(arg: &ArgExpr) -> (r: bool)
    ensures
        r == is_user_data_arg_spec(arg@),
{
    let name_ok = eq_str(arg.name.as_str(), "user_data");
    if !name_ok {
        return false;
    }
    match &arg.ty {
        TyExpr::Ptr(mutable, inner) => *mutable && is_single_path(inner, "c_void"),
        _ => false,
    }
}

/// The conventional completion-status parameter: `result` typed as a constant
/// pointer to the designated result type.
pub open spec fn is_result_arg_spec(a: ArgExprV) -> bool {
    &&& a.name == "result"@
    &&& match a.ty {
        TyExprV::Ptr(mutable, inner) => !mutable && is_path_to(*inner, "FfiResult"@),
        _ => false,
    }
}

/// Check the argument is the conventional completion-status parameter.
pub fn is_result_arg(arg: &ArgExpr) -> (r: bool)
    ensures
        r == is_result_arg_spec(arg@),
{
    let name_ok = eq_str(arg.name.as_str(), "result");
    if !name_ok {
        return false;
    }
    match &arg.ty {
        TyExpr::Ptr(mutable, inner) => !*mutable && is_single_path(inner, "FfiResult"),
        _ => false,
    }
}

/// A length-carrying name: ends in `_len`, or is exactly `len` or `size`.
pub open spec fn is_len_name(n: Seq<char>) -> bool {
    spec_ends_with(n, "_len"@) || n == "len"@ || n == "size"@
}

/// The conventional length parameter: a pointer-sized integer whose name
/// marks it as a length. In parameter lists the length is recognised by its
/// own name alone; only struct fields demand the name derived from the
/// pointer's base name.
pub open spec fn is_ptr_len_arg_spec(a: ArgExprV) -> bool {
    is_path_to(a.ty, "usize"@) && is_len_name(a.name)
}

/// Check the argument is a length argument for a preceding pointer.
pub fn is_ptr_len_arg(arg: &ArgExpr) -> (r: bool)
    ensures
        r == is_ptr_len_arg_spec(arg@),
{
    if !is_single_path(&arg.ty, "usize") {
        return false;
    }
    let n = arg.name.as_str();
    ends_with_str(n, "_len") || eq_str(n, "len") || eq_str(n, "size")
}

/// A pointer argument directly followed by a length argument forms one
/// logical array value; the completion-status parameter never does. The
/// length argument's name is not matched against the pointer's: any
/// length-named companion pairs, which is looser than the field convention.
pub open spec fn is_array_arg_spec(a: ArgExprV, next: Option<ArgExprV>) -> bool {
    &&& a.ty is Ptr
    &&& !is_result_arg_spec(a)
    &&& match next {
        Option::Some(n) => is_ptr_len_arg_spec(n),
        Option::None => false,
    }
}

/// Check the argument starts an array pointer/length pair.
pub fn is_array_arg(arg: &ArgExpr, next_arg: Option<&ArgExpr>) -> (r: bool)
    ensures
        r == is_array_arg_spec(
            arg@,
            match next_arg {
                Option::Some(n) => Option::Some(n@),
                Option::None => Option::None,
            },
        ),
{
    match &arg.ty {
        TyExpr::Ptr(_, _) => {
            if is_result_arg(arg) {
                false
            } else {
                match next_arg {
                    Option::Some(n) => is_ptr_len_arg(n),
                    Option::None => false,
                }
            }
        },
        _ => false,
    }
}

// ----------------------------------------------------------------------------
// Output artifacts.

/// One named output artifact.
pub struct OutputEntry {
    pub path: String,
    pub text: String,
}

/// The named output artifacts of a run, in creation order, with distinct
/// names.
pub struct Outputs {
    entries: Vec<OutputEntry>,
}

impl Outputs {
    /// The artifacts as a sequence of name/content pairs.
    pub closed spec fn entry_seq(self) -> Seq<(Seq<char>, Seq<char>)> {
        self.entries@.map_values(|e: OutputEntry| (e.path@, e.text@))
    }

    /// Artifact names are distinct.
    pub open spec fn wf(self) -> bool {
        forall|i: int, j: int|
            0 <= i < j < self.entry_seq().len() ==> #[trigger] self.entry_seq()[i].0 != (
            #[trigger] self.entry_seq()[j].0)
    }

    /// The content stored under an artifact name, if any.
    pub open spec fn lookup(self, k: Seq<char>) -> Option<Seq<char>> {
        assoc_get(self.entry_seq(), k)
    }

    pub open spec fn contains_key(self, k: Seq<char>) -> bool {
        self.lookup(k) is Some
    }

    /// Number of artifacts.
    pub open spec fn count(self) -> nat {
        self.entry_seq().len()
    }

    /// An empty artifact collection.
    pub fn new() -> (r: Outputs)
        ensures
            r.wf(),
            r.count() == 0,
            forall|k: Seq<char>| !#[trigger] r.contains_key(k),
    {
        let r = Outputs { entries: Vec::new() };
        proof {
            assert(r.entry_seq() =~= Seq::empty());
            assert forall|k: Seq<char>| !#[trigger] r.contains_key(k) by {
                assert(r.lookup(k) is None);
            }
        }
        r
    }

    fn position_of(&self, path: &str) -> (r: Option<usize>)
        ensures
            match r {
                Option::Some(i) => i < self.entry_seq().len() && self.entry_seq()[i as int].0
                    == path@ && forall|j: int|
                    0 <= j < i ==> #[trigger] self.entry_seq()[j].0 != path@,
                Option::None => !self.contains_key(path@),
            },
    {
        let mut i: usize = 0;
        while i < self.entries.len()
            invariant
                i <= self.entries@.len(),
                forall|j: int| 0 <= j < i ==> #[trigger] self.entry_seq()[j].0 != path@,
            decreases self.entries@.len() - i,
        {
            if eq_str(self.entries[i].path.as_str(), path) {
                return Option::Some(i);
            }
            i = i + 1;
        }
        proof {
            lemma_assoc_get_none(self.entry_seq(), path@);
        }
        Option::None
    }

    /// Store `text` under `path`, replacing any previous content.
    pub fn insert(&mut self, path: &str, text: String)
        requires
            old(self).wf(),
        ensures
            final(self).wf(),
            final(self).lookup(path@) == Option::Some(text@),
            forall|k: Seq<char>|
                k != path@ ==> #[trigger] final(self).lookup(k) == old(self).lookup(k),
            final(self).count() == if old(self).contains_key(path@) {
                old(self).count()
            } else {
                old(self).count() + 1
            },
    {
        let pos = self.position_of(path);
        match pos {
            Option::Some(i) => {
                let ghost old_seq = self.entry_seq();
                proof {
                    lemma_assoc_get_found(old_seq, path@, i as int);
                }
                let mut entry = self.entries.remove(i);
                entry.text = text;
                self.entries.insert(i, entry);
                proof {
                    assert(self.entry_seq() =~= old_seq.update(
                        i as int,
                        (old_seq[i as int].0, entry.text@),
                    ));
                    lemma_assoc_get_update(old_seq, i as int, entry.text@);
                    assert(forall|j: int|
                        0 <= j < self.entry_seq().len() ==> #[trigger] self.entry_seq()[j].0
                            == old_seq[j].0);
                }
            },
            Option::None => {
                let ghost old_seq = self.entry_seq();
                self.entries.push(OutputEntry { path: String::from_str(path), text });
                proof {
                    assert(self.entry_seq() =~= old_seq.push((path@, text@)));
                    lemma_assoc_get_push(old_seq, path@, text@);
                }
            },
        }
    }

    /// Append `text` to the artifact named `path`, creating it if absent.
    pub fn append_to(&mut self, path: &str, text: &str)
        requires
            old(self).wf(),
        ensures
            final(self).wf(),
            final(self).lookup(path@) == Option::Some(
                match old(self).lookup(path@) {
                    Option::Some(prev) => prev + text@,
                    Option::None => text@,
                },
            ),
            forall|k: Seq<char>|
                k != path@ ==> #[trigger] final(self).lookup(k) == old(self).lookup(k),
            final(self).count() == if old(self).contains_key(path@) {
                old(self).count()
            } else {
                old(self).count() + 1
            },
    {
        let pos = self.position_of(path);
        match pos {
            Option::Some(i) => {
                let ghost old_seq = self.entry_seq();
                proof {
                    lemma_assoc_get_found(old_seq, path@, i as int);
                }
                let mut entry = self.entries.remove(i);
                entry.text.append(text);
                self.entries.insert(i, entry);
                proof {
                    assert(self.entry_seq() =~= old_seq.update(
                        i as int,
                        (old_seq[i as int].0, entry.text@),
                    ));
                    lemma_assoc_get_update(old_seq, i as int, entry.text@);
                }
            },
            Option::None => {
                let ghost old_seq = self.entry_seq();
                let mut content = String::new();
                content.append(text);
                self.entries.push(OutputEntry { path: String::from_str(path), text: content });
                proof {
                    assert(self.entry_seq() =~= old_seq.push((path@, text@)));
                    lemma_assoc_get_push(old_seq, path@, text@);
                }
            },
        }
    }

    /// The content stored under `path`, if any.
    pub fn get(&self, path: &str) -> (r: Option<&String>)
        ensures
            match r {
                Option::Some(s) => self.lookup(path@) == Option::Some(s@),
                Option::None => self.lookup(path@) is None,
            },
    {
        let pos = self.position_of(path);
        match pos {
            Option::Some(i) => {
                proof {
                    lemma_assoc_get_found(self.entry_seq(), path@, i as int);
                }
                Option::Some(&self.entries[i].text)
            },
            Option::None => Option::None,
        }
    }

    /// Whether an artifact named `path` exists.
    pub fn contains(&self, path: &str) -> (r: bool)
        ensures
            r == self.contains_key(path@),
    {
        match self.get(path) {
            Option::Some(_) => true,
            Option::None => false,
        }
    }

    /// Number of artifacts.
    pub fn len(&self) -> (r: usize)
        ensures
            r == self.count(),
    {
        self.entries.len()
    }
}

} // verus!
