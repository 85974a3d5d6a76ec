//! Convention-based structural detectors over ordered field and parameter
//! lists of the intermediate algebra, shared by every emitter: array
//! pointer/length pairing, length/capacity metadata fields, and the
//! completion-status parameter.

use vstd::prelude::*;
use crate::common::is_len_name;
use crate::intermediate::{Field, FieldV, Param, ParamV, Type, TypeV, lemma_type_model_variants};
use crate::strutil::{ends_with_str, eq_str, spec_ends_with, strip_last_chars};

verus! {

/// A length parameter at the intermediate level: a pointer-sized integer
/// whose name marks it as a length.
pub open spec fn is_len_param_spec(p: ParamV) -> bool {
    p.ty is USize && is_len_name(p.name)
}

/// Check the parameter is a length parameter.
pub fn is_len_param(p: &Param) -> (r: bool)
    ensures
        r == is_len_param_spec(p@),
{
    proof {
        lemma_type_model_variants(p.ty);
    }
    let usize_typed = match &p.ty {
        Type::USize => true,
        _ => false,
    };
    if !usize_typed {
        return false;
    }
    let n = p.name.as_str();
    ends_with_str(n, "_len") || eq_str(n, "len") || eq_str(n, "size")
}

/// The completion-status parameter at the intermediate level: named `result`
/// and referring to the designated result type.
pub open spec fn is_result_param_spec(p: ParamV) -> bool {
    p.name == "result"@ && p.ty == TypeV::User("FfiResult"@)
}

/// Check the parameter is the completion-status parameter.
pub fn is_result_param(p: &Param) -> (r: bool)
    ensures
        r == is_result_param_spec(p@),
{
    if !eq_str(p.name.as_str(), "result") {
        return false;
    }
    match &p.ty {
        Type::User(n) => eq_str(n.as_str(), "FfiResult"),
        _ => {
            proof {
                lemma_type_model_variants(p.ty);
            }
            false
        },
    }
}

/// The parameter at `i` starts an array pointer/length pair: a pointer
/// (other than the completion-status parameter) directly followed by a
/// length parameter.
pub open spec fn is_array_pair_at(ps: Seq<ParamV>, i: int) -> bool {
    &&& 0 <= i
    &&& i + 1 < ps.len()
    &&& ps[i].ty is Pointer
    &&& !is_result_param_spec(ps[i])
    &&& is_len_param_spec(ps[i + 1])
}

/// Check the parameter at `i` starts an array pointer/length pair.
pub fn array_pair_at(inputs: &Vec<Param>, i: usize) -> (r: bool)
    requires
        i < inputs@.len(),
    ensures
        r == is_array_pair_at(
            crate::intermediate::params_model(inputs@),
            i as int,
        ),
{
    proof {
        crate::intermediate::lemma_params_model_index(inputs@);
        lemma_type_model_variants(inputs[i as int].ty);
    }
    let p = &inputs[i];
    let ptr_typed = match &p.ty {
        Type::Pointer(_) => true,
        _ => false,
    };
    if !ptr_typed {
        return false;
    }
    if is_result_param(p) {
        return false;
    }
    if inputs.len() - i <= 1 {
        return false;
    }
    is_len_param(&inputs[i + 1])
}

// ----------------------------------------------------------------------------
// Struct-field conventions.

/// The base name of a pointer field: the name with a trailing `_ptr`
/// stripped.
pub open spec fn base_of(name: Seq<char>) -> Seq<char> {
    if spec_ends_with(name, "_ptr"@) {
        name.take(name.len() - 4)
    } else {
        name
    }
}

/// Compute the base name of a pointer field.
pub fn field_base_name(name: &str) -> (r: String)
    ensures
        r@ == base_of(name@),
{
    if ends_with_str(name, "_ptr") {
        proof {
            reveal_strlit("_ptr");
        }
        strip_last_chars(name, 4)
    } else {
        let mut r = String::new();
        r.append(name);
        r
    }
}

/// Whether some field carries the given name.
pub open spec fn has_field_named(fields: Seq<FieldV>, n: Seq<char>) -> bool {
    exists|j: int| 0 <= j < fields.len() && #[trigger] fields[j].name == n
}

/// Look for a field with the given name.
pub fn find_field_named(fields: &Vec<Field>, n: &str) -> (r: bool)
    ensures
        r == has_field_named(fields@.map_values(|f: Field| f@), n@),
{
    let ghost model = fields@.map_values(|f: Field| f@);
    let mut j: usize = 0;
    while j < fields.len()
        invariant
            j <= fields@.len(),
            model == fields@.map_values(|f: Field| f@),
            forall|k: int| 0 <= k < j ==> #[trigger] model[k].name != n@,
        decreases fields@.len() - j,
    {
        if eq_str(fields[j].name.as_str(), n) {
            assert(model[j as int].name == n@);
            return true;
        }
        j = j + 1;
    }
    false
}

/// The field at `i` is a dynamically-sized array by the pair convention: a
/// pointer whose base name, extended with `_len`, names another field.
pub open spec fn is_array_field(fields: Seq<FieldV>, i: int) -> bool {
    &&& 0 <= i < fields.len()
    &&& fields[i].ty is Pointer
    &&& has_field_named(fields, base_of(fields[i].name) + "_len"@)
}

/// The struct contains a dynamically-sized array pattern.
pub open spec fn has_array_field(fields: Seq<FieldV>) -> bool {
    exists|i: int| is_array_field(fields, i)
}

/// Check the field at `i` is a dynamically-sized array by the pair
/// convention.
pub fn array_field_at(fields: &Vec<Field>, i: usize) -> (r: bool)
    requires
        i < fields@.len(),
    ensures
        r == is_array_field(fields@.map_values(|f: Field| f@), i as int),
{
    let ghost model = fields@.map_values(|f: Field| f@);
    proof {
        lemma_type_model_variants(fields[i as int].ty);
    }
    let f = &fields[i];
    let ptr_typed = match &f.ty {
        Type::Pointer(_) => true,
        _ => false,
    };
    if !ptr_typed {
        return false;
    }
    let mut len_name = field_base_name(f.name.as_str());
    len_name.append("_len");
    proof {
        reveal_strlit("_len");
    }
    find_field_named(fields, len_name.as_str())
}

/// A metadata field: a pointer-sized integer whose name ends in `_len` or
/// `_cap`; such fields are absorbed by the array they describe.
pub open spec fn is_meta_field(f: FieldV) -> bool {
    f.ty is USize && (spec_ends_with(f.name, "_len"@) || spec_ends_with(f.name, "_cap"@))
}

/// Check the field is a metadata field.
pub fn meta_field(f: &Field) -> (r: bool)
    ensures
        r == is_meta_field(f@),
{
    proof {
        lemma_type_model_variants(f.ty);
    }
    let usize_typed = match &f.ty {
        Type::USize => true,
        _ => false,
    };
    if !usize_typed {
        return false;
    }
    let n = f.name.as_str();
    ends_with_str(n, "_len") || ends_with_str(n, "_cap")
}

} // verus!
