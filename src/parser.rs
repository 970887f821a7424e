//! The item parser: walks the documentation graph from its root module and
//! builds the item tree.

use vstd::prelude::*;
use crate::json::{JsonValue, member, str_member, str_value, bool_member, array_at, has_non_null};
use crate::text::{join, strs_view, opt_view, chars_of};
use crate::types::{RustType, TypeV};
use crate::resolve::{resolve, resolve_type};
use crate::filter::{impl_excluded, dedup_impls, should_filter_trait_impl, dedup_by_trait_path};
use crate::graph::RawGraph;
use crate::model::{variant_kind_view, Visibility, VisibilityV, Deprecation, DeprecationV, opt_dep_view, GenericParamKind, GenericParamKindV, GenericParam, GenericParamV, Generics, params_view, GenericsV, inputs_view, FunctionSignature, SignatureV, ParsedFunction, FunctionV, functions_view, ParsedField, FieldV, fields_view, ParsedTraitImplItem, TraitImplItemV, impl_items_view, ParsedTraitImpl, TraitImplV, impls_view, ParsedStruct, StructV, VariantKind, VariantKindV, ParsedVariant, VariantV, variants_view, ParsedEnum, EnumV, ParsedTraitItem, TraitItemV, trait_items_view, ParsedTrait, TraitV, ParsedConstant, ConstantV, ParsedMacro, MacroV, ParsedReExport, ReExportV, ParsedModule, ModuleV, ParsedItem, ItemV, item_view, module_view, items_view};

verus! {

/// The kinds of item whose records must carry a name.
#[derive(Debug, Clone, Copy, PartialEq, Eq, Structural)]
pub enum NamedKind {
    Function,
    Struct,
    Enum,
    Variant,
    Trait,
    Constant,
    Macro,
}

/// Why a parse fails.
#[derive(Debug, Clone, Copy, PartialEq, Eq, Structural)]
pub enum ParseError {
    /// The root id names no record, or a record that is not a module.
    RootNotFound,
    /// An item of a kind that needs a name has none.
    MissingName(NamedKind),
}

impl ParseError {
    /// A one-line description of the failure.
    pub fn message(&self) -> (r: String)
        ensures
            r@ == parse_error_text(*self),
    {
        match self {
            ParseError::RootNotFound => String::from_str("Root module not found"),
            ParseError::MissingName(NamedKind::Function) => String::from_str("Function missing name"),
            ParseError::MissingName(NamedKind::Struct) => String::from_str("Struct missing name"),
            ParseError::MissingName(NamedKind::Enum) => String::from_str("Enum missing name"),
            ParseError::MissingName(NamedKind::Variant) => String::from_str("Variant missing name"),
            ParseError::MissingName(NamedKind::Trait) => String::from_str("Trait missing name"),
            ParseError::MissingName(NamedKind::Constant) => String::from_str("Constant missing name"),
            ParseError::MissingName(NamedKind::Macro) => String::from_str("Macro missing name"),
        }
    }
}

pub open spec fn parse_error_text(e: ParseError) -> Seq<char> {
    match e {
        ParseError::RootNotFound => "Root module not found"@,
        ParseError::MissingName(NamedKind::Function) => "Function missing name"@,
        ParseError::MissingName(NamedKind::Struct) => "Struct missing name"@,
        ParseError::MissingName(NamedKind::Enum) => "Enum missing name"@,
        ParseError::MissingName(NamedKind::Variant) => "Variant missing name"@,
        ParseError::MissingName(NamedKind::Trait) => "Trait missing name"@,
        ParseError::MissingName(NamedKind::Constant) => "Constant missing name"@,
        ParseError::MissingName(NamedKind::Macro) => "Macro missing name"@,
    }
}

/// The model of a parse result.
pub open spec fn ok_view<T: View>(r: Result<T, ParseError>) -> Result<T::V, ParseError> {
    match r {
        Ok(x) => Ok(x@),
        Err(e) => Err(e),
    }
}

/// The visibility that a raw visibility marker stands for. Anything not
/// recognised is private.
pub open spec fn visibility_spec(v: Option<JsonValue>) -> VisibilityV {
    match v {
        Some(JsonValue::Str(s)) => if s@ == "public"@ {
            VisibilityV::Public
        } else if s@ == "crate"@ {
            VisibilityV::Crate
        } else {
            VisibilityV::Private
        },
        Some(j) => match member(j, "restricted"@) {
            Some(r) => match str_member(r, "path"@) {
                Some(p) => if p == "crate"@ {
                    VisibilityV::Crate
                } else {
                    VisibilityV::Restricted(p)
                },
                None => VisibilityV::Crate,
            },
            None => VisibilityV::Private,
        },
        None => VisibilityV::Private,
    }
}

/// The deprecation notice held by a raw record, if any.
pub open spec fn deprecation_spec(d: Option<JsonValue>) -> Option<DeprecationV> {
    match d {
        Some(JsonValue::Object(ms)) => Some(
            DeprecationV {
                since: str_member(JsonValue::Object(ms), "since"@),
                note: str_member(JsonValue::Object(ms), "note"@),
            },
        ),
        _ => None,
    }
}

/// The trait paths of the trait bounds in a bound list.
pub open spec fn trait_bounds(bs: Seq<JsonValue>) -> Seq<Seq<char>>
    decreases bs.len(),
{
    if bs.len() == 0 {
        Seq::empty()
    } else {
        let prev = trait_bounds(bs.drop_last());
        match member(bs.last(), "trait_bound"@) {
            Some(tb) => match member(tb, "trait"@) {
                Some(tr) => match str_member(tr, "path"@) {
                    Some(p) => prev.push(p),
                    None => prev,
                },
                None => prev,
            },
            None => prev,
        }
    }
}

/// The trait bounds listed under `key`.
pub open spec fn bounds_at(j: JsonValue, key: Seq<char>) -> Seq<Seq<char>> {
    match array_at(j, key) {
        Some(bs) => trait_bounds(bs@),
        None => Seq::empty(),
    }
}

/// The named type and lifetime parameters of a parameter list.
pub open spec fn generic_params(ps: Seq<JsonValue>) -> Seq<GenericParamV>
    decreases ps.len(),
{
    if ps.len() == 0 {
        Seq::empty()
    } else {
        let prev = generic_params(ps.drop_last());
        let p = ps.last();
        match (str_member(p, "name"@), member(p, "kind"@)) {
            (Some(name), Some(kind)) => match member(kind, "type"@) {
                Some(tk) => prev.push(
                    GenericParamV {
                        name,
                        kind: GenericParamKindV::Type { bounds: bounds_at(tk, "bounds"@) },
                    },
                ),
                None => if member(kind, "lifetime"@) is Some {
                    prev.push(GenericParamV { name, kind: GenericParamKindV::Lifetime })
                } else {
                    prev
                },
            },
            _ => prev,
        }
    }
}

/// `Type: Bound1 + Bound2` for each bound predicate with at least one
/// trait bound. A constrained type that is not a type parameter is written
/// `Self`.
pub open spec fn where_clauses(ps: Seq<JsonValue>) -> Seq<Seq<char>>
    decreases ps.len(),
{
    if ps.len() == 0 {
        Seq::empty()
    } else {
        let prev = where_clauses(ps.drop_last());
        match member(ps.last(), "bound_predicate"@) {
            Some(bp) => match member(bp, "type"@) {
                Some(ti) => {
                    let name = match str_member(ti, "generic"@) {
                        Some(g) => g,
                        None => "Self"@,
                    };
                    let bs = bounds_at(bp, "bounds"@);
                    if bs.len() > 0 {
                        prev.push(name + ": "@ + join(bs, " + "@))
                    } else {
                        prev
                    }
                },
                None => prev,
            },
            None => prev,
        }
    }
}

pub open spec fn empty_generics() -> GenericsV {
    GenericsV { params: Seq::empty(), where_clauses: Seq::empty() }
}

/// The generics that a raw generics record describes.
pub open spec fn generics_spec(g: JsonValue) -> GenericsV {
    GenericsV {
        params: match array_at(g, "params"@) {
            Some(ps) => generic_params(ps@),
            None => Seq::empty(),
        },
        where_clauses: match array_at(g, "where_predicates"@) {
            Some(ps) => where_clauses(ps@),
            None => Seq::empty(),
        },
    }
}

/// The generics under `key`, or none.
pub open spec fn generics_at(j: JsonValue, key: Seq<char>) -> GenericsV {
    match member(j, key) {
        Some(g) => generics_spec(g),
        None => empty_generics(),
    }
}

/// Each `[name, type]` pair of a parameter list, in order.
pub open spec fn inputs_spec(es: Seq<JsonValue>) -> Seq<(Seq<char>, TypeV)>
    decreases es.len(),
{
    if es.len() == 0 {
        Seq::empty()
    } else {
        let prev = inputs_spec(es.drop_last());
        match es.last() {
            JsonValue::Array(pair) => if pair@.len() == 2 && str_value(pair@[0]) is Some {
                prev.push((str_value(pair@[0])->0, resolve(pair@[1])))
            } else {
                prev
            },
            _ => prev,
        }
    }
}

/// The function that a function record `it` with payload `f` describes.
pub open spec fn function_spec(it: JsonValue, f: JsonValue) -> Result<FunctionV, ParseError> {
    match str_member(it, "name"@) {
        None => Err(ParseError::MissingName(NamedKind::Function)),
        Some(name) => Ok(
            FunctionV {
                signature: SignatureV {
                    name,
                    visibility: visibility_spec(member(it, "visibility"@)),
                    generics: generics_at(f, "generics"@),
                    inputs: match member(f, "sig"@) {
                        Some(sig) => match array_at(sig, "inputs"@) {
                            Some(a) => inputs_spec(a@),
                            None => Seq::empty(),
                        },
                        None => Seq::empty(),
                    },
                    output: match member(f, "sig"@) {
                        Some(sig) => match member(sig, "output"@) {
                            Some(o) => resolve(o),
                            None => TypeV::Unit,
                        },
                        None => TypeV::Unit,
                    },
                    is_async: match member(f, "header"@) {
                        Some(h) => bool_member(h, "is_async"@) == Some(true),
                        None => false,
                    },
                },
                docs: str_member(it, "docs"@),
                deprecation: deprecation_spec(member(it, "deprecation"@)),
            },
        ),
    }
}

pub fn opt_str_member(j: &JsonValue, key: &str) -> (r: Option<String>)
    ensures
        opt_view(r) == str_member(*j, key@),
{
    match j.get(key) {
        Some(v) => match v.as_str() {
            Some(s) => Some(s.clone()),
            None => None,
        },
        None => None,
    }
}

fn is_true_member(j: &JsonValue, key: &str) -> (r: bool)
    ensures
        r == (bool_member(*j, key@) == Some(true)),
{
    match j.get(key) {
        Some(v) => match v.as_bool() {
            Some(b) => b,
            None => false,
        },
        None => false,
    }
}

/// Reads a raw visibility marker.
pub fn parse_visibility(v: Option<&JsonValue>) -> (r: Visibility)
    ensures
        r@ == visibility_spec(match v {
            Some(j) => Some(*j),
            None => None,
        }),
{
    match v {
        Some(JsonValue::Str(s)) => {
            if crate::text::str_eq(s.as_str(), "public") {
                Visibility::Public
            } else if crate::text::str_eq(s.as_str(), "crate") {
                Visibility::Crate
            } else {
                Visibility::Private
            }
        },
        Some(j) => match j.get("restricted") {
            Some(rv) => match opt_str_member(rv, "path") {
                Some(p) => if crate::text::str_eq(p.as_str(), "crate") {
                    Visibility::Crate
                } else {
                    Visibility::Restricted(p)
                },
                None => Visibility::Crate,
            },
            None => Visibility::Private,
        },
        None => Visibility::Private,
    }
}

/// Reads a raw deprecation record.
pub fn parse_deprecation(d: Option<&JsonValue>) -> (r: Option<Deprecation>)
    ensures
        opt_dep_view(r) == deprecation_spec(match d {
            Some(j) => Some(*j),
            None => None,
        }),
{
    match d {
        Some(j) => match j {
            JsonValue::Object(_) => Some(
                Deprecation { since: opt_str_member(j, "since"), note: opt_str_member(j, "note") },
            ),
            _ => None,
        },
        None => None,
    }
}

fn parse_trait_bounds(bs: &Vec<JsonValue>) -> (r: Vec<String>)
    ensures
        strs_view(r@) == trait_bounds(bs@),
{
    let mut r: Vec<String> = Vec::new();
    let mut i: usize = 0;
    assert(strs_view(r@) =~= Seq::<Seq<char>>::empty());
    while i < bs.len()
        invariant
            0 <= i <= bs@.len(),
            strs_view(r@) == trait_bounds(bs@.take(i as int)),
        decreases bs@.len() - i,
    {
        assert(bs@.take(i + 1).drop_last() == bs@.take(i as int));
        if let Some(tb) = bs[i].get("trait_bound") {
            if let Some(tr) = tb.get("trait") {
                if let Some(p) = opt_str_member(tr, "path") {
                    assert(strs_view(r@.push(p)) =~= strs_view(r@).push(p@));
                    r.push(p);
                }
            }
        }
        i = i + 1;
    }
    assert(bs@.take(i as int) == bs@);
    r
}

fn parse_bounds_at(j: &JsonValue, key: &str) -> (r: Vec<String>)
    ensures
        strs_view(r@) == bounds_at(*j, key@),
{
    match j.get(key) {
        Some(v) => match v.as_array() {
            Some(bs) => parse_trait_bounds(bs),
            None => {
                assert(strs_view(Seq::<String>::empty()) =~= Seq::<Seq<char>>::empty());
                Vec::new()
            },
        },
        None => {
            assert(strs_view(Seq::<String>::empty()) =~= Seq::<Seq<char>>::empty());
            Vec::new()
        },
    }
}

fn parse_generic_params(ps: &Vec<JsonValue>) -> (r: Vec<GenericParam>)
    ensures
        params_view(r@) == generic_params(ps@),
{
    let mut r: Vec<GenericParam> = Vec::new();
    let mut i: usize = 0;
    assert(params_view(r@) =~= Seq::<GenericParamV>::empty());
    while i < ps.len()
        invariant
            0 <= i <= ps@.len(),
            params_view(r@) == generic_params(ps@.take(i as int)),
        decreases ps@.len() - i,
    {
        assert(ps@.take(i + 1).drop_last() == ps@.take(i as int));
        let p = &ps[i];
        if let Some(name) = opt_str_member(p, "name") {
            if let Some(kind) = p.get("kind") {
                if let Some(tk) = kind.get("type") {
                    let bounds = parse_bounds_at(tk, "bounds");
                    let gp = GenericParam { name, kind: GenericParamKind::Type { bounds } };
                    assert(params_view(r@.push(gp)) =~= params_view(r@).push(gp@));
                    r.push(gp);
                } else if kind.get("lifetime").is_some() {
                    let gp = GenericParam { name, kind: GenericParamKind::Lifetime };
                    assert(params_view(r@.push(gp)) =~= params_view(r@).push(gp@));
                    r.push(gp);
                }
            }
        }
        i = i + 1;
    }
    assert(ps@.take(i as int) == ps@);
    r
}

fn parse_where_clauses(ps: &Vec<JsonValue>) -> (r: Vec<String>)
    ensures
        strs_view(r@) == where_clauses(ps@),
{
    let mut r: Vec<String> = Vec::new();
    let mut i: usize = 0;
    assert(strs_view(r@) =~= Seq::<Seq<char>>::empty());
    while i < ps.len()
        invariant
            0 <= i <= ps@.len(),
            strs_view(r@) == where_clauses(ps@.take(i as int)),
        decreases ps@.len() - i,
    {
        assert(ps@.take(i + 1).drop_last() == ps@.take(i as int));
        if let Some(bp) = ps[i].get("bound_predicate") {
            if let Some(ti) = bp.get("type") {
                let mut clause = match opt_str_member(ti, "generic") {
                    Some(g) => g,
                    None => String::from_str("Self"),
                };
                let bounds = parse_bounds_at(bp, "bounds");
                if bounds.len() > 0 {
                    let ghost name = clause@;
                    clause.append(": ");
                    crate::text::push_joined(&mut clause, &bounds, " + ");
                    assert(clause@ =~= name + ": "@ + join(strs_view(bounds@), " + "@));
                    assert(strs_view(r@.push(clause)) =~= strs_view(r@).push(clause@));
                    r.push(clause);
                }
            }
        }
        i = i + 1;
    }
    assert(ps@.take(i as int) == ps@);
    r
}

/// Resolves a raw generics record into type and lifetime parameters and
/// pre-rendered where-clauses.
pub fn resolve_generics(g: &JsonValue) -> (r: Generics)
    ensures
        r@ == generics_spec(*g),
{
    let params = match g.get("params") {
        Some(v) => match v.as_array() {
            Some(ps) => parse_generic_params(ps),
            None => Vec::new(),
        },
        None => Vec::new(),
    };
    let where_clauses = match g.get("where_predicates") {
        Some(v) => match v.as_array() {
            Some(ps) => parse_where_clauses(ps),
            None => Vec::new(),
        },
        None => Vec::new(),
    };
    let r = Generics { params, where_clauses };
    assert(r@.params =~= generics_spec(*g).params);
    assert(r@.where_clauses =~= generics_spec(*g).where_clauses);
    r
}

fn generics_under(j: &JsonValue, key: &str) -> (r: Generics)
    ensures
        r@ == generics_at(*j, key@),
{
    match j.get(key) {
        Some(g) => resolve_generics(g),
        None => {
            let r = Generics { params: Vec::new(), where_clauses: Vec::new() };
            assert(r@.params =~= empty_generics().params);
            assert(r@.where_clauses =~= empty_generics().where_clauses);
            r
        },
    }
}

fn parse_inputs(es: &Vec<JsonValue>) -> (r: Vec<(String, RustType)>)
    ensures
        inputs_view(r@) == inputs_spec(es@),
{
    let mut r: Vec<(String, RustType)> = Vec::new();
    let mut i: usize = 0;
    assert(inputs_view(r@) =~= Seq::<(Seq<char>, TypeV)>::empty());
    while i < es.len()
        invariant
            0 <= i <= es@.len(),
            inputs_view(r@) == inputs_spec(es@.take(i as int)),
        decreases es@.len() - i,
    {
        assert(es@.take(i + 1).drop_last() == es@.take(i as int));
        if let JsonValue::Array(pair) = &es[i] {
            if pair.len() == 2 {
                if let Some(name) = pair[0].as_str() {
                    let ty = resolve_type(&pair[1]);
                    let entry = (name.clone(), ty);
                    assert(inputs_view(r@.push(entry)) =~= inputs_view(r@).push((entry.0@, entry.1@)));
                    r.push(entry);
                }
            }
        }
        i = i + 1;
    }
    assert(es@.take(i as int) == es@);
    r
}

/// Parses a function record `it` whose payload is `f`. The record must
/// carry a name.
pub fn parse_function(it: &JsonValue, f: &JsonValue) -> (r: Result<ParsedFunction, ParseError>)
    ensures
        ok_view(r) == function_spec(*it, *f),
{
    let name = match opt_str_member(it, "name") {
        Some(n) => n,
        None => {
            return Err(ParseError::MissingName(NamedKind::Function));
        },
    };
    let visibility = parse_visibility(it.get("visibility"));
    let generics = generics_under(f, "generics");
    let mut inputs: Vec<(String, RustType)> = Vec::new();
    let mut output = RustType::Unit;
    if let Some(sig) = f.get("sig") {
        if let Some(iv) = sig.get("inputs") {
            if let Some(es) = iv.as_array() {
                inputs = parse_inputs(es);
            }
        }
        if let Some(o) = sig.get("output") {
            output = resolve_type(o);
        }
    }
    proof {
        assert(inputs_view(Seq::<(String, RustType)>::empty()) =~= Seq::<(Seq<char>, TypeV)>::empty());
    }
    let is_async = match f.get("header") {
        Some(h) => is_true_member(h, "is_async"),
        None => false,
    };
    let signature = FunctionSignature { name, visibility, generics, inputs, output, is_async };
    let r = ParsedFunction {
        signature,
        docs: opt_str_member(it, "docs"),
        deprecation: parse_deprecation(it.get("deprecation")),
    };
    Ok(r)
}

} // verus!

verus! {

/// The record that an id value names in `idx`, if any.
pub open spec fn lookup_spec(idx: Map<u64, JsonValue>, idj: JsonValue) -> Option<JsonValue> {
    match idj {
        JsonValue::UInt(n) => if idx.contains_key(n) {
            Some(idx[n])
        } else {
            None
        },
        _ => None,
    }
}

/// The payload of kind `kind` of a record.
pub open spec fn payload(it: JsonValue, kind: Seq<char>) -> Option<JsonValue> {
    match member(it, "inner"@) {
        Some(inn) => member(inn, kind),
        None => None,
    }
}

/// The elements of the array under `key`, or none.
pub open spec fn ids_at(j: JsonValue, key: Seq<char>) -> Seq<JsonValue> {
    match array_at(j, key) {
        Some(a) => a@,
        None => Seq::empty(),
    }
}

pub open spec fn opt_seq<T>(o: Option<T>) -> Seq<T> {
    match o {
        Some(x) => seq![x],
        None => Seq::empty(),
    }
}

/// `p` followed by the parsed sequence, or the error.
pub open spec fn prepend<T>(p: Seq<T>, r: Result<Seq<T>, ParseError>) -> Result<Seq<T>, ParseError> {
    match r {
        Ok(s) => Ok(p + s),
        Err(e) => Err(e),
    }
}

proof fn lemma_prepend_assoc<T>(p: Seq<T>, o: Seq<T>, x: Result<Seq<T>, ParseError>)
    ensures
        prepend(p, prepend(o, x)) == prepend(p + o, x),
{
    if let Ok(s) = x {
        assert(p + (o + s) =~= (p + o) + s);
    }
}

proof fn lemma_prepend_empty<T>(p: Seq<T>)
    ensures
        prepend(p, Ok(Seq::<T>::empty())) == Ok::<Seq<T>, ParseError>(p),
{
    assert(p + Seq::<T>::empty() =~= p);
}

/// A record that describes a trait-implementation member.
pub open spec fn impl_item_spec(ii: JsonValue) -> Result<Option<TraitImplItemV>, ParseError> {
    match payload(ii, "assoc_type"@) {
        Some(at) => Ok(
            Some(
                TraitImplItemV::AssocType {
                    name: match str_member(ii, "name"@) {
                        Some(n) => n,
                        None => "unknown"@,
                    },
                    ty: match member(at, "type"@) {
                        Some(t) => resolve(t),
                        None => TypeV::Unknown,
                    },
                },
            ),
        ),
        None => match payload(ii, "function"@) {
            Some(f) => match function_spec(ii, f) {
                Ok(fv) => Ok(Some(TraitImplItemV::Method(fv))),
                Err(e) => Err(e),
            },
            None => Ok(None),
        },
    }
}

/// The members of a trait implementation, in order.
pub open spec fn impl_items_spec(idx: Map<u64, JsonValue>, ids: Seq<JsonValue>) -> Result<
    Seq<TraitImplItemV>,
    ParseError,
>
    decreases ids.len(),
{
    if ids.len() == 0 {
        Ok(Seq::empty())
    } else {
        let head = match lookup_spec(idx, ids[0]) {
            Some(ii) => impl_item_spec(ii),
            None => Ok(None),
        };
        match head {
            Err(e) => Err(e),
            Ok(h) => prepend(opt_seq(h), impl_items_spec(idx, ids.drop_first())),
        }
    }
}

/// The trait implementation that record `it` with payload `imp` describes;
/// an implementation without a trait describes none.
pub open spec fn trait_impl_spec(idx: Map<u64, JsonValue>, it: JsonValue, imp: JsonValue) -> Result<
    Option<TraitImplV>,
    ParseError,
> {
    if has_non_null(imp, "trait"@) {
        let tr = member(imp, "trait"@)->0;
        match impl_items_spec(idx, ids_at(imp, "items"@)) {
            Err(e) => Err(e),
            Ok(items) => Ok(
                Some(
                    TraitImplV {
                        trait_path: match str_member(tr, "path"@) {
                            Some(p) => p,
                            None => "unknown"@,
                        },
                        for_type: match member(imp, "for"@) {
                            Some(t) => resolve(t),
                            None => TypeV::Unknown,
                        },
                        items,
                        docs: str_member(it, "docs"@),
                    },
                ),
            ),
        }
    } else {
        Ok(None)
    }
}

/// The functions among the members of an inherent implementation.
pub open spec fn methods_spec(idx: Map<u64, JsonValue>, ids: Seq<JsonValue>) -> Result<
    Seq<FunctionV>,
    ParseError,
>
    decreases ids.len(),
{
    if ids.len() == 0 {
        Ok(Seq::empty())
    } else {
        let head = match lookup_spec(idx, ids[0]) {
            Some(mi) => match payload(mi, "function"@) {
                Some(f) => match function_spec(mi, f) {
                    Ok(fv) => Ok(Some(fv)),
                    Err(e) => Err(e),
                },
                None => Ok(None),
            },
            None => Ok(None),
        };
        match head {
            Err(e) => Err(e),
            Ok(h) => prepend(opt_seq(h), methods_spec(idx, ids.drop_first())),
        }
    }
}

/// What one implementation record adds to a struct: its methods if it is
/// inherent, the implementation itself if it is a trait implementation
/// that is shown, nothing otherwise.
pub open spec fn impl_contribution(idx: Map<u64, JsonValue>, ii: JsonValue) -> Result<
    (Seq<FunctionV>, Seq<TraitImplV>),
    ParseError,
> {
    match payload(ii, "impl"@) {
        None => Ok((Seq::empty(), Seq::empty())),
        Some(imp) => if has_non_null(imp, "trait"@) {
            if impl_excluded(ii, imp) {
                Ok((Seq::empty(), Seq::empty()))
            } else {
                match trait_impl_spec(idx, ii, imp) {
                    Err(e) => Err(e),
                    Ok(t) => Ok((Seq::empty(), opt_seq(t))),
                }
            }
        } else {
            match methods_spec(idx, ids_at(imp, "items"@)) {
                Err(e) => Err(e),
                Ok(ms) => Ok((ms, Seq::empty())),
            }
        },
    }
}

/// The methods and the shown trait implementations (before de-duplication)
/// that a list of implementation ids contributes, in encounter order.
pub open spec fn struct_impls_spec(idx: Map<u64, JsonValue>, ids: Seq<JsonValue>) -> Result<
    (Seq<FunctionV>, Seq<TraitImplV>),
    ParseError,
>
    decreases ids.len(),
{
    if ids.len() == 0 {
        Ok((Seq::empty(), Seq::empty()))
    } else {
        let head = match lookup_spec(idx, ids[0]) {
            Some(ii) => impl_contribution(idx, ii),
            None => Ok((Seq::empty(), Seq::empty())),
        };
        match head {
            Err(e) => Err(e),
            Ok((m, t)) => match struct_impls_spec(idx, ids.drop_first()) {
                Err(e) => Err(e),
                Ok((m2, t2)) => Ok((m + m2, t + t2)),
            },
        }
    }
}

/// The fields of a struct payload.
pub open spec fn fields_spec(idx: Map<u64, JsonValue>, ids: Seq<JsonValue>) -> Seq<FieldV>
    decreases ids.len(),
{
    if ids.len() == 0 {
        Seq::empty()
    } else {
        let prev = fields_spec(idx, ids.drop_last());
        match lookup_spec(idx, ids.last()) {
            Some(fi) => match payload(fi, "struct_field"@) {
                Some(ft) => prev.push(
                    FieldV {
                        name: match str_member(fi, "name"@) {
                            Some(n) => n,
                            None => "unnamed"@,
                        },
                        visibility: visibility_spec(member(fi, "visibility"@)),
                        field_type: resolve(ft),
                        docs: str_member(fi, "docs"@),
                        deprecation: deprecation_spec(member(fi, "deprecation"@)),
                    },
                ),
                None => prev,
            },
            None => prev,
        }
    }
}

/// The ids of the declared fields of a struct payload.
pub open spec fn field_ids(s: JsonValue) -> Seq<JsonValue> {
    match member(s, "kind"@) {
        Some(k) => match member(k, "plain"@) {
            Some(p) => ids_at(p, "fields"@),
            None => Seq::empty(),
        },
        None => Seq::empty(),
    }
}

/// The struct that record `it` with payload `s` describes.
pub open spec fn struct_spec(idx: Map<u64, JsonValue>, it: JsonValue, s: JsonValue) -> Result<
    StructV,
    ParseError,
> {
    match str_member(it, "name"@) {
        None => Err(ParseError::MissingName(NamedKind::Struct)),
        Some(name) => match struct_impls_spec(idx, ids_at(s, "impls"@)) {
            Err(e) => Err(e),
            Ok((ms, ts)) => Ok(
                StructV {
                    name,
                    visibility: visibility_spec(member(it, "visibility"@)),
                    generics: generics_at(s, "generics"@),
                    docs: str_member(it, "docs"@),
                    deprecation: deprecation_spec(member(it, "deprecation"@)),
                    fields: fields_spec(idx, field_ids(s)),
                    methods: ms,
                    trait_impls: crate::filter::dedup_impls(ts),
                },
            ),
        },
    }
}

} // verus!

verus! {

fn payload_of<'b>(it: &'b JsonValue, kind: &str) -> (r: Option<&'b JsonValue>)
    ensures
        match r {
            Some(v) => payload(*it, kind@) == Some(*v),
            None => payload(*it, kind@) is None,
        },
{
    match it.get("inner") {
        Some(inn) => inn.get(kind),
        None => None,
    }
}

fn array_under<'b>(j: &'b JsonValue, key: &str) -> (r: &'b [JsonValue])
    ensures
        r@ == ids_at(*j, key@),
{
    match j.get(key) {
        Some(v) => match v.as_array() {
            Some(a) => a.as_slice(),
            None => &[],
        },
        None => &[],
    }
}

/// Parses the documentation graph into the item tree.
pub struct ItemParser<'a> {
    pub graph: &'a RawGraph,
}

impl<'a> ItemParser<'a> {
    pub fn new(graph: &'a RawGraph) -> (r: ItemParser<'a>)
        ensures
            r.graph == graph,
    {
        ItemParser { graph }
    }

    pub open spec fn idx(&self) -> Map<u64, JsonValue> {
        self.graph.index@
    }

    fn lookup_json(&self, idj: &JsonValue) -> (r: Option<&'a JsonValue>)
        ensures
            match r {
                Some(v) => lookup_spec(self.idx(), *idj) == Some(*v),
                None => lookup_spec(self.idx(), *idj) is None,
            },
    {
        match idj {
            JsonValue::UInt(n) => self.graph.lookup(*n),
            _ => None,
        }
    }

    fn parse_trait_impl_item(&self, ii: &JsonValue) -> (r: Result<Option<ParsedTraitImplItem>, ParseError>)
        ensures
            match (r, impl_item_spec(*ii)) {
                (Ok(Some(x)), Ok(Some(v))) => x@ == v,
                (Ok(None), Ok(None)) => true,
                (Err(e), Err(e2)) => e == e2,
                _ => false,
            },
    {
        if let Some(at) = payload_of(ii, "assoc_type") {
            let name = match opt_str_member(ii, "name") {
                Some(n) => n,
                None => String::from_str("unknown"),
            };
            let ty = match at.get("type") {
                Some(t) => resolve_type(t),
                None => RustType::Unknown,
            };
            return Ok(Some(ParsedTraitImplItem::AssocType { name, ty }));
        }
        if let Some(f) = payload_of(ii, "function") {
            return match parse_function(ii, f) {
                Ok(func) => Ok(Some(ParsedTraitImplItem::Method(func))),
                Err(e) => Err(e),
            };
        }
        Ok(None)
    }

    fn parse_trait_impl_items(&self, ids: &[JsonValue]) -> (r: Result<Vec<ParsedTraitImplItem>, ParseError>)
        ensures
            match r {
                Ok(v) => impl_items_spec(self.idx(), ids@) == Ok::<Seq<TraitImplItemV>, ParseError>(impl_items_view(v@)),
                Err(e) => impl_items_spec(self.idx(), ids@) == Err::<Seq<TraitImplItemV>, ParseError>(e),
            },
    {
        let mut r: Vec<ParsedTraitImplItem> = Vec::new();
        let mut i: usize = 0;
        assert(ids@.skip(0) == ids@);
        assert(impl_items_view(r@) =~= Seq::<TraitImplItemV>::empty());
        assert(prepend(Seq::<TraitImplItemV>::empty(), impl_items_spec(self.idx(), ids@)) == impl_items_spec(self.idx(), ids@)) by {
            if let Ok(s) = impl_items_spec(self.idx(), ids@) {
                assert(Seq::<TraitImplItemV>::empty() + s =~= s);
            }
        }
        while i < ids.len()
            invariant
                0 <= i <= ids@.len(),
                impl_items_spec(self.idx(), ids@) == prepend(impl_items_view(r@), impl_items_spec(self.idx(), ids@.skip(i as int))),
            decreases ids@.len() - i,
        {
            assert(ids@.skip(i as int)[0] == ids@[i as int]);
            assert(ids@.skip(i as int).drop_first() == ids@.skip(i + 1));
            let head = match self.lookup_json(&ids[i]) {
                Some(ii) => self.parse_trait_impl_item(ii),
                None => Ok(None),
            };
            match head {
                Err(e) => {
                    return Err(e);
                },
                Ok(h) => {
                    let ghost hv = match &h {
                        Some(x) => Some(x@),
                        None => None::<TraitImplItemV>,
                    };
                    proof {
                        lemma_prepend_assoc(impl_items_view(r@), opt_seq(hv), impl_items_spec(self.idx(), ids@.skip(i + 1)));
                    }
                    if let Some(x) = h {
                        assert(impl_items_view(r@.push(x)) =~= impl_items_view(r@) + opt_seq(hv));
                        r.push(x);
                    } else {
                        assert(impl_items_view(r@) =~= impl_items_view(r@) + opt_seq(hv));
                    }
                },
            }
            i = i + 1;
        }
        proof {
            lemma_prepend_empty(impl_items_view(r@));
        }
        Ok(r)
    }

    /// Parses the trait implementation that record `it` with payload `imp`
    /// describes; an implementation without a trait gives `None`.
    pub fn parse_trait_impl(&self, it: &JsonValue, imp: &JsonValue) -> (r: Result<Option<ParsedTraitImpl>, ParseError>)
        ensures
            match (r, trait_impl_spec(self.idx(), *it, *imp)) {
                (Ok(Some(x)), Ok(Some(v))) => x@ == v,
                (Ok(None), Ok(None)) => true,
                (Err(e), Err(e2)) => e == e2,
                _ => false,
            },
    {
        let tr = match imp.get("trait") {
            Some(t) => t,
            None => {
                return Ok(None);
            },
        };
        if tr.is_null() {
            return Ok(None);
        }
        let items = match self.parse_trait_impl_items(array_under(imp, "items")) {
            Ok(v) => v,
            Err(e) => {
                return Err(e);
            },
        };
        let trait_path = match opt_str_member(tr, "path") {
            Some(p) => p,
            None => String::from_str("unknown"),
        };
        let for_type = match imp.get("for") {
            Some(t) => resolve_type(t),
            None => RustType::Unknown,
        };
        Ok(Some(ParsedTraitImpl { trait_path, for_type, items, docs: opt_str_member(it, "docs") }))
    }

    fn parse_methods(&self, ids: &[JsonValue]) -> (r: Result<Vec<ParsedFunction>, ParseError>)
        ensures
            match r {
                Ok(v) => methods_spec(self.idx(), ids@) == Ok::<Seq<FunctionV>, ParseError>(functions_view(v@)),
                Err(e) => methods_spec(self.idx(), ids@) == Err::<Seq<FunctionV>, ParseError>(e),
            },
    {
        let mut r: Vec<ParsedFunction> = Vec::new();
        let mut i: usize = 0;
        assert(ids@.skip(0) == ids@);
        assert(functions_view(r@) =~= Seq::<FunctionV>::empty());
        assert(prepend(Seq::<FunctionV>::empty(), methods_spec(self.idx(), ids@)) == methods_spec(self.idx(), ids@)) by {
            if let Ok(s) = methods_spec(self.idx(), ids@) {
                assert(Seq::<FunctionV>::empty() + s =~= s);
            }
        }
        while i < ids.len()
            invariant
                0 <= i <= ids@.len(),
                methods_spec(self.idx(), ids@) == prepend(functions_view(r@), methods_spec(self.idx(), ids@.skip(i as int))),
            decreases ids@.len() - i,
        {
            assert(ids@.skip(i as int)[0] == ids@[i as int]);
            assert(ids@.skip(i as int).drop_first() == ids@.skip(i + 1));
            let head: Result<Option<ParsedFunction>, ParseError> = match self.lookup_json(&ids[i]) {
                Some(mi) => match payload_of(mi, "function") {
                    Some(f) => match parse_function(mi, f) {
                        Ok(func) => Ok(Some(func)),
                        Err(e) => Err(e),
                    },
                    None => Ok(None),
                },
                None => Ok(None),
            };
            match head {
                Err(e) => {
                    return Err(e);
                },
                Ok(h) => {
                    let ghost hv = match &h {
                        Some(x) => Some(x@),
                        None => None::<FunctionV>,
                    };
                    proof {
                        lemma_prepend_assoc(functions_view(r@), opt_seq(hv), methods_spec(self.idx(), ids@.skip(i + 1)));
                    }
                    if let Some(x) = h {
                        assert(functions_view(r@.push(x)) =~= functions_view(r@) + opt_seq(hv));
                        r.push(x);
                    } else {
                        assert(functions_view(r@) =~= functions_view(r@) + opt_seq(hv));
                    }
                },
            }
            i = i + 1;
        }
        proof {
            lemma_prepend_empty(functions_view(r@));
        }
        Ok(r)
    }

    fn parse_fields(&self, ids: &[JsonValue]) -> (r: Vec<ParsedField>)
        ensures
            fields_view(r@) == fields_spec(self.idx(), ids@),
    {
        let mut r: Vec<ParsedField> = Vec::new();
        let mut i: usize = 0;
        assert(fields_view(r@) =~= Seq::<FieldV>::empty());
        while i < ids.len()
            invariant
                0 <= i <= ids@.len(),
                fields_view(r@) == fields_spec(self.idx(), ids@.take(i as int)),
            decreases ids@.len() - i,
        {
            assert(ids@.take(i + 1).drop_last() == ids@.take(i as int));
            if let Some(fi) = self.lookup_json(&ids[i]) {
                if let Some(ft) = payload_of(fi, "struct_field") {
                    let name = match opt_str_member(fi, "name") {
                        Some(n) => n,
                        None => String::from_str("unnamed"),
                    };
                    let field = ParsedField {
                        name,
                        visibility: parse_visibility(fi.get("visibility")),
                        field_type: resolve_type(ft),
                        docs: opt_str_member(fi, "docs"),
                        deprecation: parse_deprecation(fi.get("deprecation")),
                    };
                    assert(fields_view(r@.push(field)) =~= fields_view(r@).push(field@));
                    r.push(field);
                }
            }
            i = i + 1;
        }
        assert(ids@.take(i as int) == ids@);
        r
    }

    /// The ids of the declared fields of a struct payload.
    fn field_id_list<'b>(s: &'b JsonValue) -> (r: &'b [JsonValue])
        ensures
            r@ == field_ids(*s),
    {
        match s.get("kind") {
            Some(k) => match k.get("plain") {
                Some(p) => array_under(p, "fields"),
                None => &[],
            },
            None => &[],
        }
    }

    /// Parses a struct record `it` with payload `s`: its fields, the
    /// methods of its inherent implementations, and its shown trait
    /// implementations, first one per trait path.
    pub fn parse_struct(&self, it: &JsonValue, s: &JsonValue) -> (r: Result<ParsedStruct, ParseError>)
        ensures
            ok_view(r) == struct_spec(self.idx(), *it, *s),
    {
        let name = match opt_str_member(it, "name") {
            Some(n) => n,
            None => {
                return Err(ParseError::MissingName(NamedKind::Struct));
            },
        };
        let ids = array_under(s, "impls");
        let mut methods: Vec<ParsedFunction> = Vec::new();
        let mut candidates: Vec<ParsedTraitImpl> = Vec::new();
        let ghost idx = self.idx();
        let mut i: usize = 0;
        assert(ids@.skip(0) == ids@);
        assert(functions_view(methods@) =~= Seq::<FunctionV>::empty());
        assert(impls_view(candidates@) =~= Seq::<TraitImplV>::empty());
        assert(struct_impls_spec(idx, ids@) == match struct_impls_spec(idx, ids@.skip(0)) {
            Ok((m, t)) => Ok((functions_view(methods@) + m, impls_view(candidates@) + t)),
            Err(e) => Err(e),
        }) by {
            if let Ok((m, t)) = struct_impls_spec(idx, ids@) {
                assert(Seq::<FunctionV>::empty() + m =~= m);
                assert(Seq::<TraitImplV>::empty() + t =~= t);
            }
        }
        while i < ids.len()
            invariant
                0 <= i <= ids@.len(),
                idx == self.idx(),
                str_member(*it, "name"@) == Some(name@),
                ids@ == ids_at(*s, "impls"@),
                struct_impls_spec(idx, ids@) == match struct_impls_spec(idx, ids@.skip(i as int)) {
                    Ok((m, t)) => Ok((functions_view(methods@) + m, impls_view(candidates@) + t)),
                    Err(e) => Err(e),
                },
            decreases ids@.len() - i,
        {
            assert(ids@.skip(i as int)[0] == ids@[i as int]);
            assert(ids@.skip(i as int).drop_first() == ids@.skip(i + 1));
            let ghost pm = functions_view(methods@);
            let ghost pt = impls_view(candidates@);
            let ghost rest = struct_impls_spec(idx, ids@.skip(i + 1));
            let ghost head = match lookup_spec(idx, ids@[i as int]) {
                Some(ii) => impl_contribution(idx, ii),
                None => Ok((Seq::<FunctionV>::empty(), Seq::<TraitImplV>::empty())),
            };
            let ghost mut gm = Seq::<FunctionV>::empty();
            let ghost mut gt = Seq::<TraitImplV>::empty();
            if let Some(ii) = self.lookup_json(&ids[i]) {
                if let Some(imp) = payload_of(ii, "impl") {
                    let is_trait_impl = match imp.get("trait") {
                        Some(t) => !t.is_null(),
                        None => false,
                    };
                    if is_trait_impl {
                        if !should_filter_trait_impl(ii, imp) {
                            match self.parse_trait_impl(ii, imp) {
                                Err(e) => {
                                    assert(head == Err::<(Seq<FunctionV>, Seq<TraitImplV>), ParseError>(e));
                                    return Err(e);
                                },
                                Ok(Some(t)) => {
                                    proof {
                                        gt = seq![t@];
                                    }
                                    assert(impls_view(candidates@.push(t)) =~= pt + seq![t@]);
                                    candidates.push(t);
                                },
                                Ok(None) => {},
                            }
                        }
                    } else {
                        match self.parse_methods(array_under(imp, "items")) {
                            Err(e) => {
                                assert(head == Err::<(Seq<FunctionV>, Seq<TraitImplV>), ParseError>(e));
                                return Err(e);
                            },
                            Ok(ms) => {
                                let ghost msv = functions_view(ms@);
                                proof {
                                    gm = msv;
                                }
                                let mut ms = ms;
                                methods.append(&mut ms);
                                assert(functions_view(methods@) =~= pm + msv);
                            },
                        }
                    }
                }
            }
            assert(head == Ok::<(Seq<FunctionV>, Seq<TraitImplV>), ParseError>((gm, gt)));
            assert(functions_view(methods@) =~= pm + gm);
            assert(impls_view(candidates@) =~= pt + gt);
            assert(struct_impls_spec(idx, ids@) == match rest {
                Ok((m, t)) => Ok((functions_view(methods@) + m, impls_view(candidates@) + t)),
                Err(e) => Err(e),
            }) by {
                if let Ok((m, t)) = rest {
                    assert(pm + (gm + m) =~= (pm + gm) + m);
                    assert(pt + (gt + t) =~= (pt + gt) + t);
                }
            }
            i = i + 1;
        }
        assert(struct_impls_spec(idx, ids@.skip(i as int)) == Ok::<(Seq<FunctionV>, Seq<TraitImplV>), ParseError>((Seq::<FunctionV>::empty(), Seq::<TraitImplV>::empty())));
        assert(functions_view(methods@) + Seq::<FunctionV>::empty() =~= functions_view(methods@));
        assert(impls_view(candidates@) + Seq::<TraitImplV>::empty() =~= impls_view(candidates@));
        let fields = self.parse_fields(Self::field_id_list(s));
        let trait_impls = dedup_by_trait_path(candidates);
        Ok(
            ParsedStruct {
                name,
                visibility: parse_visibility(it.get("visibility")),
                generics: generics_under(s, "generics"),
                docs: opt_str_member(it, "docs"),
                deprecation: parse_deprecation(it.get("deprecation")),
                fields,
                methods,
                trait_impls,
            },
        )
    }
}

} // verus!

verus! {

/// The types of the fields of a tuple variant.
pub open spec fn tuple_field_types(idx: Map<u64, JsonValue>, ids: Seq<JsonValue>) -> Seq<TypeV>
    decreases ids.len(),
{
    if ids.len() == 0 {
        Seq::empty()
    } else {
        let prev = tuple_field_types(idx, ids.drop_last());
        match lookup_spec(idx, ids.last()) {
            Some(fi) => match payload(fi, "struct_field"@) {
                Some(ft) => prev.push(resolve(ft)),
                None => prev,
            },
            None => prev,
        }
    }
}

/// The names and types of the fields of a struct variant.
pub open spec fn named_field_types(idx: Map<u64, JsonValue>, ids: Seq<JsonValue>) -> Seq<(Seq<char>, TypeV)>
    decreases ids.len(),
{
    if ids.len() == 0 {
        Seq::empty()
    } else {
        let prev = named_field_types(idx, ids.drop_last());
        match lookup_spec(idx, ids.last()) {
            Some(fi) => match payload(fi, "struct_field"@) {
                Some(ft) => prev.push(
                    (
                        match str_member(fi, "name"@) {
                            Some(n) => n,
                            None => "unknown"@,
                        },
                        resolve(ft),
                    ),
                ),
                None => prev,
            },
            None => prev,
        }
    }
}

/// The shape of a variant record.
pub open spec fn variant_kind_spec(idx: Map<u64, JsonValue>, vi: JsonValue) -> VariantKindV {
    match payload(vi, "variant"@) {
        Some(v) => match member(v, "kind"@) {
            Some(k) => if member(k, "plain"@) is Some {
                VariantKindV::Unit
            } else if member(k, "tuple"@) is Some {
                VariantKindV::Tuple(tuple_field_types(idx, ids_at(k, "tuple"@)))
            } else if member(k, "struct"@) is Some {
                VariantKindV::Struct(
                    named_field_types(idx, ids_at(member(k, "struct"@)->0, "fields"@)),
                )
            } else {
                VariantKindV::Unit
            },
            None => VariantKindV::Unit,
        },
        None => VariantKindV::Unit,
    }
}

/// The variant that a variant record describes. It must carry a name.
pub open spec fn variant_spec(idx: Map<u64, JsonValue>, vi: JsonValue) -> Result<VariantV, ParseError> {
    match str_member(vi, "name"@) {
        None => Err(ParseError::MissingName(NamedKind::Variant)),
        Some(name) => Ok(
            VariantV { name, kind: variant_kind_spec(idx, vi), docs: str_member(vi, "docs"@) },
        ),
    }
}

/// The variants named by a list of ids, in declaration order.
pub open spec fn variants_spec(idx: Map<u64, JsonValue>, ids: Seq<JsonValue>) -> Result<
    Seq<VariantV>,
    ParseError,
>
    decreases ids.len(),
{
    if ids.len() == 0 {
        Ok(Seq::empty())
    } else {
        let head = match lookup_spec(idx, ids[0]) {
            Some(vi) => match variant_spec(idx, vi) {
                Ok(v) => Ok(Some(v)),
                Err(e) => Err(e),
            },
            None => Ok(None),
        };
        match head {
            Err(e) => Err(e),
            Ok(h) => prepend(opt_seq(h), variants_spec(idx, ids.drop_first())),
        }
    }
}

/// The enum that record `it` with payload `e` describes.
pub open spec fn enum_spec(idx: Map<u64, JsonValue>, it: JsonValue, e: JsonValue) -> Result<
    EnumV,
    ParseError,
> {
    match str_member(it, "name"@) {
        None => Err(ParseError::MissingName(NamedKind::Enum)),
        Some(name) => match variants_spec(idx, ids_at(e, "variants"@)) {
            Err(err) => Err(err),
            Ok(variants) => Ok(
                EnumV {
                    name,
                    visibility: visibility_spec(member(it, "visibility"@)),
                    generics: generics_at(e, "generics"@),
                    variants,
                    docs: str_member(it, "docs"@),
                    deprecation: deprecation_spec(member(it, "deprecation"@)),
                },
            ),
        },
    }
}

/// A record that describes a trait member.
pub open spec fn trait_item_spec(ti: JsonValue) -> Result<Option<TraitItemV>, ParseError> {
    let name = match str_member(ti, "name"@) {
        Some(n) => n,
        None => "unknown"@,
    };
    match payload(ti, "assoc_type"@) {
        Some(at) => Ok(
            Some(
                TraitItemV::AssocType {
                    name,
                    bounds: bounds_at(at, "bounds"@),
                    docs: str_member(ti, "docs"@),
                },
            ),
        ),
        None => match payload(ti, "function"@) {
            Some(f) => match function_spec(ti, f) {
                Ok(fv) => Ok(Some(TraitItemV::Method(fv))),
                Err(e) => Err(e),
            },
            None => match payload(ti, "assoc_const"@) {
                Some(ac) => Ok(
                    Some(
                        TraitItemV::AssocConst {
                            name,
                            ty: match member(ac, "type"@) {
                                Some(t) => resolve(t),
                                None => TypeV::Unknown,
                            },
                            docs: str_member(ti, "docs"@),
                        },
                    ),
                ),
                None => Ok(None),
            },
        },
    }
}

/// The members of a trait, in order.
pub open spec fn trait_items_spec(idx: Map<u64, JsonValue>, ids: Seq<JsonValue>) -> Result<
    Seq<TraitItemV>,
    ParseError,
>
    decreases ids.len(),
{
    if ids.len() == 0 {
        Ok(Seq::empty())
    } else {
        let head = match lookup_spec(idx, ids[0]) {
            Some(ti) => trait_item_spec(ti),
            None => Ok(None),
        };
        match head {
            Err(e) => Err(e),
            Ok(h) => prepend(opt_seq(h), trait_items_spec(idx, ids.drop_first())),
        }
    }
}

/// The trait that record `it` with payload `t` describes.
pub open spec fn trait_spec(idx: Map<u64, JsonValue>, it: JsonValue, t: JsonValue) -> Result<
    TraitV,
    ParseError,
> {
    match str_member(it, "name"@) {
        None => Err(ParseError::MissingName(NamedKind::Trait)),
        Some(name) => match trait_items_spec(idx, ids_at(t, "items"@)) {
            Err(e) => Err(e),
            Ok(items) => Ok(
                TraitV {
                    name,
                    visibility: visibility_spec(member(it, "visibility"@)),
                    generics: generics_at(t, "generics"@),
                    items,
                    docs: str_member(it, "docs"@),
                    deprecation: deprecation_spec(member(it, "deprecation"@)),
                },
            ),
        },
    }
}

/// The constant that record `it` with payload `c` describes.
pub open spec fn constant_spec(it: JsonValue, c: JsonValue) -> Result<ConstantV, ParseError> {
    match str_member(it, "name"@) {
        None => Err(ParseError::MissingName(NamedKind::Constant)),
        Some(name) => Ok(
            ConstantV {
                name,
                visibility: visibility_spec(member(it, "visibility"@)),
                ty: match member(c, "type"@) {
                    Some(t) => resolve(t),
                    None => TypeV::Unknown,
                },
                docs: str_member(it, "docs"@),
                deprecation: deprecation_spec(member(it, "deprecation"@)),
            },
        ),
    }
}

/// The first position at or after `from` that holds `c`.
pub open spec fn index_of_from(s: Seq<char>, c: char, from: int) -> Option<int>
    decreases s.len() - from,
{
    if from < 0 || from >= s.len() {
        None
    } else if s[from] == c {
        Some(from)
    } else {
        index_of_from(s, c, from + 1)
    }
}

/// `macro_rules! name(params)`, the parameters being the text between the
/// first `(` of the macro's rules and the first `)` after it.
pub open spec fn macro_signature(name: Seq<char>, m: JsonValue) -> Seq<char> {
    match str_value(m) {
        Some(text) => match index_of_from(text, '(', 0) {
            Some(st) => match index_of_from(text, ')', st + 1) {
                Some(en) => "macro_rules! "@ + name + "("@ + text.subrange(st + 1, en) + ")"@,
                None => "macro_rules! "@ + name + "(...)"@,
            },
            None => "macro_rules! "@ + name,
        },
        None => "macro_rules! "@ + name,
    }
}

/// The macro that record `it` with payload `m` describes.
pub open spec fn macro_spec(it: JsonValue, m: JsonValue) -> Result<MacroV, ParseError> {
    match str_member(it, "name"@) {
        None => Err(ParseError::MissingName(NamedKind::Macro)),
        Some(name) => Ok(
            MacroV { name, signature: macro_signature(name, m), docs: str_member(it, "docs"@) },
        ),
    }
}

/// The re-export that record `it` with payload `u` describes.
pub open spec fn use_spec(it: JsonValue, u: JsonValue) -> Option<ReExportV> {
    match u {
        JsonValue::Object(_) => {
            let source = match str_member(u, "source"@) {
                Some(s) => s,
                None => "unknown"@,
            };
            Some(
                ReExportV {
                    path: source,
                    name: match str_member(u, "name"@) {
                        Some(n) => n,
                        None => crate::filter::simple_name(source),
                    },
                    docs: str_member(it, "docs"@),
                },
            )
        },
        _ => None,
    }
}

/// The module that record `it` with payload `m` describes; `fuel` bounds
/// how deep nested modules are followed.
pub open spec fn module_spec(idx: Map<u64, JsonValue>, it: JsonValue, m: JsonValue, fuel: nat) -> Result<
    ModuleV,
    ParseError,
>
    decreases fuel, 0int, 0int,
{
    let items = if fuel == 0 {
        Ok(Seq::empty())
    } else {
        module_items_spec(idx, ids_at(m, "items"@), (fuel - 1) as nat)
    };
    match items {
        Err(e) => Err(e),
        Ok(is) => Ok(
            ModuleV {
                name: match str_member(it, "name"@) {
                    Some(n) => n,
                    None => "unknown"@,
                },
                visibility: visibility_spec(member(it, "visibility"@)),
                items: is,
                docs: str_member(it, "docs"@),
            },
        ),
    }
}

/// The item that a payload of kind `k` with value `v` of record `it`
/// gives, if `k` is a kind that is shown.
pub open spec fn kind_spec(idx: Map<u64, JsonValue>, it: JsonValue, k: Seq<char>, v: JsonValue, fuel: nat) -> Result<Option<ItemV>, ParseError>
    decreases fuel, 0int, 1int,
{
if k == "function"@ {
        match function_spec(it, v) {
            Ok(x) => Ok(Some(ItemV::Function(x))),
            Err(e) => Err(e),
        }
    } else if k == "struct"@ {
        match struct_spec(idx, it, v) {
            Ok(x) => Ok(Some(ItemV::Struct(x))),
            Err(e) => Err(e),
        }
    } else if k == "enum"@ {
        match enum_spec(idx, it, v) {
            Ok(x) => Ok(Some(ItemV::Enum(x))),
            Err(e) => Err(e),
        }
    } else if k == "trait"@ {
        match trait_spec(idx, it, v) {
            Ok(x) => Ok(Some(ItemV::Trait(x))),
            Err(e) => Err(e),
        }
    } else if k == "constant"@ {
        match constant_spec(it, v) {
            Ok(x) => Ok(Some(ItemV::Constant(x))),
            Err(e) => Err(e),
        }
    } else if k == "module"@ {
        match module_spec(idx, it, v, fuel) {
            Ok(x) => Ok(Some(ItemV::Module(x))),
            Err(e) => Err(e),
        }
    } else if k == "macro"@ {
        match macro_spec(it, v) {
            Ok(x) => Ok(Some(ItemV::Macro(x))),
            Err(e) => Err(e),
        }
    } else if k == "impl"@ {
        match trait_impl_spec(idx, it, v) {
            Ok(Some(x)) => Ok(Some(ItemV::TraitImpl(x))),
            Ok(None) => Ok(None),
            Err(e) => Err(e),
        }
    } else if k == "use"@ {
        match use_spec(it, v) {
            Some(x) => Ok(Some(ItemV::ReExport(x))),
            None => Ok(None),
        }
    } else {
        Ok(None)
    }
}

/// The item that the first recognised payload kind among `ms` gives.
pub open spec fn members_spec(
    idx: Map<u64, JsonValue>,
    it: JsonValue,
    ms: Seq<(String, JsonValue)>,
    fuel: nat,
) -> Result<Option<ItemV>, ParseError>
    decreases fuel, 1int, ms.len(),
{
    if ms.len() == 0 {
        Ok(None)
    } else {
        match kind_spec(idx, it, ms[0].0@, ms[0].1, fuel) {
            Err(e) => Err(e),
            Ok(Some(x)) => Ok(Some(x)),
            Ok(None) => members_spec(idx, it, ms.drop_first(), fuel),
        }
    }
}

/// The item that an id names: nothing for a missing record or a kind that
/// is not shown.
pub open spec fn item_spec(idx: Map<u64, JsonValue>, idj: JsonValue, fuel: nat) -> Result<
    Option<ItemV>,
    ParseError,
>
    decreases fuel, 2int, 0int,
{
    match lookup_spec(idx, idj) {
        None => Ok(None),
        Some(it) => match member(it, "inner"@) {
            Some(JsonValue::Object(ms)) => members_spec(idx, it, ms@, fuel),
            _ => Ok(None),
        },
    }
}

/// The items that a module's item ids name, in order.
pub open spec fn module_items_spec(idx: Map<u64, JsonValue>, ids: Seq<JsonValue>, fuel: nat) -> Result<
    Seq<ItemV>,
    ParseError,
>
    decreases fuel, 3int, ids.len(),
{
    if ids.len() == 0 {
        Ok(Seq::empty())
    } else {
        match item_spec(idx, ids[0], fuel) {
            Err(e) => Err(e),
            Ok(h) => prepend(opt_seq(h), module_items_spec(idx, ids.drop_first(), fuel)),
        }
    }
}

/// The tree of a whole graph: the root record must be a module.
pub open spec fn crate_spec(idx: Map<u64, JsonValue>, root: u64) -> Result<ModuleV, ParseError> {
    if !idx.contains_key(root) {
        Err(ParseError::RootNotFound)
    } else {
        let r = idx[root];
        match payload(r, "module"@) {
            None => Err(ParseError::RootNotFound),
            Some(m) => match module_items_spec(idx, ids_at(m, "items"@), idx.len()) {
                Err(e) => Err(e),
                Ok(is) => Ok(
                    ModuleV {
                        name: match str_member(r, "name"@) {
                            Some(n) => n,
                            None => "unknown"@,
                        },
                        visibility: VisibilityV::Public,
                        items: is,
                        docs: str_member(r, "docs"@),
                    },
                ),
            },
        }
    }
}

} // verus!

verus! {

fn find_char(cs: &Vec<char>, c: char, from: usize) -> (r: Option<usize>)
    ensures
        match r {
            Some(k) => index_of_from(cs@, c, from as int) == Some(k as int),
            None => index_of_from(cs@, c, from as int) is None,
        },
{
    let mut k = from;
    while k < cs.len()
        invariant
            from <= k,
            index_of_from(cs@, c, from as int) == index_of_from(cs@, c, k as int),
        decreases cs@.len() - k,
    {
        if cs[k] == c {
            return Some(k);
        }
        k = k + 1;
    }
    None
}

/// `macro_rules! name(params)` for a macro named `name` whose rules are `m`.
pub fn macro_signature_text(name: &String, m: &JsonValue) -> (r: String)
    ensures
        r@ == macro_signature(name@, *m),
{
    let mut out = String::from_str("macro_rules! ");
    out.append(name.as_str());
    let ghost head = out@;
    if let Some(text) = m.as_str() {
        let cs = chars_of(text.as_str());
        if let Some(st) = find_char(&cs, '(', 0) {
            proof {
                lemma_index_of_from_bounds(cs@, '(', 0);
            }
            let n = cs.len();
            assert(st < n);
            if let Some(en) = find_char(&cs, ')', st + 1) {
                proof {
                    assert(index_of_from(cs@, ')', st + 1) == Some(en as int));
                    lemma_index_of_from_bounds(cs@, ')', st + 1);
                }
                out.append("(");
                let mut k = st + 1;
                let ghost mid = out@;
                while k < en
                    invariant
                        st + 1 <= k <= en,
                        en < cs@.len(),
                        out@ == mid + cs@.subrange(st + 1, k as int),
                    decreases en - k,
                {
                    crate::text::push_char(&mut out, cs[k]);
                    assert(cs@.subrange(st + 1, k + 1) == cs@.subrange(st + 1, k as int).push(cs@[k as int]));
                    k = k + 1;
                }
                out.append(")");
                assert(out@ =~= macro_signature(name@, *m));
            } else {
                out.append("(...)");
                assert(out@ =~= macro_signature(name@, *m));
            }
        }
    }
    out
}

proof fn lemma_index_of_from_bounds(s: Seq<char>, c: char, from: int)
    ensures
        index_of_from(s, c, from) matches Some(k) ==> from <= k < s.len() && s[k] == c,
    decreases s.len() - from,
{
    if 0 <= from < s.len() && s[from] != c {
        lemma_index_of_from_bounds(s, c, from + 1);
    }
}

impl<'a> ItemParser<'a> {
    fn parse_tuple_fields(&self, ids: &[JsonValue]) -> (r: Vec<RustType>)
        ensures
            crate::types::types_view(r@) == tuple_field_types(self.idx(), ids@),
    {
        let mut r: Vec<RustType> = Vec::new();
        let mut i: usize = 0;
        while i < ids.len()
            invariant
                0 <= i <= ids@.len(),
                crate::types::types_view(r@) == tuple_field_types(self.idx(), ids@.take(i as int)),
            decreases ids@.len() - i,
        {
            assert(ids@.take(i + 1).drop_last() == ids@.take(i as int));
            if let Some(fi) = self.lookup_json(&ids[i]) {
                if let Some(ft) = payload_of(fi, "struct_field") {
                    let t = resolve_type(ft);
                    assert(r@.push(t).drop_last() == r@);
                    r.push(t);
                }
            }
            i = i + 1;
        }
        assert(ids@.take(i as int) == ids@);
        r
    }

    fn parse_named_fields(&self, ids: &[JsonValue]) -> (r: Vec<(String, RustType)>)
        ensures
            inputs_view(r@) == named_field_types(self.idx(), ids@),
    {
        let mut r: Vec<(String, RustType)> = Vec::new();
        let mut i: usize = 0;
        assert(inputs_view(r@) =~= Seq::<(Seq<char>, TypeV)>::empty());
        while i < ids.len()
            invariant
                0 <= i <= ids@.len(),
                inputs_view(r@) == named_field_types(self.idx(), ids@.take(i as int)),
            decreases ids@.len() - i,
        {
            assert(ids@.take(i + 1).drop_last() == ids@.take(i as int));
            if let Some(fi) = self.lookup_json(&ids[i]) {
                if let Some(ft) = payload_of(fi, "struct_field") {
                    let name = match opt_str_member(fi, "name") {
                        Some(n) => n,
                        None => String::from_str("unknown"),
                    };
                    let entry = (name, resolve_type(ft));
                    assert(inputs_view(r@.push(entry)) =~= inputs_view(r@).push((entry.0@, entry.1@)));
                    r.push(entry);
                }
            }
            i = i + 1;
        }
        assert(ids@.take(i as int) == ids@);
        r
    }

    fn parse_variant_kind(&self, vi: &JsonValue) -> (r: VariantKind)
        ensures
            variant_kind_view(r) == variant_kind_spec(self.idx(), *vi),
    {
        let v = match payload_of(vi, "variant") {
            Some(v) => v,
            None => {
                return VariantKind::Unit;
            },
        };
        let k = match v.get("kind") {
            Some(k) => k,
            None => {
                return VariantKind::Unit;
            },
        };
        if k.get("plain").is_some() {
            VariantKind::Unit
        } else if k.get("tuple").is_some() {
            VariantKind::Tuple(self.parse_tuple_fields(array_under(k, "tuple")))
        } else if let Some(sv) = k.get("struct") {
            VariantKind::Struct(self.parse_named_fields(array_under(sv, "fields")))
        } else {
            VariantKind::Unit
        }
    }

    /// Parses a variant record. It must carry a name.
    pub fn parse_variant(&self, vi: &JsonValue) -> (r: Result<ParsedVariant, ParseError>)
        ensures
            ok_view(r) == variant_spec(self.idx(), *vi),
    {
        let name = match opt_str_member(vi, "name") {
            Some(n) => n,
            None => {
                return Err(ParseError::MissingName(NamedKind::Variant));
            },
        };
        let kind = self.parse_variant_kind(vi);
        Ok(ParsedVariant { name, kind, docs: opt_str_member(vi, "docs") })
    }

    fn parse_variants(&self, ids: &[JsonValue]) -> (r: Result<Vec<ParsedVariant>, ParseError>)
        ensures
            match r {
                Ok(v) => variants_spec(self.idx(), ids@) == Ok::<Seq<VariantV>, ParseError>(variants_view(v@)),
                Err(e) => variants_spec(self.idx(), ids@) == Err::<Seq<VariantV>, ParseError>(e),
            },
    {
        let mut r: Vec<ParsedVariant> = Vec::new();
        let mut i: usize = 0;
        assert(ids@.skip(0) == ids@);
        assert(variants_view(r@) =~= Seq::<VariantV>::empty());
        assert(prepend(Seq::<VariantV>::empty(), variants_spec(self.idx(), ids@)) == variants_spec(self.idx(), ids@)) by {
            if let Ok(s) = variants_spec(self.idx(), ids@) {
                assert(Seq::<VariantV>::empty() + s =~= s);
            }
        }
        while i < ids.len()
            invariant
                0 <= i <= ids@.len(),
                variants_spec(self.idx(), ids@) == prepend(variants_view(r@), variants_spec(self.idx(), ids@.skip(i as int))),
            decreases ids@.len() - i,
        {
            assert(ids@.skip(i as int)[0] == ids@[i as int]);
            assert(ids@.skip(i as int).drop_first() == ids@.skip(i + 1));
            let head: Result<Option<ParsedVariant>, ParseError> = match self.lookup_json(&ids[i]) {
                Some(vi) => match self.parse_variant(vi) {
                    Ok(v) => Ok(Some(v)),
                    Err(e) => Err(e),
                },
                None => Ok(None),
            };
            match head {
                Err(e) => {
                    return Err(e);
                },
                Ok(h) => {
                    let ghost hv = match &h {
                        Some(x) => Some(x@),
                        None => None::<VariantV>,
                    };
                    proof {
                        lemma_prepend_assoc(variants_view(r@), opt_seq(hv), variants_spec(self.idx(), ids@.skip(i + 1)));
                    }
                    if let Some(x) = h {
                        assert(variants_view(r@.push(x)) =~= variants_view(r@) + opt_seq(hv));
                        r.push(x);
                    } else {
                        assert(variants_view(r@) =~= variants_view(r@) + opt_seq(hv));
                    }
                },
            }
            i = i + 1;
        }
        proof {
            lemma_prepend_empty(variants_view(r@));
        }
        Ok(r)
    }

    /// Parses an enum record `it` with payload `e`: its variants in
    /// declaration order.
    pub fn parse_enum(&self, it: &JsonValue, e: &JsonValue) -> (r: Result<ParsedEnum, ParseError>)
        ensures
            ok_view(r) == enum_spec(self.idx(), *it, *e),
    {
        let name = match opt_str_member(it, "name") {
            Some(n) => n,
            None => {
                return Err(ParseError::MissingName(NamedKind::Enum));
            },
        };
        let variants = match self.parse_variants(array_under(e, "variants")) {
            Ok(v) => v,
            Err(err) => {
                return Err(err);
            },
        };
        Ok(
            ParsedEnum {
                name,
                visibility: parse_visibility(it.get("visibility")),
                generics: generics_under(e, "generics"),
                variants,
                docs: opt_str_member(it, "docs"),
                deprecation: parse_deprecation(it.get("deprecation")),
            },
        )
    }

    /// Parses a trait member record.
    pub fn parse_trait_item(&self, ti: &JsonValue) -> (r: Result<Option<ParsedTraitItem>, ParseError>)
        ensures
            match (r, trait_item_spec(*ti)) {
                (Ok(Some(x)), Ok(Some(v))) => x@ == v,
                (Ok(None), Ok(None)) => true,
                (Err(e), Err(e2)) => e == e2,
                _ => false,
            },
    {
        if let Some(at) = payload_of(ti, "assoc_type") {
            let name = match opt_str_member(ti, "name") {
                Some(n) => n,
                None => String::from_str("unknown"),
            };
            let bounds = parse_bounds_at(at, "bounds");
            return Ok(Some(ParsedTraitItem::AssocType { name, bounds, docs: opt_str_member(ti, "docs") }));
        }
        if let Some(f) = payload_of(ti, "function") {
            return match parse_function(ti, f) {
                Ok(func) => Ok(Some(ParsedTraitItem::Method(func))),
                Err(e) => Err(e),
            };
        }
        if let Some(ac) = payload_of(ti, "assoc_const") {
            let name = match opt_str_member(ti, "name") {
                Some(n) => n,
                None => String::from_str("unknown"),
            };
            let ty = match ac.get("type") {
                Some(t) => resolve_type(t),
                None => RustType::Unknown,
            };
            return Ok(Some(ParsedTraitItem::AssocConst { name, ty, docs: opt_str_member(ti, "docs") }));
        }
        Ok(None)
    }

    fn parse_trait_items(&self, ids: &[JsonValue]) -> (r: Result<Vec<ParsedTraitItem>, ParseError>)
        ensures
            match r {
                Ok(v) => trait_items_spec(self.idx(), ids@) == Ok::<Seq<TraitItemV>, ParseError>(trait_items_view(v@)),
                Err(e) => trait_items_spec(self.idx(), ids@) == Err::<Seq<TraitItemV>, ParseError>(e),
            },
    {
        let mut r: Vec<ParsedTraitItem> = Vec::new();
        let mut i: usize = 0;
        assert(ids@.skip(0) == ids@);
        assert(trait_items_view(r@) =~= Seq::<TraitItemV>::empty());
        assert(prepend(Seq::<TraitItemV>::empty(), trait_items_spec(self.idx(), ids@)) == trait_items_spec(self.idx(), ids@)) by {
            if let Ok(s) = trait_items_spec(self.idx(), ids@) {
                assert(Seq::<TraitItemV>::empty() + s =~= s);
            }
        }
        while i < ids.len()
            invariant
                0 <= i <= ids@.len(),
                trait_items_spec(self.idx(), ids@) == prepend(trait_items_view(r@), trait_items_spec(self.idx(), ids@.skip(i as int))),
            decreases ids@.len() - i,
        {
            assert(ids@.skip(i as int)[0] == ids@[i as int]);
            assert(ids@.skip(i as int).drop_first() == ids@.skip(i + 1));
            let head = match self.lookup_json(&ids[i]) {
                Some(ti) => self.parse_trait_item(ti),
                None => Ok(None),
            };
            match head {
                Err(e) => {
                    return Err(e);
                },
                Ok(h) => {
                    let ghost hv = match &h {
                        Some(x) => Some(x@),
                        None => None::<TraitItemV>,
                    };
                    proof {
                        lemma_prepend_assoc(trait_items_view(r@), opt_seq(hv), trait_items_spec(self.idx(), ids@.skip(i + 1)));
                    }
                    if let Some(x) = h {
                        assert(trait_items_view(r@.push(x)) =~= trait_items_view(r@) + opt_seq(hv));
                        r.push(x);
                    } else {
                        assert(trait_items_view(r@) =~= trait_items_view(r@) + opt_seq(hv));
                    }
                },
            }
            i = i + 1;
        }
        proof {
            lemma_prepend_empty(trait_items_view(r@));
        }
        Ok(r)
    }

    /// Parses a trait record `it` with payload `t`.
    pub fn parse_trait(&self, it: &JsonValue, t: &JsonValue) -> (r: Result<ParsedTrait, ParseError>)
        ensures
            ok_view(r) == trait_spec(self.idx(), *it, *t),
    {
        let name = match opt_str_member(it, "name") {
            Some(n) => n,
            None => {
                return Err(ParseError::MissingName(NamedKind::Trait));
            },
        };
        let items = match self.parse_trait_items(array_under(t, "items")) {
            Ok(v) => v,
            Err(e) => {
                return Err(e);
            },
        };
        Ok(
            ParsedTrait {
                name,
                visibility: parse_visibility(it.get("visibility")),
                generics: generics_under(t, "generics"),
                items,
                docs: opt_str_member(it, "docs"),
                deprecation: parse_deprecation(it.get("deprecation")),
            },
        )
    }

    /// Parses a constant record `it` with payload `c`.
    pub fn parse_constant(&self, it: &JsonValue, c: &JsonValue) -> (r: Result<ParsedConstant, ParseError>)
        ensures
            ok_view(r) == constant_spec(*it, *c),
    {
        let name = match opt_str_member(it, "name") {
            Some(n) => n,
            None => {
                return Err(ParseError::MissingName(NamedKind::Constant));
            },
        };
        let ty = match c.get("type") {
            Some(t) => resolve_type(t),
            None => RustType::Unknown,
        };
        Ok(
            ParsedConstant {
                name,
                visibility: parse_visibility(it.get("visibility")),
                ty,
                docs: opt_str_member(it, "docs"),
                deprecation: parse_deprecation(it.get("deprecation")),
            },
        )
    }

    /// Parses a macro record `it` whose rules are `m`.
    pub fn parse_macro(&self, it: &JsonValue, m: &JsonValue) -> (r: Result<ParsedMacro, ParseError>)
        ensures
            ok_view(r) == macro_spec(*it, *m),
    {
        let name = match opt_str_member(it, "name") {
            Some(n) => n,
            None => {
                return Err(ParseError::MissingName(NamedKind::Macro));
            },
        };
        let signature = macro_signature_text(&name, m);
        Ok(ParsedMacro { name, signature, docs: opt_str_member(it, "docs") })
    }

    /// Parses a re-export record `it` with payload `u`.
    pub fn parse_use(&self, it: &JsonValue, u: &JsonValue) -> (r: Option<ParsedReExport>)
        ensures
            match r {
                Some(x) => use_spec(*it, *u) == Some(x@),
                None => use_spec(*it, *u) is None,
            },
    {
        match u {
            JsonValue::Object(_) => {
                let source = match opt_str_member(u, "source") {
                    Some(s) => s,
                    None => String::from_str("unknown"),
                };
                let name = match opt_str_member(u, "name") {
                    Some(n) => n,
                    None => crate::filter::simple_name_of(source.as_str()),
                };
                Some(ParsedReExport { path: source, name, docs: opt_str_member(it, "docs") })
            },
            _ => None,
        }
    }
}

} // verus!

verus! {

proof fn lemma_items_view_push(s: Seq<ParsedItem>, x: ParsedItem)
    ensures
        items_view(s.push(x)) == items_view(s).push(item_view(x)),
{
    assert(s.push(x).drop_last() == s);
}

pub open spec fn opt_item_view(h: Option<ParsedItem>) -> Option<ItemV> {
    match h {
        Some(x) => Some(item_view(x)),
        None => None,
    }
}

impl<'a> ItemParser<'a> {
    /// Parses a module record `it` with payload `m`; nested modules are
    /// followed while `fuel` lasts.
    pub fn parse_module(&self, it: &JsonValue, m: &JsonValue, fuel: usize) -> (r: Result<ParsedModule, ParseError>)
        ensures
            match (r, module_spec(self.idx(), *it, *m, fuel as nat)) {
                (Ok(x), Ok(v)) => module_view(x) == v,
                (Err(e), Err(e2)) => e == e2,
                _ => false,
            },
        decreases fuel, 0int,
    {
        let items = if fuel == 0 {
            Vec::new()
        } else {
            match self.parse_module_items(array_under(m, "items"), fuel - 1) {
                Ok(v) => v,
                Err(e) => {
                    return Err(e);
                },
            }
        };
        proof {
            if fuel == 0 {
                assert(items_view(items@) =~= Seq::<ItemV>::empty());
            }
        }
        let name = match opt_str_member(it, "name") {
            Some(n) => n,
            None => String::from_str("unknown"),
        };
        Ok(
            ParsedModule {
                name,
                visibility: parse_visibility(it.get("visibility")),
                items,
                docs: opt_str_member(it, "docs"),
            },
        )
    }

    fn parse_kind(&self, it: &JsonValue, k: &String, v: &JsonValue, fuel: usize) -> (r: Result<Option<ParsedItem>, ParseError>)
        ensures
            match r {
                Ok(h) => kind_spec(self.idx(), *it, k@, *v, fuel as nat) == Ok::<Option<ItemV>, ParseError>(opt_item_view(h)),
                Err(e) => kind_spec(self.idx(), *it, k@, *v, fuel as nat) == Err::<Option<ItemV>, ParseError>(e),
            },
        decreases fuel, 1int,
    {
        let kind = k.as_str();
        if crate::text::str_eq(kind, "function") {
            match parse_function(it, v) {
                Ok(x) => Ok(Some(ParsedItem::Function(x))),
                Err(e) => Err(e),
            }
        } else if crate::text::str_eq(kind, "struct") {
            match self.parse_struct(it, v) {
                Ok(x) => Ok(Some(ParsedItem::Struct(x))),
                Err(e) => Err(e),
            }
        } else if crate::text::str_eq(kind, "enum") {
            match self.parse_enum(it, v) {
                Ok(x) => Ok(Some(ParsedItem::Enum(x))),
                Err(e) => Err(e),
            }
        } else if crate::text::str_eq(kind, "trait") {
            match self.parse_trait(it, v) {
                Ok(x) => Ok(Some(ParsedItem::Trait(x))),
                Err(e) => Err(e),
            }
        } else if crate::text::str_eq(kind, "constant") {
            match self.parse_constant(it, v) {
                Ok(x) => Ok(Some(ParsedItem::Constant(x))),
                Err(e) => Err(e),
            }
        } else if crate::text::str_eq(kind, "module") {
            match self.parse_module(it, v, fuel) {
                Ok(x) => Ok(Some(ParsedItem::Module(x))),
                Err(e) => Err(e),
            }
        } else if crate::text::str_eq(kind, "macro") {
            match self.parse_macro(it, v) {
                Ok(x) => Ok(Some(ParsedItem::Macro(x))),
                Err(e) => Err(e),
            }
        } else if crate::text::str_eq(kind, "impl") {
            match self.parse_trait_impl(it, v) {
                Ok(Some(x)) => Ok(Some(ParsedItem::TraitImpl(x))),
                Ok(None) => Ok(None),
                Err(e) => Err(e),
            }
        } else if crate::text::str_eq(kind, "use") {
            match self.parse_use(it, v) {
                Some(x) => Ok(Some(ParsedItem::ReExport(x))),
                None => Ok(None),
            }
        } else {
            Ok(None)
        }
    }

    /// Parses the item that an id names: nothing for a missing record or a
    /// kind that is not shown.
    pub fn parse_item(&self, idj: &JsonValue, fuel: usize) -> (r: Result<Option<ParsedItem>, ParseError>)
        ensures
            match r {
                Ok(h) => item_spec(self.idx(), *idj, fuel as nat) == Ok::<Option<ItemV>, ParseError>(opt_item_view(h)),
                Err(e) => item_spec(self.idx(), *idj, fuel as nat) == Err::<Option<ItemV>, ParseError>(e),
            },
        decreases fuel, 2int,
    {
        let it = match self.lookup_json(idj) {
            Some(it) => it,
            None => {
                return Ok(None);
            },
        };
        let ms = match it.get("inner") {
            Some(JsonValue::Object(ms)) => ms,
            _ => {
                return Ok(None);
            },
        };
        let ghost idx = self.idx();
        let mut i: usize = 0;
        assert(ms@.skip(0) == ms@);
        while i < ms.len()
            invariant
                0 <= i <= ms@.len(),
                idx == self.idx(),
                item_spec(idx, *idj, fuel as nat) == members_spec(idx, *it, ms@.skip(i as int), fuel as nat),
            decreases ms@.len() - i,
        {
            let ghost rest = ms@.skip(i as int);
            assert(rest[0] == ms@[i as int]);
            assert(rest.drop_first() == ms@.skip(i + 1));
            let head = self.parse_kind(it, &ms[i].0, &ms[i].1, fuel);
            match head {
                Err(e) => {
                    return Err(e);
                },
                Ok(Some(x)) => {
                    return Ok(Some(x));
                },
                Ok(None) => {},
            }
            i = i + 1;
        }
        Ok(None)
    }

    /// Parses the items that a module's item ids name, in order.
    pub fn parse_module_items(&self, ids: &[JsonValue], fuel: usize) -> (r: Result<Vec<ParsedItem>, ParseError>)
        ensures
            match r {
                Ok(v) => module_items_spec(self.idx(), ids@, fuel as nat) == Ok::<Seq<ItemV>, ParseError>(items_view(v@)),
                Err(e) => module_items_spec(self.idx(), ids@, fuel as nat) == Err::<Seq<ItemV>, ParseError>(e),
            },
        decreases fuel, 3int,
    {
        let mut r: Vec<ParsedItem> = Vec::new();
        let mut i: usize = 0;
        assert(ids@.skip(0) == ids@);
        assert(items_view(r@) =~= Seq::<ItemV>::empty());
        assert(prepend(Seq::<ItemV>::empty(), module_items_spec(self.idx(), ids@, fuel as nat)) == module_items_spec(self.idx(), ids@, fuel as nat)) by {
            if let Ok(s) = module_items_spec(self.idx(), ids@, fuel as nat) {
                assert(Seq::<ItemV>::empty() + s =~= s);
            }
        }
        while i < ids.len()
            invariant
                0 <= i <= ids@.len(),
                module_items_spec(self.idx(), ids@, fuel as nat) == prepend(items_view(r@), module_items_spec(self.idx(), ids@.skip(i as int), fuel as nat)),
            decreases ids@.len() - i,
        {
            assert(ids@.skip(i as int)[0] == ids@[i as int]);
            assert(ids@.skip(i as int).drop_first() == ids@.skip(i + 1));
            match self.parse_item(&ids[i], fuel) {
                Err(e) => {
                    return Err(e);
                },
                Ok(h) => {
                    let ghost hv = opt_item_view(match &h {
                        Some(x) => Some(*x),
                        None => None,
                    });
                    proof {
                        lemma_prepend_assoc(items_view(r@), opt_seq(hv), module_items_spec(self.idx(), ids@.skip(i + 1), fuel as nat));
                    }
                    if let Some(x) = h {
                        proof {
                            lemma_items_view_push(r@, x);
                        }
                        assert(items_view(r@).push(item_view(x)) =~= items_view(r@) + opt_seq(hv));
                        r.push(x);
                    } else {
                        assert(items_view(r@) =~= items_view(r@) + opt_seq(hv));
                    }
                },
            }
            i = i + 1;
        }
        proof {
            lemma_prepend_empty(items_view(r@));
        }
        Ok(r)
    }

    /// Parses the whole graph, starting at its root module.
    pub fn parse_crate(&self) -> (r: Result<ParsedModule, ParseError>)
        ensures
            ok_view(r) == crate_spec(self.idx(), self.graph.root),
    {
        let root = match self.graph.lookup(self.graph.root) {
            Some(r) => r,
            None => {
                return Err(ParseError::RootNotFound);
            },
        };
        let m = match payload_of(root, "module") {
            Some(m) => m,
            None => {
                return Err(ParseError::RootNotFound);
            },
        };
        let fuel = self.graph.index.len();
        let items = match self.parse_module_items(array_under(m, "items"), fuel) {
            Ok(v) => v,
            Err(e) => {
                return Err(e);
            },
        };
        let name = match opt_str_member(root, "name") {
            Some(n) => n,
            None => String::from_str("unknown"),
        };
        Ok(ParsedModule { name, visibility: Visibility::Public, items, docs: opt_str_member(root, "docs") })
    }
}

} // verus!
