//! Resolution of raw type expressions into [`RustType`] values.

use vstd::prelude::*;
use crate::json::{JsonValue, member, str_member, bool_member, array_at, lemma_member_decreases, lemma_array_at_decreases};
use crate::text::{join, strs_view, starts_with, replace_all, decimal, chars_of, matches_at, replace_all_chars, str_eq, push_decimal};
use crate::types::{RustType, TypeV, type_text, type_view, types_view, lemma_types_view_len};

verus! {

/// The plain path that a macro-hygiene path (one that begins with
/// `$crate::`) stands for.
pub open spec fn normalize_path(p: Seq<char>) -> Seq<char> {
    if p == "$crate::fmt::Formatter"@ {
        "std::fmt::Formatter"@
    } else if p == "$crate::fmt::Result"@ {
        "std::fmt::Result"@
    } else if p == "$crate::clone::Clone"@ {
        "Clone"@
    } else if p == "$crate::cmp::PartialEq"@ {
        "PartialEq"@
    } else if starts_with(p, "$crate::"@) {
        replace_all(p, "$crate::"@, "std::"@)
    } else {
        p
    }
}

/// The size written for an array type: a string as it is, an integer in
/// decimal, and `N` where nothing usable is given.
pub open spec fn array_size(len: Option<JsonValue>) -> Seq<char> {
    match len {
        Some(JsonValue::Str(s)) => s@,
        Some(JsonValue::UInt(n)) => decimal(n as nat),
        Some(JsonValue::Number(t)) => t@,
        _ => "N"@,
    }
}

/// The list under `angle_bracketed.<key>` of the `args` member of `v`.
pub open spec fn angle_list(v: JsonValue, key: Seq<char>) -> Option<Vec<JsonValue>> {
    match member(v, "args"@) {
        Some(a) => match member(a, "angle_bracketed"@) {
            Some(ab) => array_at(ab, key),
            None => None,
        },
        None => None,
    }
}

pub proof fn lemma_angle_list_decreases(v: JsonValue, key: Seq<char>)
    ensures
        angle_list(v, key) matches Some(es) ==> decreases_to!(v => es) && decreases_to!(v => es@),
{
    lemma_member_decreases(v, "args"@);
    if let Some(a) = member(v, "args"@) {
        lemma_member_decreases(a, "angle_bracketed"@);
        if let Some(ab) = member(a, "angle_bracketed"@) {
            lemma_array_at_decreases(ab, key);
        }
    }
}

/// The type expression that a raw type shape stands for. Shapes are tried
/// in a fixed order; a shape that matches none of them is `Unknown`.
pub open spec fn resolve(j: JsonValue) -> TypeV
    decreases j,
{
    if j is Null {
        TypeV::Unit
    } else if str_member(j, "primitive"@) is Some {
        TypeV::Primitive(str_member(j, "primitive"@)->0)
    } else if str_member(j, "generic"@) is Some {
        TypeV::Generic(str_member(j, "generic"@)->0)
    } else if member(j, "resolved_path"@) is Some {
        let rp = member(j, "resolved_path"@)->0;
        proof {
            lemma_member_decreases(j, "resolved_path"@);
            lemma_angle_list_decreases(rp, "args"@);
        }
        TypeV::Path {
            path: normalize_path(
                match str_member(rp, "path"@) {
                    Some(p) => p,
                    None => "unknown"@,
                },
            ),
            generics: match angle_list(rp, "args"@) {
                Some(es) => resolve_args(es@),
                None => Seq::empty(),
            },
        }
    } else if member(j, "borrowed_ref"@) is Some {
        let br = member(j, "borrowed_ref"@)->0;
        proof {
            lemma_member_decreases(j, "borrowed_ref"@);
            lemma_member_decreases(br, "type"@);
        }
        TypeV::Reference {
            lifetime: str_member(br, "lifetime"@),
            mutable: bool_member(br, "is_mutable"@) == Some(true),
            inner: Box::new(
                match member(br, "type"@) {
                    Some(t) => resolve(t),
                    None => TypeV::Unknown,
                },
            ),
        }
    } else if array_at(j, "tuple"@) is Some {
        let es = array_at(j, "tuple"@)->0;
        proof {
            lemma_array_at_decreases(j, "tuple"@);
        }
        if es.len() == 0 {
            TypeV::Unit
        } else {
            TypeV::Tuple(resolve_all(es@))
        }
    } else if member(j, "slice"@) is Some {
        proof {
            lemma_member_decreases(j, "slice"@);
        }
        TypeV::Slice(Box::new(resolve(member(j, "slice"@)->0)))
    } else if member(j, "array"@) is Some && member(member(j, "array"@)->0, "type"@) is Some {
        let a = member(j, "array"@)->0;
        proof {
            lemma_member_decreases(j, "array"@);
            lemma_member_decreases(a, "type"@);
        }
        TypeV::Array {
            inner: Box::new(resolve(member(a, "type"@)->0)),
            size: array_size(member(a, "len"@)),
        }
    } else if member(j, "raw_pointer"@) is Some {
        let rp = member(j, "raw_pointer"@)->0;
        proof {
            lemma_member_decreases(j, "raw_pointer"@);
            lemma_member_decreases(rp, "type"@);
        }
        TypeV::RawPointer {
            mutable: bool_member(rp, "is_mutable"@) == Some(true),
            inner: Box::new(
                match member(rp, "type"@) {
                    Some(t) => resolve(t),
                    None => TypeV::Unknown,
                },
            ),
        }
    } else if member(j, "qualified_path"@) is Some && str_member(
        member(j, "qualified_path"@)->0,
        "name"@,
    ) is Some {
        TypeV::QualifiedPath {
            base: "Self"@,
            name: str_member(member(j, "qualified_path"@)->0, "name"@)->0,
        }
    } else if member(j, "dyn_trait"@) is Some {
        let d = member(j, "dyn_trait"@)->0;
        proof {
            lemma_member_decreases(j, "dyn_trait"@);
            lemma_array_at_decreases(d, "traits"@);
        }
        TypeV::DynTrait {
            traits: match array_at(d, "traits"@) {
                Some(ts) => dyn_traits(ts@),
                None => Seq::empty(),
            },
            lifetime: str_member(d, "lifetime"@),
        }
    } else {
        TypeV::Unknown
    }
}

/// Every element resolved, in order.
pub open spec fn resolve_all(es: Seq<JsonValue>) -> Seq<TypeV>
    decreases es,
{
    if es.len() == 0 {
        Seq::empty()
    } else {
        proof {
            assert(es.drop_last() == es.subrange(0, es.len() - 1));
        }
        resolve_all(es.drop_last()).push(resolve(es.last()))
    }
}

/// The `type` of each generic argument that has one, resolved, in order.
pub open spec fn resolve_args(es: Seq<JsonValue>) -> Seq<TypeV>
    decreases es,
{
    if es.len() == 0 {
        Seq::empty()
    } else {
        proof {
            assert(es.drop_last() == es.subrange(0, es.len() - 1));
            lemma_member_decreases(es.last(), "type"@);
        }
        let prev = resolve_args(es.drop_last());
        match member(es.last(), "type"@) {
            Some(t) => prev.push(resolve(t)),
            None => prev,
        }
    }
}

/// The trait paths of a trait object, each followed by its associated-type
/// constraints in angle brackets when there are any.
pub open spec fn dyn_traits(ts: Seq<JsonValue>) -> Seq<Seq<char>>
    decreases ts,
{
    if ts.len() == 0 {
        Seq::empty()
    } else {
        proof {
            assert(ts.drop_last() == ts.subrange(0, ts.len() - 1));
            lemma_member_decreases(ts.last(), "trait"@);
        }
        let prev = dyn_traits(ts.drop_last());
        match member(ts.last(), "trait"@) {
            Some(ti) => match str_member(ti, "path"@) {
                Some(p) => {
                    proof {
                        lemma_angle_list_decreases(ti, "constraints"@);
                    }
                    let cs = match angle_list(ti, "constraints"@) {
                        Some(cv) => constraint_texts(cv@),
                        None => Seq::empty(),
                    };
                    prev.push(
                        p + if cs.len() == 0 {
                            Seq::empty()
                        } else {
                            "<"@ + join(cs, ", "@) + ">"@
                        },
                    )
                },
                None => prev,
            },
            None => prev,
        }
    }
}

/// `Name = Type` for each equality constraint that names its type.
pub open spec fn constraint_texts(cs: Seq<JsonValue>) -> Seq<Seq<char>>
    decreases cs,
{
    if cs.len() == 0 {
        Seq::empty()
    } else {
        proof {
            assert(cs.drop_last() == cs.subrange(0, cs.len() - 1));
        }
        let prev = constraint_texts(cs.drop_last());
        let c = cs.last();
        match (str_member(c, "name"@), member(c, "binding"@)) {
            (Some(name), Some(b)) => match member(b, "equality"@) {
                Some(eq) => match member(eq, "type"@) {
                    Some(ty) => {
                        proof {
                            lemma_member_decreases(c, "binding"@);
                            lemma_member_decreases(b, "equality"@);
                            lemma_member_decreases(eq, "type"@);
                        }
                        prev.push(name + " = "@ + type_text(resolve(ty)))
                    },
                    None => prev,
                },
                None => prev,
            },
            _ => prev,
        }
    }
}

} // verus!

verus! {

fn angle_list_of<'a>(v: &'a JsonValue, key: &str) -> (r: Option<&'a Vec<JsonValue>>)
    ensures
        match r {
            Some(es) => angle_list(*v, key@) == Some(*es),
            None => angle_list(*v, key@) is None,
        },
{
    match v.get("args") {
        Some(a) => match a.get("angle_bracketed") {
            Some(ab) => match ab.get(key) {
                Some(x) => x.as_array(),
                None => None,
            },
            None => None,
        },
        None => None,
    }
}

/// Rewrites a macro-hygiene path (one that begins with `$crate::`) to the
/// plain path it stands for; any other path is kept.
pub fn normalize_path_text(p: &String) -> (r: String)
    ensures
        r@ == normalize_path(p@),
{
    if str_eq(p.as_str(), "$crate::fmt::Formatter") {
        String::from_str("std::fmt::Formatter")
    } else if str_eq(p.as_str(), "$crate::fmt::Result") {
        String::from_str("std::fmt::Result")
    } else if str_eq(p.as_str(), "$crate::clone::Clone") {
        String::from_str("Clone")
    } else if str_eq(p.as_str(), "$crate::cmp::PartialEq") {
        String::from_str("PartialEq")
    } else {
        let cs = chars_of(p.as_str());
        let pat = chars_of("$crate::");
        if matches_at(&cs, &pat, 0) {
            proof {
                reveal_strlit("$crate::");
                assert(cs@.subrange(0, pat@.len() as int) == cs@.take(pat@.len() as int));
            }
            replace_all_chars(&cs, &pat, "std::")
        } else {
            proof {
                if starts_with(p@, "$crate::"@) {
                    assert(cs@.subrange(0, pat@.len() as int) == cs@.take(pat@.len() as int));
                }
            }
            p.clone()
        }
    }
}

fn array_size_text(a: &JsonValue) -> (r: String)
    ensures
        r@ == array_size(member(*a, "len"@)),
{
    match a.get("len") {
        Some(JsonValue::Str(s)) => s.clone(),
        Some(JsonValue::UInt(n)) => {
            let mut out = String::new();
            push_decimal(&mut out, *n);
            out
        },
        Some(JsonValue::Number(t)) => t.clone(),
        _ => String::from_str("N"),
    }
}

proof fn lemma_types_view_push(ts: Seq<RustType>, t: RustType)
    ensures
        types_view(ts.push(t)) == types_view(ts).push(type_view(t)),
{
    assert(ts.push(t).drop_last() == ts);
}

proof fn lemma_strs_view_push(ss: Seq<String>, s: String)
    ensures
        strs_view(ss.push(s)) == strs_view(ss).push(s@),
{
    assert(strs_view(ss.push(s)) =~= strs_view(ss).push(s@));
}

/// Resolves a raw type shape. Resolution never fails: a shape that is not
/// recognised becomes `Unknown`.
pub fn resolve_type(j: &JsonValue) -> (r: RustType)
    ensures
        r@ == resolve(*j),
    decreases j,
{
    if j.is_null() {
        return RustType::Unit;
    }
    if let Some(p) = j.get("primitive") {
        if let Some(s) = p.as_str() {
            return RustType::Primitive(s.clone());
        }
    }
    if let Some(g) = j.get("generic") {
        if let Some(s) = g.as_str() {
            return RustType::Generic(s.clone());
        }
    }
    if let Some(rp) = j.get("resolved_path") {
        let raw_path = match rp.get("path") {
            Some(p) => match p.as_str() {
                Some(s) => s.clone(),
                None => String::from_str("unknown"),
            },
            None => String::from_str("unknown"),
        };
        let path = normalize_path_text(&raw_path);
        let generics = match angle_list_of(rp, "args") {
            Some(es) => {
                proof {
                    lemma_member_decreases(*j, "resolved_path"@);
                    lemma_angle_list_decreases(*rp, "args"@);
                }
                resolve_type_args(es)
            },
            None => Vec::new(),
        };
        proof {
            lemma_types_view_len(generics@);
        }
        let r = RustType::Path { path, generics };
        assert(r@ == resolve(*j));
        return r;
    }
    if let Some(br) = j.get("borrowed_ref") {
        let lifetime = match br.get("lifetime") {
            Some(l) => match l.as_str() {
                Some(s) => Some(s.clone()),
                None => None,
            },
            None => None,
        };
        let mutable = match br.get("is_mutable") {
            Some(m) => match m.as_bool() {
                Some(b) => b,
                None => false,
            },
            None => false,
        };
        let inner = match br.get("type") {
            Some(t) => {
                proof {
                    lemma_member_decreases(*j, "borrowed_ref"@);
                    lemma_member_decreases(*br, "type"@);
                }
                resolve_type(t)
            },
            None => RustType::Unknown,
        };
        return RustType::Reference { lifetime, mutable, inner: Box::new(inner) };
    }
    if let Some(t) = j.get("tuple") {
        if let Some(es) = t.as_array() {
            if es.len() == 0 {
                return RustType::Unit;
            }
            proof {
                lemma_array_at_decreases(*j, "tuple"@);
            }
            let elements = resolve_type_list(es);
            proof {
                lemma_types_view_len(elements@);
            }
            return RustType::Tuple(elements);
        }
    }
    if let Some(s) = j.get("slice") {
        proof {
            lemma_member_decreases(*j, "slice"@);
        }
        let inner = resolve_type(s);
        return RustType::Slice(Box::new(inner));
    }
    if let Some(a) = j.get("array") {
        if let Some(t) = a.get("type") {
            proof {
                lemma_member_decreases(*j, "array"@);
                lemma_member_decreases(*a, "type"@);
            }
            let inner = resolve_type(t);
            let size = array_size_text(a);
            return RustType::Array { inner: Box::new(inner), size };
        }
    }
    if let Some(rp) = j.get("raw_pointer") {
        let mutable = match rp.get("is_mutable") {
            Some(m) => match m.as_bool() {
                Some(b) => b,
                None => false,
            },
            None => false,
        };
        let inner = match rp.get("type") {
            Some(t) => {
                proof {
                    lemma_member_decreases(*j, "raw_pointer"@);
                    lemma_member_decreases(*rp, "type"@);
                }
                resolve_type(t)
            },
            None => RustType::Unknown,
        };
        return RustType::RawPointer { mutable, inner: Box::new(inner) };
    }
    if let Some(q) = j.get("qualified_path") {
        if let Some(n) = q.get("name") {
            if let Some(name) = n.as_str() {
                return RustType::QualifiedPath {
                    base: String::from_str("Self"),
                    name: name.clone(),
                };
            }
        }
    }
    if let Some(d) = j.get("dyn_trait") {
        let lifetime = match d.get("lifetime") {
            Some(l) => match l.as_str() {
                Some(s) => Some(s.clone()),
                None => None,
            },
            None => None,
        };
        let traits = match d.get("traits") {
            Some(tv) => match tv.as_array() {
                Some(ts) => {
                    proof {
                        lemma_member_decreases(*j, "dyn_trait"@);
                        lemma_array_at_decreases(*d, "traits"@);
                    }
                    resolve_dyn_traits(ts)
                },
                None => Vec::new(),
            },
            None => Vec::new(),
        };
        proof {
            assert(strs_view(traits@) == strs_view(Seq::<String>::empty()) || array_at(*d, "traits"@) is Some);
            assert(strs_view(Seq::<String>::empty()) =~= Seq::<Seq<char>>::empty());
        }
        return RustType::DynTrait { traits, lifetime };
    }
    RustType::Unknown
}

fn resolve_type_list(es: &Vec<JsonValue>) -> (r: Vec<RustType>)
    ensures
        types_view(r@) == resolve_all(es@),
    decreases es,
{
    let mut r: Vec<RustType> = Vec::new();
    let mut i: usize = 0;
    while i < es.len()
        invariant
            0 <= i <= es@.len(),
            types_view(r@) == resolve_all(es@.take(i as int)),
        decreases es@.len() - i,
    {
        assert(es@.take(i + 1).drop_last() == es@.take(i as int));
        let t = resolve_type(&es[i]);
        proof {
            lemma_types_view_push(r@, t);
        }
        r.push(t);
        i = i + 1;
    }
    assert(es@.take(i as int) == es@);
    r
}

fn resolve_type_args(es: &Vec<JsonValue>) -> (r: Vec<RustType>)
    ensures
        types_view(r@) == resolve_args(es@),
    decreases es,
{
    let mut r: Vec<RustType> = Vec::new();
    let mut i: usize = 0;
    while i < es.len()
        invariant
            0 <= i <= es@.len(),
            types_view(r@) == resolve_args(es@.take(i as int)),
        decreases es@.len() - i,
    {
        assert(es@.take(i + 1).drop_last() == es@.take(i as int));
        if let Some(t) = es[i].get("type") {
            proof {
                lemma_member_decreases(es@[i as int], "type"@);
            }
            let ty = resolve_type(t);
            proof {
                lemma_types_view_push(r@, ty);
            }
            r.push(ty);
        }
        i = i + 1;
    }
    assert(es@.take(i as int) == es@);
    r
}

fn resolve_dyn_traits(ts: &Vec<JsonValue>) -> (r: Vec<String>)
    ensures
        strs_view(r@) == dyn_traits(ts@),
    decreases ts,
{
    let mut r: Vec<String> = Vec::new();
    let mut i: usize = 0;
    assert(strs_view(r@) =~= Seq::<Seq<char>>::empty());
    while i < ts.len()
        invariant
            0 <= i <= ts@.len(),
            strs_view(r@) == dyn_traits(ts@.take(i as int)),
        decreases ts@.len() - i,
    {
        assert(ts@.take(i + 1).drop_last() == ts@.take(i as int));
        if let Some(ti) = ts[i].get("trait") {
            if let Some(pv) = ti.get("path") {
                if let Some(p) = pv.as_str() {
                    let mut text = p.clone();
                    let cs = match angle_list_of(ti, "constraints") {
                        Some(cv) => {
                            proof {
                                lemma_member_decreases(ts@[i as int], "trait"@);
                                lemma_angle_list_decreases(*ti, "constraints"@);
                            }
                            resolve_constraints(cv)
                        },
                        None => Vec::new(),
                    };
                    proof {
                        assert(strs_view(Seq::<String>::empty()) =~= Seq::<Seq<char>>::empty());
                    }
                    let ghost suffix = if strs_view(cs@).len() == 0 {
                        Seq::<char>::empty()
                    } else {
                        "<"@ + join(strs_view(cs@), ", "@) + ">"@
                    };
                    if cs.len() > 0 {
                        text.append("<");
                        crate::text::push_joined(&mut text, &cs, ", ");
                        text.append(">");
                    }
                    assert(text@ =~= p@ + suffix);
                    proof {
                        lemma_strs_view_push(r@, text);
                    }
                    r.push(text);
                }
            }
        }
        i = i + 1;
    }
    assert(ts@.take(i as int) == ts@);
    r
}

fn resolve_constraints(cs: &Vec<JsonValue>) -> (r: Vec<String>)
    ensures
        strs_view(r@) == constraint_texts(cs@),
    decreases cs,
{
    let mut r: Vec<String> = Vec::new();
    let mut i: usize = 0;
    assert(strs_view(r@) =~= Seq::<Seq<char>>::empty());
    while i < cs.len()
        invariant
            0 <= i <= cs@.len(),
            strs_view(r@) == constraint_texts(cs@.take(i as int)),
        decreases cs@.len() - i,
    {
        assert(cs@.take(i + 1).drop_last() == cs@.take(i as int));
        let c = &cs[i];
        if let Some(nv) = c.get("name") {
            if let Some(name) = nv.as_str() {
                if let Some(b) = c.get("binding") {
                    if let Some(eq) = b.get("equality") {
                        if let Some(ty) = eq.get("type") {
                            proof {
                                lemma_member_decreases(*c, "binding"@);
                                lemma_member_decreases(*b, "equality"@);
                                lemma_member_decreases(*eq, "type"@);
                            }
                            let t = resolve_type(ty);
                            let mut text = name.clone();
                            text.append(" = ");
                            t.write_text(&mut text);
                            proof {
                                lemma_strs_view_push(r@, text);
                            }
                            r.push(text);
                        }
                    }
                }
            }
        }
        i = i + 1;
    }
    assert(cs@.take(i as int) == cs@);
    r
}

} // verus!
