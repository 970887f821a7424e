//! Properties that hold of the resolver, the implementation filter and the
//! renderer for every input.

use vstd::prelude::*;
use crate::json::{JsonValue, member, str_member, array_at};
use crate::types::{TypeV, type_text};
use crate::resolve::resolve;
use crate::filter::{dedup_impls, has_path, is_suppressed, simple_name, last_seg_from};
use crate::model::{TraitImplV, SignatureV};
use crate::parser::{struct_impls_spec, struct_spec, impl_contribution, lookup_spec};
use crate::render::{signature_text, signature_head, where_text, function_lines, deprecation_lines, doc_lines, vis_text, trait_item_lines};
use crate::lines::indent;
use crate::model::{FunctionV, TraitItemV, TraitImplItemV, VariantV};

verus! {

/// The raw type shapes that resolution recognises: `null`, a primitive or
/// generic name, a resolved path, a reference, a tuple, a slice, an array
/// with an element type, a raw pointer, a named qualified path, and a
/// trait object.
pub open spec fn recognized_shape(j: JsonValue) -> bool {
    ||| j is Null
    ||| str_member(j, "primitive"@) is Some
    ||| str_member(j, "generic"@) is Some
    ||| member(j, "resolved_path"@) is Some
    ||| member(j, "borrowed_ref"@) is Some
    ||| array_at(j, "tuple"@) is Some
    ||| member(j, "slice"@) is Some
    ||| (member(j, "array"@) is Some && member(member(j, "array"@)->0, "type"@) is Some)
    ||| member(j, "raw_pointer"@) is Some
    ||| (member(j, "qualified_path"@) is Some && str_member(member(j, "qualified_path"@)->0, "name"@) is Some)
    ||| member(j, "dyn_trait"@) is Some
}

/// Resolution is total: a recognised shape resolves to a type expression
/// other than the placeholder, and any other shape resolves to the
/// placeholder, whose text is `...`.
pub proof fn lemma_resolution_total(j: JsonValue)
    ensures
        recognized_shape(j) <==> !(resolve(j) is Unknown),
        !recognized_shape(j) ==> resolve(j) == TypeV::Unknown && type_text(resolve(j)) == "..."@,
{
}

/// The trait paths in `ts` are pairwise distinct.
pub open spec fn distinct_paths(ts: Seq<TraitImplV>) -> bool {
    forall|a: int, b: int| 0 <= a < b < ts.len() ==> ts[a].trait_path != ts[b].trait_path
}

/// `ts[i]` is the first implementation of its trait path in `ts`.
pub open spec fn first_of_path(ts: Seq<TraitImplV>, i: int) -> bool {
    0 <= i < ts.len() && forall|j: int| 0 <= j < i ==> ts[j].trait_path != ts[i].trait_path
}

/// De-duplication keeps each trait path exactly once: the kept
/// implementations have distinct paths, every path of the input is kept,
/// each kept implementation is the first one of its path, and
/// de-duplicating a prefix of the input gives a prefix of the result, so
/// the kept implementations come in first-seen order.
pub proof fn lemma_dedup_first_seen(ts: Seq<TraitImplV>, n: int)
    requires
        0 <= n <= ts.len(),
    ensures
        distinct_paths(dedup_impls(ts)),
        forall|i: int| 0 <= i < ts.len() ==> has_path(dedup_impls(ts), #[trigger] ts[i].trait_path),
        forall|k: int|
            0 <= k < dedup_impls(ts).len() ==> exists|i: int|
                first_of_path(ts, i) && #[trigger] dedup_impls(ts)[k] == ts[i],
        dedup_impls(ts.take(n)).len() <= dedup_impls(ts).len(),
        dedup_impls(ts.take(n)) == dedup_impls(ts).take(dedup_impls(ts.take(n)).len() as int),
    decreases ts.len(),
{
    if ts.len() == 0 {
        assert(ts.take(n) =~= ts);
        return;
    }
    let init = ts.drop_last();
    let x = ts.last();
    let prev = dedup_impls(init);
    let r = dedup_impls(ts);
    lemma_dedup_first_seen(init, if n < ts.len() { n } else { init.len() as int });
    assert forall|i: int| 0 <= i < ts.len() implies has_path(r, #[trigger] ts[i].trait_path) by {
        if i < init.len() {
            assert(init[i] == ts[i]);
            assert(has_path(prev, init[i].trait_path));
            let k = choose|k: int| 0 <= k < prev.len() && (#[trigger] prev[k]).trait_path == init[i].trait_path;
            assert(r[k] == prev[k]);
        } else {
            if !has_path(prev, x.trait_path) {
                assert(r[prev.len() as int] == x);
            } else {
                let k = choose|k: int| 0 <= k < prev.len() && (#[trigger] prev[k]).trait_path == x.trait_path;
                assert(r[k] == prev[k]);
            }
        }
    }
    assert forall|k: int| 0 <= k < r.len() implies exists|i: int|
        first_of_path(ts, i) && #[trigger] r[k] == ts[i] by {
        if k < prev.len() {
            let i = choose|i: int| first_of_path(init, i) && #[trigger] prev[k] == init[i];
            assert(ts[i] == init[i]);
            assert forall|j: int| 0 <= j < i implies ts[j].trait_path != ts[i].trait_path by {
                assert(init[j] == ts[j]);
            }
            assert(first_of_path(ts, i));
        } else {
            let i = ts.len() - 1;
            assert(r[k] == x);
            assert forall|j: int| 0 <= j < i implies ts[j].trait_path != ts[i].trait_path by {
                assert(init[j] == ts[j]);
                if ts[j].trait_path == x.trait_path {
                    assert(has_path(prev, init[j].trait_path));
                }
            }
            assert(first_of_path(ts, i));
        }
    }
    if n == ts.len() {
        assert(ts.take(n) =~= ts);
        assert(r.take(r.len() as int) =~= r);
    } else {
        assert(ts.take(n) =~= init.take(n));
        assert(prev.len() <= r.len());
        assert forall|m: int| 0 <= m < prev.len() implies r[m] == prev[m] by {}
        assert(prev.take(dedup_impls(init.take(n)).len() as int) =~= r.take(dedup_impls(init.take(n)).len() as int));
    }
}

proof fn lemma_last_seg_plain(s: Seq<char>, cur: Seq<char>)
    requires
        forall|i: int| 0 <= i < s.len() ==> s[i] != ':',
    ensures
        last_seg_from(s, cur) == cur + s,
    decreases s.len(),
{
    reveal_strlit("::");
    if s.len() == 0 {
        assert(cur + s =~= cur);
    } else {
        assert(s[0] != ':');
        assert(!crate::text::starts_with(s, "::"@)) by {
            if 2 <= s.len() {
                assert(s.take(2)[0] == s[0]);
            }
        }
        lemma_last_seg_plain(s.skip(1), cur.push(s[0]));
        assert(cur.push(s[0]) + s.skip(1) =~= cur + s);
    }
}

/// The placeholder trait path `unknown` is not suppressed.
pub proof fn lemma_unknown_not_suppressed()
    ensures
        !is_suppressed(simple_name("unknown"@)),
{
    reveal_strlit("unknown");
    lemma_last_seg_plain("unknown"@, Seq::empty());
    assert(Seq::<char>::empty() + "unknown"@ =~= "unknown"@);
    reveal_strlit("Send");
    reveal_strlit("Sync");
    reveal_strlit("Freeze");
    reveal_strlit("Unpin");
    reveal_strlit("UnwindSafe");
    reveal_strlit("RefUnwindSafe");
    reveal_strlit("Borrow");
    reveal_strlit("BorrowMut");
    reveal_strlit("Into");
    reveal_strlit("From");
    reveal_strlit("TryInto");
    reveal_strlit("TryFrom");
    reveal_strlit("Any");
    reveal_strlit("CloneToUninit");
    reveal_strlit("ToOwned");
    reveal_strlit("StructuralPartialEq");
    reveal_strlit("ToString");
    reveal_strlit("IntoFuture");
    assert("unknown"@[0] == 'u');
}

/// De-duplication returns only implementations taken from its input.
pub proof fn lemma_dedup_keeps_members(ts: Seq<TraitImplV>)
    ensures
        forall|k: int| 0 <= k < dedup_impls(ts).len() ==> exists|i: int|
            0 <= i < ts.len() && #[trigger] dedup_impls(ts)[k] == ts[i],
{
    if ts.len() > 0 {
        lemma_dedup_first_seen(ts, 0);
        assert forall|k: int| 0 <= k < dedup_impls(ts).len() implies exists|i: int|
            0 <= i < ts.len() && #[trigger] dedup_impls(ts)[k] == ts[i] by {
            let i = choose|i: int| first_of_path(ts, i) && #[trigger] dedup_impls(ts)[k] == ts[i];
        }
    }
}

/// The shown trait implementations that a list of implementation ids
/// contributes never have a suppressed simple name.
pub proof fn lemma_candidates_not_suppressed(idx: Map<u64, JsonValue>, ids: Seq<JsonValue>)
    ensures
        struct_impls_spec(idx, ids) matches Ok((ms, ts)) ==> forall|k: int|
            0 <= k < ts.len() ==> !is_suppressed(simple_name(#[trigger] ts[k].trait_path)),
    decreases ids.len(),
{
    if ids.len() > 0 {
        lemma_candidates_not_suppressed(idx, ids.drop_first());
        lemma_unknown_not_suppressed();
        if let Ok((ms, ts)) = struct_impls_spec(idx, ids) {
            let head = match lookup_spec(idx, ids[0]) {
                Some(ii) => impl_contribution(idx, ii),
                None => Ok((Seq::<crate::model::FunctionV>::empty(), Seq::<TraitImplV>::empty())),
            };
            if let Ok((m, t)) = head {
                assert forall|k: int| 0 <= k < t.len() implies !is_suppressed(simple_name(#[trigger] t[k].trait_path)) by {
                    let ii = lookup_spec(idx, ids[0])->0;
                    let imp = crate::parser::payload(ii, "impl"@)->0;
                    let tr = member(imp, "trait"@)->0;
                    assert(t.len() == 1);
                    match str_member(tr, "path"@) {
                        Some(p) => {
                            assert(t[k].trait_path == p);
                        },
                        None => {
                            assert(t[k].trait_path == "unknown"@);
                        },
                    }
                }
                if let Ok((m2, t2)) = struct_impls_spec(idx, ids.drop_first()) {
                    assert(ts == t + t2);
                    assert forall|k: int| 0 <= k < ts.len() implies !is_suppressed(simple_name(#[trigger] ts[k].trait_path)) by {
                        if k < t.len() {
                            assert(ts[k] == t[k]);
                        } else {
                            assert(ts[k] == t2[k - t.len()]);
                        }
                    }
                }
            }
        }
    }
}

/// A struct never shows an implementation of a trait whose simple name is
/// suppressed (`Send` among them), whatever other implementations it has.
pub proof fn lemma_struct_hides_suppressed(idx: Map<u64, JsonValue>, it: JsonValue, s: JsonValue)
    ensures
        struct_spec(idx, it, s) matches Ok(sv) ==> forall|k: int|
            0 <= k < sv.trait_impls.len() ==> !is_suppressed(
                simple_name(#[trigger] sv.trait_impls[k].trait_path),
            ),
{
    let ids = crate::parser::ids_at(s, "impls"@);
    lemma_candidates_not_suppressed(idx, ids);
    if let Ok(sv) = struct_spec(idx, it, s) {
        let ts = match struct_impls_spec(idx, ids) {
            Ok(p) => p.1,
            Err(_) => Seq::<TraitImplV>::empty(),
        };
        lemma_dedup_keeps_members(ts);
        assert forall|k: int| 0 <= k < sv.trait_impls.len() implies !is_suppressed(
            simple_name(#[trigger] sv.trait_impls[k].trait_path),
        ) by {
            let i = choose|i: int| 0 <= i < ts.len() && #[trigger] dedup_impls(ts)[k] == ts[i];
            assert(sv.trait_impls[k] == ts[i]);
        }
    }
}

/// Whether a line starts with exactly `2 * d` spaces.
pub open spec fn indented_exactly(l: Seq<char>, d: nat) -> bool {
    l.len() > 2 * d && l.take(2 * d as int) == indent(d) && l[2 * d as int] != ' '
}

proof fn lemma_prefixed(x: Seq<char>, d: nat)
    requires
        x.len() > 0,
        x[0] != ' ',
    ensures
        indented_exactly(indent(d) + x, d),
{
    assert((indent(d) + x).take(2 * d as int) =~= indent(d));
    assert((indent(d) + x)[2 * d as int] == x[0]);
}

proof fn lemma_doc_lines_indented(docs: Option<Seq<char>>, d: nat)
    ensures
        forall|i: int| 0 <= i < doc_lines(docs, indent(d)).len() ==> indented_exactly(
            #[trigger] doc_lines(docs, indent(d))[i],
            d,
        ),
{
    reveal_strlit("///");
    reveal_strlit("/// ");
    if let Some(t) = docs {
        let ls = crate::lines::lines_of(t);
        assert forall|i: int| 0 <= i < doc_lines(docs, indent(d)).len() implies indented_exactly(
            #[trigger] doc_lines(docs, indent(d))[i],
            d,
        ) by {
            let l = ls[i];
            let x = if crate::lines::is_blank(l) {
                "///"@
            } else {
                "/// "@ + l
            };
            assert(doc_lines(docs, indent(d))[i] == indent(d) + x);
            lemma_prefixed(x, d);
        }
    }
}

proof fn lemma_signature_start(f: FunctionV, with_vis: bool)
    ensures
        signature_text(f.signature, with_vis).len() > 0,
        signature_text(f.signature, with_vis)[0] != ' ',
{
    reveal_strlit("pub ");
    reveal_strlit("pub(crate) ");
    reveal_strlit("pub(");
    reveal_strlit("fn ");
    let s = signature_text(f.signature, with_vis);
    let v = if with_vis {
        vis_text(f.signature.visibility)
    } else {
        Seq::<char>::empty()
    };
    assert(s == v + ("fn "@ + f.signature.name + crate::render::generics_text(f.signature.generics) + "("@
        + crate::text::join(crate::render::input_texts(f.signature.inputs), ", "@) + ")"@
        + crate::render::return_text(f.signature.output) + where_text(f.signature.generics))) by {
        assert(s =~= v + ("fn "@ + f.signature.name + crate::render::generics_text(f.signature.generics) + "("@
            + crate::text::join(crate::render::input_texts(f.signature.inputs), ", "@) + ")"@
            + crate::render::return_text(f.signature.output) + where_text(f.signature.generics)));
    }
    if v.len() > 0 {
        assert(v[0] == 'p');
    }
}

/// Every line that rendering emits for a function at depth `d` starts
/// with exactly `2 * d` spaces.
pub proof fn lemma_function_indentation(f: FunctionV, d: nat, with_vis: bool)
    ensures
        forall|i: int| 0 <= i < function_lines(f, indent(d), with_vis).len() ==> indented_exactly(
            #[trigger] function_lines(f, indent(d), with_vis)[i],
            d,
        ),
{
    reveal_strlit("DEPRECATED since ");
    reveal_strlit("DEPRECATED");
    let ind = indent(d);
    let dl = deprecation_lines(f.deprecation, ind);
    let sl = seq![ind + signature_text(f.signature, with_vis)];
    let docl = doc_lines(f.docs, ind);
    lemma_doc_lines_indented(f.docs, d);
    lemma_signature_start(f, with_vis);
    lemma_prefixed(signature_text(f.signature, with_vis), d);
    if let Some(x) = f.deprecation {
        let t = match x.since {
            Some(v) => "DEPRECATED since "@ + v,
            None => "DEPRECATED"@,
        };
        assert(t[0] == 'D');
        lemma_prefixed(t, d);
    }
    assert forall|i: int| 0 <= i < function_lines(f, ind, with_vis).len() implies indented_exactly(
        #[trigger] function_lines(f, ind, with_vis)[i],
        d,
    ) by {
        let all = function_lines(f, ind, with_vis);
        assert(all == dl + sl + docl);
        if i < dl.len() {
            assert(all[i] == dl[i]);
        } else if i < dl.len() + 1 {
            assert(all[i] == sl[0]);
        } else {
            assert(all[i] == docl[i - dl.len() - 1]);
        }
    }
}

/// Every line that rendering emits for a trait member at depth `d` starts
/// with exactly `2 * d` spaces.
pub proof fn lemma_trait_item_indentation(t: TraitItemV, d: nat)
    ensures
        forall|i: int| 0 <= i < trait_item_lines(t, indent(d)).len() ==> indented_exactly(
            #[trigger] trait_item_lines(t, indent(d))[i],
            d,
        ),
{
    reveal_strlit("type ");
    reveal_strlit("const ");
    let ind = indent(d);
    match t {
        TraitItemV::Method(f) => {
            lemma_function_indentation(f, d, false);
        },
        TraitItemV::AssocType { name, bounds, docs } => {
            lemma_doc_lines_indented(docs, d);
            let x = "type "@ + name + if bounds.len() == 0 {
                Seq::<char>::empty()
            } else {
                ": "@ + crate::text::join(bounds, " + "@)
            };
            assert(x[0] == 't');
            lemma_prefixed(x, d);
            assert(ind + x =~= ind + "type "@ + name + if bounds.len() == 0 {
                Seq::<char>::empty()
            } else {
                ": "@ + crate::text::join(bounds, " + "@)
            });
            let docl = doc_lines(docs, ind);
            assert forall|i: int| 0 <= i < trait_item_lines(t, ind).len() implies indented_exactly(
                #[trigger] trait_item_lines(t, ind)[i],
                d,
            ) by {
                if i < docl.len() {
                    assert(trait_item_lines(t, ind)[i] == docl[i]);
                } else {
                    assert(trait_item_lines(t, ind)[i] == ind + x);
                }
            }
        },
        TraitItemV::AssocConst { name, ty, docs } => {
            lemma_doc_lines_indented(docs, d);
            let x = "const "@ + name + ": "@ + type_text(ty);
            assert(x[0] == 'c');
            lemma_prefixed(x, d);
            assert(ind + x =~= ind + "const "@ + name + ": "@ + type_text(ty));
            let docl = doc_lines(docs, ind);
            assert forall|i: int| 0 <= i < trait_item_lines(t, ind).len() implies indented_exactly(
                #[trigger] trait_item_lines(t, ind)[i],
                d,
            ) by {
                if i < docl.len() {
                    assert(trait_item_lines(t, ind)[i] == docl[i]);
                } else {
                    assert(trait_item_lines(t, ind)[i] == ind + x);
                }
            }
        },
    }
}

/// Every line that rendering emits for a member of a trait implementation
/// at depth `d` starts with exactly `2 * d` spaces.
pub proof fn lemma_impl_item_indentation(t: TraitImplItemV, d: nat)
    ensures
        forall|i: int| 0 <= i < crate::render::impl_item_lines(t, indent(d)).len() ==> indented_exactly(
            #[trigger] crate::render::impl_item_lines(t, indent(d))[i],
            d,
        ),
{
    reveal_strlit("type ");
    match t {
        TraitImplItemV::Method(f) => {
            lemma_function_indentation(f, d, false);
        },
        TraitImplItemV::AssocType { name, ty } => {
            let x = "type "@ + name + " = "@ + type_text(ty);
            assert(x[0] == 't');
            lemma_prefixed(x, d);
            assert(indent(d) + x =~= indent(d) + "type "@ + name + " = "@ + type_text(ty));
        },
    }
}

/// Every line that rendering emits for a variant at depth `d` starts with
/// exactly `2 * d` spaces, when the variant's name does not itself start
/// with a space.
pub proof fn lemma_variant_indentation(v: VariantV, d: nat)
    requires
        v.name.len() > 0,
        v.name[0] != ' ',
    ensures
        forall|i: int| 0 <= i < crate::render::variant_lines(v, indent(d)).len() ==> indented_exactly(
            #[trigger] crate::render::variant_lines(v, indent(d))[i],
            d,
        ),
{
    let x = v.name + crate::render::variant_suffix(v.kind);
    assert(x[0] == v.name[0]);
    lemma_prefixed(x, d);
    lemma_doc_lines_indented(v.docs, d);
    let docl = doc_lines(v.docs, indent(d));
    assert(indent(d) + x =~= indent(d) + v.name + crate::render::variant_suffix(v.kind));
    assert forall|i: int| 0 <= i < crate::render::variant_lines(v, indent(d)).len() implies indented_exactly(
        #[trigger] crate::render::variant_lines(v, indent(d))[i],
        d,
    ) by {
        if i < docl.len() {
            assert(crate::render::variant_lines(v, indent(d))[i] == docl[i]);
        } else {
            assert(crate::render::variant_lines(v, indent(d))[i] == indent(d) + x);
        }
    }
}

/// A function whose output is the unit type renders no return type: its
/// signature is its head followed directly by its where-clause.
pub proof fn lemma_unit_return_omitted(s: SignatureV, with_vis: bool)
    requires
        s.output is Unit,
    ensures
        signature_text(s, with_vis) == signature_head(s, with_vis) + where_text(s.generics),
{
    assert(signature_head(s, with_vis) + Seq::<char>::empty() =~= signature_head(s, with_vis));
}

} // verus!
