//! The executable renderer: each writer appends the text of one node to an
//! output string.

use vstd::prelude::*;
use crate::text::{join, strs_view, opt_view, chars_of, push_chars, lemma_join_push};
use crate::types::{RustType, type_text};
use crate::lines::{lines_text, sep_blocks, cat_blocks, vv, split_lines, is_blank_line, lemma_lines_text_concat, lemma_lines_text_push};
use crate::model::{Visibility, Deprecation, GenericParam, GenericParamKind, Generics, FunctionSignature, ParsedFunction, opt_dep_view, inputs_view, params_view, functions_view, ParsedTraitImplItem, ParsedTraitImpl, ParsedStruct, ParsedVariant, VariantKind, ParsedEnum, ParsedTraitItem, ParsedTrait, ParsedConstant, ParsedMacro, ParsedModule, ParsedItem, impl_items_view, impls_view, variants_view, trait_items_view, items_view, item_view, module_view, ItemV};
use crate::render::{deprecation_lines, doc_line, doc_lines_of, doc_lines, vis_text, param_text, param_texts, generics_text, where_text, input_text, input_texts, signature_head, signature_text, function_lines, impl_item_lines, impl_item_blocks, impl_header, impl_lines, impl_blocks, method_blocks, struct_lines, variant_suffix, variant_lines, variant_blocks, enum_lines, trait_item_lines, trait_item_blocks, trait_lines, constant_lines, macro_lines, macro_item_lines, other_item_lines, module_lines, item_lines, impl_doc_lines, impl_body_lines, preamble, struct_header, gap_if, close_lines, enum_header, trait_header};

verus! {

pub proof fn lemma_lines_one(l: Seq<char>)
    ensures
        lines_text(seq![l]) == l + seq!['\n'],
{
    assert(seq![l].drop_last() == Seq::<Seq<char>>::empty());
    assert(seq![l].last() == l);
    assert(lines_text(Seq::<Seq<char>>::empty()) == Seq::<char>::empty());
    assert(lines_text(seq![l]) =~= l + seq!['\n']);
}

pub proof fn lemma_sep_step(bs: Seq<Seq<Seq<char>>>, i: int)
    requires
        0 <= i < bs.len(),
    ensures
        lines_text(sep_blocks(bs.take(i + 1))) == lines_text(sep_blocks(bs.take(i))) + (if i > 0 {
            seq!['\n']
        } else {
            Seq::empty()
        }) + lines_text(bs[i]),
{
    assert(bs.take(i + 1).drop_last() == bs.take(i));
    assert(bs.take(i + 1).last() == bs[i]);
    if i == 0 {
        assert(bs.take(1)[0] == bs[0]);
        assert(sep_blocks(bs.take(0)) == Seq::<Seq<char>>::empty());
        assert(lines_text(Seq::<Seq<char>>::empty()) + Seq::<char>::empty() + lines_text(bs[0]) =~= lines_text(bs[0]));
    } else {
        let prev = sep_blocks(bs.take(i));
        lemma_lines_text_concat(prev + seq![Seq::<char>::empty()], bs[i]);
        lemma_lines_text_concat(prev, seq![Seq::<char>::empty()]);
        lemma_lines_one(Seq::<char>::empty());
        assert(Seq::<char>::empty() + seq!['\n'] =~= seq!['\n']);
    }
}

pub proof fn lemma_cat_step(bs: Seq<Seq<Seq<char>>>, i: int)
    requires
        0 <= i < bs.len(),
    ensures
        lines_text(cat_blocks(bs.take(i + 1))) == lines_text(cat_blocks(bs.take(i))) + lines_text(bs[i]),
{
    assert(bs.take(i + 1).drop_last() == bs.take(i));
    lemma_lines_text_concat(cat_blocks(bs.take(i)), bs[i]);
}

/// Appends the deprecation line, if any.
pub fn write_deprecation(out: &mut String, dep: &Option<Deprecation>, ind: &String)
    ensures
        final(out)@ == old(out)@ + lines_text(deprecation_lines(opt_dep_view(*dep), ind@)),
{
    let ghost start = out@;
    match dep {
        None => {
            assert(start + lines_text(Seq::<Seq<char>>::empty()) =~= start);
        },
        Some(x) => {
            out.append(ind.as_str());
            match &x.since {
                Some(v) => {
                    out.append("DEPRECATED since ");
                    out.append(v.as_str());
                },
                None => {
                    out.append("DEPRECATED");
                },
            }
            crate::text::push_char(out, '\n');
            proof {
                lemma_lines_one(deprecation_lines(opt_dep_view(*dep), ind@)[0]);
                assert(deprecation_lines(opt_dep_view(*dep), ind@) =~= seq![deprecation_lines(opt_dep_view(*dep), ind@)[0]]);
            }
            assert(out@ =~= start + lines_text(deprecation_lines(opt_dep_view(*dep), ind@)));
        },
    }
}

/// Appends the documentation lines of `docs`, each prefixed with `ind`.
pub fn write_docs(out: &mut String, docs: &Option<String>, ind: &String)
    ensures
        final(out)@ == old(out)@ + lines_text(doc_lines(opt_view(*docs), ind@)),
{
    let ghost start = out@;
    match docs {
        None => {
            assert(start + lines_text(Seq::<Seq<char>>::empty()) =~= start);
        },
        Some(t) => {
            let cs = chars_of(t.as_str());
            let ls = split_lines(&cs);
            let ghost all = doc_lines_of(vv(ls@), ind@);
            let mut i: usize = 0;
            assert(all.take(0) =~= Seq::<Seq<char>>::empty());
            while i < ls.len()
                invariant
                    0 <= i <= ls@.len(),
                    all == doc_lines_of(vv(ls@), ind@),
                    out@ == start + lines_text(all.take(i as int)),
                decreases ls@.len() - i,
            {
                let ghost before = out@;
                out.append(ind.as_str());
                if is_blank_line(&ls[i]) {
                    out.append("///");
                } else {
                    out.append("/// ");
                    push_chars(out, &ls[i]);
                }
                crate::text::push_char(out, '\n');
                proof {
                    assert(vv(ls@)[i as int] == ls@[i as int]@);
                    assert(all[i as int] == doc_line(ls@[i as int]@, ind@));
                    assert(all.take(i + 1) == all.take(i as int).push(all[i as int]));
                    lemma_lines_text_push(all.take(i as int), all[i as int]);
                }
                assert(out@ =~= start + lines_text(all.take(i + 1)));
                i = i + 1;
            }
            assert(all.take(i as int) =~= all);
        },
    }
}

/// Appends the visibility prefix.
pub fn write_visibility(out: &mut String, v: &Visibility)
    ensures
        final(out)@ == old(out)@ + vis_text(v@),
{
    let ghost start = out@;
    match v {
        Visibility::Public => out.append("pub "),
        Visibility::Crate => out.append("pub(crate) "),
        Visibility::Restricted(p) => {
            out.append("pub(");
            out.append(p.as_str());
            out.append(") ");
        },
        Visibility::Private => {},
    }
    assert(out@ =~= start + vis_text(v@));
}

fn write_param(out: &mut String, p: &GenericParam)
    ensures
        final(out)@ == old(out)@ + param_text(p@),
{
    let ghost start = out@;
    match &p.kind {
        GenericParamKind::Type { bounds } => {
            out.append(p.name.as_str());
            if bounds.len() > 0 {
                out.append(": ");
                crate::text::push_joined(out, bounds, " + ");
            }
        },
        GenericParamKind::Lifetime => {
            let cs = chars_of(p.name.as_str());
            if cs.len() > 0 && cs[0] == '\'' {
                out.append(p.name.as_str());
            } else {
                out.append("'");
                out.append(p.name.as_str());
            }
        },
    }
    assert(out@ =~= start + param_text(p@));
}

/// Appends `<A, B: Bound, 'a>`, or nothing when there are no parameters.
pub fn write_generics(out: &mut String, g: &Generics)
    ensures
        final(out)@ == old(out)@ + generics_text(g@),
{
    let ghost start = out@;
    if g.params.len() == 0 {
        assert(out@ =~= start + generics_text(g@));
        return;
    }
    out.append("<");
    let ghost mid = out@;
    let ghost texts = param_texts(params_view(g.params@));
    let mut i: usize = 0;
    while i < g.params.len()
        invariant
            0 <= i <= g.params@.len(),
            texts == param_texts(params_view(g.params@)),
            texts.len() == g.params@.len(),
            out@ == mid + join(texts.take(i as int), ", "@),
        decreases g.params@.len() - i,
    {
        proof {
            lemma_join_push(texts.take(i as int), ", "@, texts[i as int]);
            assert(texts.take(i as int).push(texts[i as int]) == texts.take(i + 1));
        }
        if i > 0 {
            out.append(", ");
        }
        write_param(out, &g.params[i]);
        assert(texts[i as int] == param_text(g.params@[i as int]@));
        i = i + 1;
    }
    assert(texts.take(i as int) == texts);
    out.append(">");
    assert(out@ =~= start + generics_text(g@));
}

/// Appends ` where C1, C2`, or nothing when there are no where-clauses.
pub fn write_where(out: &mut String, g: &Generics)
    ensures
        final(out)@ == old(out)@ + where_text(g@),
{
    let ghost start = out@;
    if g.where_clauses.len() > 0 {
        out.append(" where ");
        crate::text::push_joined(out, &g.where_clauses, ", ");
    }
    assert(out@ =~= start + where_text(g@));
}

fn write_input(out: &mut String, p: &(String, RustType))
    ensures
        final(out)@ == old(out)@ + input_text((p.0@, p.1@)),
{
    let ghost start = out@;
    if crate::text::str_eq(p.0.as_str(), "self") {
        match &p.1 {
            RustType::Reference { mutable, .. } => {
                if *mutable {
                    out.append("&mut self");
                } else {
                    out.append("&self");
                }
            },
            _ => out.append("self"),
        }
    } else {
        out.append(p.0.as_str());
        out.append(": ");
        p.1.write_text(out);
    }
    assert(out@ =~= start + input_text((p.0@, p.1@)));
}

/// Appends the parameters, separated by `", "`.
pub fn write_inputs(out: &mut String, inputs: &Vec<(String, RustType)>)
    ensures
        final(out)@ == old(out)@ + join(input_texts(inputs_view(inputs@)), ", "@),
{
    let ghost start = out@;
    let ghost texts = input_texts(inputs_view(inputs@));
    let mut i: usize = 0;
    while i < inputs.len()
        invariant
            0 <= i <= inputs@.len(),
            texts == input_texts(inputs_view(inputs@)),
            texts.len() == inputs@.len(),
            out@ == start + join(texts.take(i as int), ", "@),
        decreases inputs@.len() - i,
    {
        proof {
            lemma_join_push(texts.take(i as int), ", "@, texts[i as int]);
            assert(texts.take(i as int).push(texts[i as int]) == texts.take(i + 1));
        }
        if i > 0 {
            out.append(", ");
        }
        write_input(out, &inputs[i]);
        assert(texts[i as int] == input_text((inputs@[i as int].0@, inputs@[i as int].1@)));
        i = i + 1;
    }
    assert(texts.take(i as int) == texts);
}

/// Appends a function signature, with its visibility when `with_vis`.
pub fn write_signature(out: &mut String, s: &FunctionSignature, with_vis: bool)
    ensures
        final(out)@ == old(out)@ + signature_text(s@, with_vis),
{
    let ghost start = out@;
    if with_vis {
        write_visibility(out, &s.visibility);
    }
    out.append("fn ");
    out.append(s.name.as_str());
    write_generics(out, &s.generics);
    out.append("(");
    write_inputs(out, &s.inputs);
    out.append(")");
    assert(out@ =~= start + signature_head(s@, with_vis));
    match &s.output {
        RustType::Unit => {},
        t => {
            out.append(" -> ");
            t.write_text(out);
        },
    }
    write_where(out, &s.generics);
    assert(out@ =~= start + signature_text(s@, with_vis));
}

/// Appends a function: its deprecation line, its signature, then its
/// documentation, each line prefixed with `ind`.
pub fn write_function(out: &mut String, f: &ParsedFunction, ind: &String, with_vis: bool)
    ensures
        final(out)@ == old(out)@ + lines_text(function_lines(f@, ind@, with_vis)),
{
    let ghost start = out@;
    let ghost dl = deprecation_lines(f@.deprecation, ind@);
    let ghost sl = ind@ + signature_text(f@.signature, with_vis);
    let ghost docl = doc_lines(f@.docs, ind@);
    write_deprecation(out, &f.deprecation, ind);
    out.append(ind.as_str());
    write_signature(out, &f.signature, with_vis);
    crate::text::push_char(out, '\n');
    write_docs(out, &f.docs, ind);
    proof {
        lemma_lines_text_push(dl, sl);
        lemma_lines_text_concat(dl.push(sl), docl);
        assert(dl + seq![sl] == dl.push(sl));
    }
    assert(out@ =~= start + lines_text(function_lines(f@, ind@, with_vis)));
}

} // verus!

verus! {

fn child_indent(ind: &String) -> (r: String)
    ensures
        r@ == ind@ + "  "@,
{
    let mut r = ind.clone();
    r.append("  ");
    r
}

/// Appends a member of a trait implementation.
pub fn write_impl_item(out: &mut String, i: &ParsedTraitImplItem, ind: &String)
    ensures
        final(out)@ == old(out)@ + lines_text(impl_item_lines(i@, ind@)),
{
    let ghost start = out@;
    match i {
        ParsedTraitImplItem::AssocType { name, ty } => {
            out.append(ind.as_str());
            out.append("type ");
            out.append(name.as_str());
            out.append(" = ");
            ty.write_text(out);
            crate::text::push_char(out, '\n');
            proof {
                lemma_lines_one(impl_item_lines(i@, ind@)[0]);
                assert(impl_item_lines(i@, ind@) =~= seq![impl_item_lines(i@, ind@)[0]]);
            }
            assert(out@ =~= start + lines_text(impl_item_lines(i@, ind@)));
        },
        ParsedTraitImplItem::Method(f) => {
            write_function(out, f, ind, false);
        },
    }
}

pub proof fn lemma_two_lines(a: Seq<char>, b: Seq<char>)
    ensures
        lines_text(seq![a, b]) == a + seq!['\n'] + b + seq!['\n'],
{
    assert(seq![a, b] == seq![a].push(b));
    lemma_lines_one(a);
    lemma_lines_text_push(seq![a], b);
}

/// Appends the documentation of a trait implementation.
fn write_impl_doc(out: &mut String, t: &ParsedTraitImpl, ind: &String)
    ensures
        final(out)@ == old(out)@ + lines_text(impl_doc_lines(t@, ind@)),
{
    let ghost start = out@;
    match &t.docs {
        Some(_) => write_docs(out, &t.docs, ind),
        None => {
            out.append(ind.as_str());
            out.append("/// Implementation of ");
            let tn = crate::filter::simple_name_of(t.trait_path.as_str());
            out.append(tn.as_str());
            out.append(" trait for ");
            match &t.for_type {
                RustType::Path { path, .. } => {
                    let n = crate::filter::simple_name_of(path.as_str());
                    out.append(n.as_str());
                },
                RustType::Generic(n) => out.append(n.as_str()),
                _ => out.append("Unknown"),
            }
            crate::text::push_char(out, '\n');
            proof {
                lemma_lines_one(impl_doc_lines(t@, ind@)[0]);
                assert(impl_doc_lines(t@, ind@) =~= seq![impl_doc_lines(t@, ind@)[0]]);
            }
            assert(out@ =~= start + lines_text(impl_doc_lines(t@, ind@)));
        },
    }
}

/// Appends the members of a trait implementation, with an empty line
/// between consecutive ones.
fn write_impl_items(out: &mut String, items: &Vec<ParsedTraitImplItem>, ind: &String)
    ensures
        final(out)@ == old(out)@ + lines_text(sep_blocks(impl_item_blocks(impl_items_view(items@), ind@))),
{
    let ghost blocks = impl_item_blocks(impl_items_view(items@), ind@);
    let ghost start = out@;
    let mut k: usize = 0;
    assert(blocks.take(0) =~= Seq::<Seq<Seq<char>>>::empty());
    while k < items.len()
        invariant
            0 <= k <= items@.len(),
            blocks == impl_item_blocks(impl_items_view(items@), ind@),
            blocks.len() == items@.len(),
            out@ == start + lines_text(sep_blocks(blocks.take(k as int))),
        decreases items@.len() - k,
    {
        proof {
            lemma_sep_step(blocks, k as int);
        }
        if k > 0 {
            crate::text::push_char(out, '\n');
        }
        write_impl_item(out, &items[k], ind);
        assert(blocks[k as int] == impl_item_lines(items@[k as int]@, ind@));
        assert(out@ =~= start + lines_text(sep_blocks(blocks.take(k + 1))));
        k = k + 1;
    }
    assert(blocks.take(k as int) =~= blocks);
}

/// Appends the header of a trait implementation and its members.
fn write_impl_body(out: &mut String, t: &ParsedTraitImpl, ind: &String)
    ensures
        final(out)@ == old(out)@ + lines_text(impl_body_lines(t@, ind@)),
{
    let ghost start = out@;
    let ghost tv = t@;
    out.append(ind.as_str());
    out.append("impl ");
    out.append(t.trait_path.as_str());
    out.append(" for ");
    t.for_type.write_text(out);
    if t.items.len() == 0 {
        crate::text::push_char(out, '\n');
        crate::text::push_char(out, '\n');
        proof {
            lemma_two_lines(ind@ + impl_header(tv), Seq::<char>::empty());
        }
        assert(out@ =~= start + lines_text(impl_body_lines(tv, ind@)));
        return;
    }
    out.append(" {");
    crate::text::push_char(out, '\n');
    crate::text::push_char(out, '\n');
    let ghost open_lines = seq![ind@ + impl_header(tv) + " {"@, Seq::<char>::empty()];
    proof {
        lemma_two_lines(ind@ + impl_header(tv) + " {"@, Seq::<char>::empty());
    }
    assert(out@ =~= start + lines_text(open_lines));
    let child = child_indent(ind);
    write_impl_items(out, &t.items, &child);
    out.append(ind.as_str());
    out.append("}");
    crate::text::push_char(out, '\n');
    crate::text::push_char(out, '\n');
    let ghost body = sep_blocks(impl_item_blocks(tv.items, ind@ + "  "@));
    let ghost close = seq![ind@ + "}"@, Seq::<char>::empty()];
    proof {
        lemma_two_lines(ind@ + "}"@, Seq::<char>::empty());
        lemma_lines_text_concat(open_lines, body);
        lemma_lines_text_concat(open_lines + body, close);
    }
    assert(out@ =~= start + lines_text(impl_body_lines(tv, ind@)));
}

/// Appends a trait implementation.
pub fn write_impl(out: &mut String, t: &ParsedTraitImpl, ind: &String)
    ensures
        final(out)@ == old(out)@ + lines_text(impl_lines(t@, ind@)),
{
    let ghost start = out@;
    write_impl_doc(out, t, ind);
    write_impl_body(out, t, ind);
    proof {
        lemma_lines_text_concat(impl_doc_lines(t@, ind@), impl_body_lines(t@, ind@));
    }
    assert(out@ =~= start + lines_text(impl_lines(t@, ind@)));
}

} // verus!

verus! {

pub proof fn lemma_lines5(
    a: Seq<Seq<char>>,
    b: Seq<Seq<char>>,
    c: Seq<Seq<char>>,
    d: Seq<Seq<char>>,
    e: Seq<Seq<char>>,
)
    ensures
        lines_text(a + b + c + d + e) == lines_text(a) + lines_text(b) + lines_text(c) + lines_text(d)
            + lines_text(e),
{
    lemma_lines_text_concat(a, b);
    lemma_lines_text_concat(a + b, c);
    lemma_lines_text_concat(a + b + c, d);
    lemma_lines_text_concat(a + b + c + d, e);
}

fn write_preamble(out: &mut String, dep: &Option<Deprecation>, docs: &Option<String>, ind: &String)
    ensures
        final(out)@ == old(out)@ + lines_text(preamble(opt_dep_view(*dep), opt_view(*docs), ind@)),
{
    let ghost start = out@;
    write_deprecation(out, dep, ind);
    write_docs(out, docs, ind);
    proof {
        lemma_lines_text_concat(deprecation_lines(opt_dep_view(*dep), ind@), doc_lines(opt_view(*docs), ind@));
    }
    assert(out@ =~= start + lines_text(preamble(opt_dep_view(*dep), opt_view(*docs), ind@)));
}

fn write_close(out: &mut String, ind: &String)
    ensures
        final(out)@ == old(out)@ + lines_text(close_lines(ind@)),
{
    let ghost start = out@;
    out.append(ind.as_str());
    out.append("}");
    crate::text::push_char(out, '\n');
    crate::text::push_char(out, '\n');
    proof {
        lemma_two_lines(ind@ + "}"@, Seq::<char>::empty());
    }
    assert(out@ =~= start + lines_text(close_lines(ind@)));
}

fn write_gap(out: &mut String, nonempty: bool)
    ensures
        final(out)@ == old(out)@ + lines_text(gap_if(nonempty)),
{
    let ghost start = out@;
    if nonempty {
        crate::text::push_char(out, '\n');
        proof {
            lemma_lines_one(Seq::<char>::empty());
        }
    }
    assert(out@ =~= start + lines_text(gap_if(nonempty)));
}

/// Appends an indented line holding `text`.
fn write_line(out: &mut String, ind: &String, text: &String)
    ensures
        final(out)@ == old(out)@ + lines_text(seq![ind@ + text@]),
{
    let ghost start = out@;
    out.append(ind.as_str());
    out.append(text.as_str());
    crate::text::push_char(out, '\n');
    proof {
        lemma_lines_one(ind@ + text@);
    }
    assert(out@ =~= start + lines_text(seq![ind@ + text@]));
}

fn write_methods(out: &mut String, ms: &Vec<ParsedFunction>, ind: &String)
    ensures
        final(out)@ == old(out)@ + lines_text(sep_blocks(method_blocks(functions_view(ms@), ind@))),
{
    let ghost blocks = method_blocks(functions_view(ms@), ind@);
    let ghost start = out@;
    let mut k: usize = 0;
    assert(blocks.take(0) =~= Seq::<Seq<Seq<char>>>::empty());
    while k < ms.len()
        invariant
            0 <= k <= ms@.len(),
            blocks == method_blocks(functions_view(ms@), ind@),
            blocks.len() == ms@.len(),
            out@ == start + lines_text(sep_blocks(blocks.take(k as int))),
        decreases ms@.len() - k,
    {
        proof {
            lemma_sep_step(blocks, k as int);
        }
        if k > 0 {
            crate::text::push_char(out, '\n');
        }
        write_function(out, &ms[k], ind, true);
        assert(blocks[k as int] == function_lines(ms@[k as int]@, ind@, true));
        assert(out@ =~= start + lines_text(sep_blocks(blocks.take(k + 1))));
        k = k + 1;
    }
    assert(blocks.take(k as int) =~= blocks);
}

fn write_impls(out: &mut String, ts: &Vec<ParsedTraitImpl>, ind: &String)
    ensures
        final(out)@ == old(out)@ + lines_text(cat_blocks(impl_blocks(impls_view(ts@), ind@))),
{
    let ghost blocks = impl_blocks(impls_view(ts@), ind@);
    let ghost start = out@;
    let mut k: usize = 0;
    assert(blocks.take(0) =~= Seq::<Seq<Seq<char>>>::empty());
    while k < ts.len()
        invariant
            0 <= k <= ts@.len(),
            blocks == impl_blocks(impls_view(ts@), ind@),
            blocks.len() == ts@.len(),
            out@ == start + lines_text(cat_blocks(blocks.take(k as int))),
        decreases ts@.len() - k,
    {
        proof {
            lemma_cat_step(blocks, k as int);
        }
        write_impl(out, &ts[k], ind);
        assert(blocks[k as int] == impl_lines(ts@[k as int]@, ind@));
        assert(out@ =~= start + lines_text(cat_blocks(blocks.take(k + 1))));
        k = k + 1;
    }
    assert(blocks.take(k as int) =~= blocks);
}

fn struct_header_text(s: &ParsedStruct) -> (r: String)
    ensures
        r@ == struct_header(s@),
{
    let mut r = String::new();
    write_visibility(&mut r, &s.visibility);
    r.append("struct ");
    r.append(s.name.as_str());
    write_generics(&mut r, &s.generics);
    write_where(&mut r, &s.generics);
    r.append(" {");
    assert(r@ =~= struct_header(s@));
    r
}

/// Appends a struct, its methods and its trait implementations.
pub fn write_struct(out: &mut String, s: &ParsedStruct, ind: &String)
    ensures
        final(out)@ == old(out)@ + lines_text(struct_lines(s@, ind@)),
{
    let ghost start = out@;
    let ghost sv = s@;
    write_preamble(out, &s.deprecation, &s.docs, ind);
    let header = struct_header_text(s);
    write_line(out, ind, &header);
    write_gap(out, s.methods.len() > 0);
    let child = child_indent(ind);
    write_methods(out, &s.methods, &child);
    write_close(out, ind);
    write_impls(out, &s.trait_impls, ind);
    proof {
        let a = preamble(sv.deprecation, sv.docs, ind@) + seq![ind@ + struct_header(sv)];
        lemma_lines_text_concat(preamble(sv.deprecation, sv.docs, ind@), seq![ind@ + struct_header(sv)]);
        lemma_lines5(
            a,
            gap_if(sv.methods.len() > 0),
            sep_blocks(method_blocks(sv.methods, ind@ + "  "@)),
            close_lines(ind@),
            cat_blocks(impl_blocks(sv.trait_impls, ind@)),
        );
    }
    assert(out@ =~= start + lines_text(struct_lines(sv, ind@)));
}

} // verus!

verus! {

fn variant_line_text(v: &ParsedVariant) -> (r: String)
    ensures
        r@ == v@.name + variant_suffix(v@.kind),
{
    let mut r = v.name.clone();
    match &v.kind {
        VariantKind::Unit => {},
        VariantKind::Tuple(ts) => {
            r.append("(");
            crate::types::write_types(ts, &mut r);
            r.append(")");
        },
        VariantKind::Struct(fs) => {
            r.append(" { ");
            write_inputs(&mut r, fs);
            r.append(" }");
        },
    }
    assert(r@ =~= v@.name + variant_suffix(v@.kind));
    r
}

/// Appends a variant: its documentation, then the variant on one line.
pub fn write_variant(out: &mut String, v: &ParsedVariant, ind: &String)
    ensures
        final(out)@ == old(out)@ + lines_text(variant_lines(v@, ind@)),
{
    let ghost start = out@;
    write_docs(out, &v.docs, ind);
    let text = variant_line_text(v);
    write_line(out, ind, &text);
    proof {
        lemma_lines_text_concat(doc_lines(v@.docs, ind@), seq![ind@ + text@]);
        assert(ind@ + text@ =~= ind@ + v@.name + variant_suffix(v@.kind));
        assert(doc_lines(v@.docs, ind@) + seq![ind@ + text@] =~= variant_lines(v@, ind@));
    }
    assert(out@ =~= start + lines_text(variant_lines(v@, ind@)));
}

fn write_variants(out: &mut String, vs: &Vec<ParsedVariant>, ind: &String)
    ensures
        final(out)@ == old(out)@ + lines_text(sep_blocks(variant_blocks(variants_view(vs@), ind@))),
{
    let ghost blocks = variant_blocks(variants_view(vs@), ind@);
    let ghost start = out@;
    let mut k: usize = 0;
    assert(blocks.take(0) =~= Seq::<Seq<Seq<char>>>::empty());
    while k < vs.len()
        invariant
            0 <= k <= vs@.len(),
            blocks == variant_blocks(variants_view(vs@), ind@),
            blocks.len() == vs@.len(),
            out@ == start + lines_text(sep_blocks(blocks.take(k as int))),
        decreases vs@.len() - k,
    {
        proof {
            lemma_sep_step(blocks, k as int);
        }
        if k > 0 {
            crate::text::push_char(out, '\n');
        }
        write_variant(out, &vs[k], ind);
        assert(blocks[k as int] == variant_lines(vs@[k as int]@, ind@));
        assert(out@ =~= start + lines_text(sep_blocks(blocks.take(k + 1))));
        k = k + 1;
    }
    assert(blocks.take(k as int) =~= blocks);
}

fn enum_header_text(e: &ParsedEnum) -> (r: String)
    ensures
        r@ == enum_header(e@),
{
    let mut r = String::new();
    write_visibility(&mut r, &e.visibility);
    r.append("enum ");
    r.append(e.name.as_str());
    write_generics(&mut r, &e.generics);
    write_where(&mut r, &e.generics);
    r.append(" {");
    assert(r@ =~= enum_header(e@));
    r
}

/// Appends an enum and its variants.
pub fn write_enum(out: &mut String, e: &ParsedEnum, ind: &String)
    ensures
        final(out)@ == old(out)@ + lines_text(enum_lines(e@, ind@)),
{
    let ghost start = out@;
    let ghost ev = e@;
    write_preamble(out, &e.deprecation, &e.docs, ind);
    let header = enum_header_text(e);
    write_line(out, ind, &header);
    write_gap(out, true);
    let child = child_indent(ind);
    write_variants(out, &e.variants, &child);
    write_close(out, ind);
    proof {
        lemma_lines5(
            preamble(ev.deprecation, ev.docs, ind@),
            seq![ind@ + enum_header(ev)],
            gap_if(true),
            sep_blocks(variant_blocks(ev.variants, ind@ + "  "@)),
            close_lines(ind@),
        );
    }
    assert(out@ =~= start + lines_text(enum_lines(ev, ind@)));
}

/// Appends a trait member.
pub fn write_trait_item(out: &mut String, i: &ParsedTraitItem, ind: &String)
    ensures
        final(out)@ == old(out)@ + lines_text(trait_item_lines(i@, ind@)),
{
    let ghost start = out@;
    match i {
        ParsedTraitItem::AssocType { name, bounds, docs } => {
            write_docs(out, docs, ind);
            let mut text = String::from_str("type ");
            text.append(name.as_str());
            if bounds.len() > 0 {
                text.append(": ");
                crate::text::push_joined(&mut text, bounds, " + ");
            }
            write_line(out, ind, &text);
            proof {
                lemma_lines_text_concat(doc_lines(opt_view(*docs), ind@), seq![ind@ + text@]);
                let bv = strs_view(bounds@);
                assert(ind@ + text@ =~= ind@ + "type "@ + name@ + if bv.len() == 0 {
                    Seq::<char>::empty()
                } else {
                    ": "@ + join(bv, " + "@)
                });
                assert(doc_lines(opt_view(*docs), ind@) + seq![ind@ + text@] =~= trait_item_lines(i@, ind@));
            }
            assert(out@ =~= start + lines_text(trait_item_lines(i@, ind@)));
        },
        ParsedTraitItem::AssocConst { name, ty, docs } => {
            write_docs(out, docs, ind);
            let mut text = String::from_str("const ");
            text.append(name.as_str());
            text.append(": ");
            ty.write_text(&mut text);
            write_line(out, ind, &text);
            proof {
                lemma_lines_text_concat(doc_lines(opt_view(*docs), ind@), seq![ind@ + text@]);
                assert(ind@ + text@ =~= ind@ + "const "@ + name@ + ": "@ + type_text(ty@));
                assert(doc_lines(opt_view(*docs), ind@) + seq![ind@ + text@] =~= trait_item_lines(i@, ind@));
            }
            assert(out@ =~= start + lines_text(trait_item_lines(i@, ind@)));
        },
        ParsedTraitItem::Method(f) => {
            write_function(out, f, ind, false);
        },
    }
}

fn write_trait_items(out: &mut String, is: &Vec<ParsedTraitItem>, ind: &String)
    ensures
        final(out)@ == old(out)@ + lines_text(sep_blocks(trait_item_blocks(trait_items_view(is@), ind@))),
{
    let ghost blocks = trait_item_blocks(trait_items_view(is@), ind@);
    let ghost start = out@;
    let mut k: usize = 0;
    assert(blocks.take(0) =~= Seq::<Seq<Seq<char>>>::empty());
    while k < is.len()
        invariant
            0 <= k <= is@.len(),
            blocks == trait_item_blocks(trait_items_view(is@), ind@),
            blocks.len() == is@.len(),
            out@ == start + lines_text(sep_blocks(blocks.take(k as int))),
        decreases is@.len() - k,
    {
        proof {
            lemma_sep_step(blocks, k as int);
        }
        if k > 0 {
            crate::text::push_char(out, '\n');
        }
        write_trait_item(out, &is[k], ind);
        assert(blocks[k as int] == trait_item_lines(is@[k as int]@, ind@));
        assert(out@ =~= start + lines_text(sep_blocks(blocks.take(k + 1))));
        k = k + 1;
    }
    assert(blocks.take(k as int) =~= blocks);
}

fn trait_header_text(t: &ParsedTrait) -> (r: String)
    ensures
        r@ == trait_header(t@),
{
    let mut r = String::new();
    write_visibility(&mut r, &t.visibility);
    r.append("trait ");
    r.append(t.name.as_str());
    write_generics(&mut r, &t.generics);
    write_where(&mut r, &t.generics);
    r.append(" {");
    assert(r@ =~= trait_header(t@));
    r
}

/// Appends a trait and its members.
pub fn write_trait(out: &mut String, t: &ParsedTrait, ind: &String)
    ensures
        final(out)@ == old(out)@ + lines_text(trait_lines(t@, ind@)),
{
    let ghost start = out@;
    let ghost tv = t@;
    write_preamble(out, &t.deprecation, &t.docs, ind);
    let header = trait_header_text(t);
    write_line(out, ind, &header);
    write_gap(out, true);
    let child = child_indent(ind);
    write_trait_items(out, &t.items, &child);
    write_close(out, ind);
    proof {
        lemma_lines5(
            preamble(tv.deprecation, tv.docs, ind@),
            seq![ind@ + trait_header(tv)],
            gap_if(true),
            sep_blocks(trait_item_blocks(tv.items, ind@ + "  "@)),
            close_lines(ind@),
        );
    }
    assert(out@ =~= start + lines_text(trait_lines(tv, ind@)));
}

/// Appends a constant.
pub fn write_constant(out: &mut String, c: &ParsedConstant, ind: &String)
    ensures
        final(out)@ == old(out)@ + lines_text(constant_lines(c@, ind@)),
{
    let ghost start = out@;
    write_preamble(out, &c.deprecation, &c.docs, ind);
    let mut text = String::new();
    write_visibility(&mut text, &c.visibility);
    text.append("const ");
    text.append(c.name.as_str());
    text.append(": ");
    c.ty.write_text(&mut text);
    write_line(out, ind, &text);
    write_gap(out, true);
    proof {
        let p = preamble(c@.deprecation, c@.docs, ind@);
        lemma_lines_text_concat(p, seq![ind@ + text@]);
        lemma_lines_text_concat(p + seq![ind@ + text@], gap_if(true));
        assert(ind@ + text@ =~= ind@ + vis_text(c@.visibility) + "const "@ + c@.name + ": "@ + type_text(c@.ty));
        assert(p + seq![ind@ + text@] + gap_if(true) =~= constant_lines(c@, ind@));
    }
    assert(out@ =~= start + lines_text(constant_lines(c@, ind@)));
}

/// Appends a macro: its documentation and its signature.
pub fn write_macro(out: &mut String, m: &ParsedMacro, ind: &String)
    ensures
        final(out)@ == old(out)@ + lines_text(macro_lines(m@, ind@)),
{
    let ghost start = out@;
    write_docs(out, &m.docs, ind);
    write_line(out, ind, &m.signature);
    write_gap(out, true);
    proof {
        let d = doc_lines(m@.docs, ind@);
        lemma_lines_text_concat(d, seq![ind@ + m@.signature]);
        lemma_lines_text_concat(d + seq![ind@ + m@.signature], gap_if(true));
        assert(d + seq![ind@ + m@.signature] + gap_if(true) =~= macro_lines(m@, ind@));
    }
    assert(out@ =~= start + lines_text(macro_lines(m@, ind@)));
}

} // verus!

verus! {

pub proof fn lemma_items_view_index(s: Seq<ParsedItem>)
    ensures
        items_view(s).len() == s.len(),
        forall|k: int| 0 <= k < s.len() ==> #[trigger] items_view(s)[k] == item_view(s[k]),
    decreases s.len(),
{
    if s.len() > 0 {
        lemma_items_view_index(s.drop_last());
        assert forall|k: int| 0 <= k < s.len() implies #[trigger] items_view(s)[k] == item_view(s[k]) by {
            if k < s.len() - 1 {
                assert(s.drop_last()[k] == s[k]);
            }
        }
    }
}

/// Appends the macros among `is`, in order.
pub fn write_macro_items(out: &mut String, is: &Vec<ParsedItem>, ind: &String)
    ensures
        final(out)@ == old(out)@ + lines_text(macro_item_lines(items_view(is@), ind@)),
{
    let ghost iv = items_view(is@);
    let ghost start = out@;
    proof {
        lemma_items_view_index(is@);
    }
    let mut k: usize = 0;
    assert(iv.take(0) =~= Seq::<ItemV>::empty());
    while k < is.len()
        invariant
            0 <= k <= is@.len(),
            iv == items_view(is@),
            iv.len() == is@.len(),
            forall|j: int| 0 <= j < is@.len() ==> #[trigger] iv[j] == item_view(is@[j]),
            out@ == start + lines_text(macro_item_lines(iv.take(k as int), ind@)),
        decreases is@.len() - k,
    {
        assert(iv.take(k + 1).drop_last() == iv.take(k as int));
        assert(iv.take(k + 1).last() == iv[k as int]);
        let ghost before = out@;
        match &is[k] {
            ParsedItem::Macro(m) => {
                write_macro(out, m, ind);
                proof {
                    lemma_lines_text_concat(macro_item_lines(iv.take(k as int), ind@), macro_lines(m@, ind@));
                }
            },
            _ => {
                assert(macro_item_lines(iv.take(k as int), ind@) + Seq::<Seq<char>>::empty() =~= macro_item_lines(iv.take(k as int), ind@));
            },
        }
        assert(out@ =~= start + lines_text(macro_item_lines(iv.take(k + 1), ind@)));
        k = k + 1;
    }
    assert(iv.take(k as int) =~= iv);
}

/// Appends the items among `is` that are not macros, in order.
pub fn write_other_items(out: &mut String, is: &Vec<ParsedItem>, ind: &String)
    ensures
        final(out)@ == old(out)@ + lines_text(other_item_lines(items_view(is@), ind@)),
    decreases is,
{
    let ghost iv = items_view(is@);
    let ghost start = out@;
    proof {
        lemma_items_view_index(is@);
    }
    let mut k: usize = 0;
    assert(iv.take(0) =~= Seq::<ItemV>::empty());
    while k < is.len()
        invariant
            0 <= k <= is@.len(),
            iv == items_view(is@),
            iv.len() == is@.len(),
            forall|j: int| 0 <= j < is@.len() ==> #[trigger] iv[j] == item_view(is@[j]),
            out@ == start + lines_text(other_item_lines(iv.take(k as int), ind@)),
        decreases is@.len() - k,
    {
        assert(iv.take(k + 1).drop_last() == iv.take(k as int));
        assert(iv.take(k + 1).last() == iv[k as int]);
        match &is[k] {
            ParsedItem::Macro(_) => {
                assert(other_item_lines(iv.take(k as int), ind@) + Seq::<Seq<char>>::empty() =~= other_item_lines(iv.take(k as int), ind@));
            },
            _ => {
                write_item(out, &is[k], ind);
                proof {
                    lemma_lines_text_concat(other_item_lines(iv.take(k as int), ind@), item_lines(iv[k as int], ind@));
                }
            },
        }
        assert(out@ =~= start + lines_text(other_item_lines(iv.take(k + 1), ind@)));
        k = k + 1;
    }
    assert(iv.take(k as int) =~= iv);
}

/// Appends a module: its documentation, `mod name`, then its children one
/// level deeper, macros first.
pub fn write_module(out: &mut String, m: &ParsedModule, ind: &String)
    ensures
        final(out)@ == old(out)@ + lines_text(module_lines(module_view(*m), ind@)),
    decreases m,
{
    let ghost start = out@;
    let ghost mv = module_view(*m);
    write_docs(out, &m.docs, ind);
    let mut text = String::new();
    write_visibility(&mut text, &m.visibility);
    text.append("mod ");
    text.append(m.name.as_str());
    write_line(out, ind, &text);
    write_gap(out, true);
    let child = child_indent(ind);
    write_macro_items(out, &m.items, &child);
    write_other_items(out, &m.items, &child);
    proof {
        assert(ind@ + text@ =~= ind@ + vis_text(mv.visibility) + "mod "@ + mv.name);
        lemma_lines5(
            doc_lines(mv.docs, ind@),
            seq![ind@ + text@],
            gap_if(true),
            macro_item_lines(mv.items, ind@ + "  "@),
            other_item_lines(mv.items, ind@ + "  "@),
        );
        assert(doc_lines(mv.docs, ind@) + seq![ind@ + text@] + gap_if(true) + macro_item_lines(mv.items, ind@ + "  "@) + other_item_lines(mv.items, ind@ + "  "@) =~= module_lines(mv, ind@));
    }
    assert(out@ =~= start + lines_text(module_lines(mv, ind@)));
}

/// Appends one item of a module.
pub fn write_item(out: &mut String, i: &ParsedItem, ind: &String)
    ensures
        final(out)@ == old(out)@ + lines_text(item_lines(item_view(*i), ind@)),
    decreases i,
{
    let ghost start = out@;
    match i {
        ParsedItem::Function(f) => {
            write_function(out, f, ind, true);
            write_gap(out, true);
            proof {
                lemma_lines_text_concat(function_lines(f@, ind@, true), gap_if(true));
            }
            assert(out@ =~= start + lines_text(item_lines(item_view(*i), ind@)));
        },
        ParsedItem::Struct(s) => write_struct(out, s, ind),
        ParsedItem::Enum(e) => write_enum(out, e, ind),
        ParsedItem::Trait(t) => write_trait(out, t, ind),
        ParsedItem::Constant(c) => write_constant(out, c, ind),
        ParsedItem::Module(m) => write_module(out, m, ind),
        ParsedItem::Macro(m) => write_macro(out, m, ind),
        ParsedItem::TraitImpl(t) => write_impl(out, t, ind),
        ParsedItem::ReExport(_) => {
            assert(out@ =~= start + lines_text(item_lines(item_view(*i), ind@)));
        },
    }
}

} // verus!
