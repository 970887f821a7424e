//! The renderer: turns the item tree into declaration-like text, two
//! spaces of indentation per level of depth.

use vstd::prelude::*;
use crate::text::{join};
use crate::types::{TypeV, type_text};
use crate::lines::{lines_text, sep_blocks, cat_blocks, lines_of, is_blank};
use crate::filter::simple_name;
use crate::model::{VisibilityV, DeprecationV, GenericParamV, GenericParamKindV, GenericsV, SignatureV, FunctionV, StructV, VariantV, VariantKindV, EnumV, TraitItemV, TraitV, ConstantV, MacroV, TraitImplV, TraitImplItemV, ModuleV, ItemV, ReExportV};

verus! {

/// The deprecation line, if the item is deprecated.
pub open spec fn deprecation_lines(dep: Option<DeprecationV>, ind: Seq<char>) -> Seq<Seq<char>> {
    match dep {
        None => Seq::empty(),
        Some(x) => seq![
            ind + match x.since {
                Some(v) => "DEPRECATED since "@ + v,
                None => "DEPRECATED"@,
            },
        ],
    }
}

/// One documentation line: `///`, then a space and the text unless the
/// line is blank.
pub open spec fn doc_line(l: Seq<char>, ind: Seq<char>) -> Seq<char> {
    ind + if is_blank(l) {
        "///"@
    } else {
        "/// "@ + l
    }
}

pub open spec fn doc_lines_of(ls: Seq<Seq<char>>, ind: Seq<char>) -> Seq<Seq<char>> {
    ls.map_values(|l: Seq<char>| doc_line(l, ind))
}

/// The documentation lines of an item.
pub open spec fn doc_lines(docs: Option<Seq<char>>, ind: Seq<char>) -> Seq<Seq<char>> {
    match docs {
        None => Seq::empty(),
        Some(t) => doc_lines_of(lines_of(t), ind),
    }
}

pub open spec fn vis_text(v: VisibilityV) -> Seq<char> {
    match v {
        VisibilityV::Public => "pub "@,
        VisibilityV::Crate => "pub(crate) "@,
        VisibilityV::Restricted(p) => "pub("@ + p + ") "@,
        VisibilityV::Private => Seq::empty(),
    }
}

pub open spec fn param_text(p: GenericParamV) -> Seq<char> {
    match p.kind {
        GenericParamKindV::Type { bounds } => if bounds.len() == 0 {
            p.name
        } else {
            p.name + ": "@ + join(bounds, " + "@)
        },
        GenericParamKindV::Lifetime => if p.name.len() > 0 && p.name[0] == '\'' {
            p.name
        } else {
            "'"@ + p.name
        },
    }
}

pub open spec fn param_texts(ps: Seq<GenericParamV>) -> Seq<Seq<char>> {
    ps.map_values(|p: GenericParamV| param_text(p))
}

/// `<A, B: Bound, 'a>`, or nothing when there are no parameters.
pub open spec fn generics_text(g: GenericsV) -> Seq<char> {
    if g.params.len() == 0 {
        Seq::empty()
    } else {
        "<"@ + join(param_texts(g.params), ", "@) + ">"@
    }
}

/// ` where C1, C2`, or nothing when there are no where-clauses.
pub open spec fn where_text(g: GenericsV) -> Seq<char> {
    if g.where_clauses.len() == 0 {
        Seq::empty()
    } else {
        " where "@ + join(g.where_clauses, ", "@)
    }
}

/// A parameter: a `self` parameter by its reference-ness and mutability,
/// any other as `name: Type`.
pub open spec fn input_text(p: (Seq<char>, TypeV)) -> Seq<char> {
    if p.0 == "self"@ {
        match p.1 {
            TypeV::Reference { mutable, .. } => if mutable {
                "&mut self"@
            } else {
                "&self"@
            },
            _ => "self"@,
        }
    } else {
        p.0 + ": "@ + type_text(p.1)
    }
}

pub open spec fn input_texts(ps: Seq<(Seq<char>, TypeV)>) -> Seq<Seq<char>> {
    ps.map_values(|p: (Seq<char>, TypeV)| input_text(p))
}

/// ` -> Type`, or nothing for the unit type.
pub open spec fn return_text(t: TypeV) -> Seq<char> {
    if t is Unit {
        Seq::empty()
    } else {
        " -> "@ + type_text(t)
    }
}

/// The part of a function signature up to its closing parenthesis.
pub open spec fn signature_head(s: SignatureV, with_vis: bool) -> Seq<char> {
    (if with_vis {
        vis_text(s.visibility)
    } else {
        Seq::empty()
    }) + "fn "@ + s.name + generics_text(s.generics) + "("@ + join(input_texts(s.inputs), ", "@)
        + ")"@
}

pub open spec fn signature_text(s: SignatureV, with_vis: bool) -> Seq<char> {
    signature_head(s, with_vis) + return_text(s.output) + where_text(s.generics)
}

/// A function: its deprecation line, its signature, then its
/// documentation.
pub open spec fn function_lines(f: FunctionV, ind: Seq<char>, with_vis: bool) -> Seq<Seq<char>> {
    deprecation_lines(f.deprecation, ind) + seq![ind + signature_text(f.signature, with_vis)]
        + doc_lines(f.docs, ind)
}

pub open spec fn method_blocks(ms: Seq<FunctionV>, ind: Seq<char>) -> Seq<Seq<Seq<char>>> {
    ms.map_values(|m: FunctionV| function_lines(m, ind, true))
}

/// The simple name of the type a trait is implemented for.
pub open spec fn impl_type_name(t: TypeV) -> Seq<char> {
    match t {
        TypeV::Path { path, .. } => simple_name(path),
        TypeV::Generic(n) => n,
        _ => "Unknown"@,
    }
}

pub open spec fn impl_item_lines(i: TraitImplItemV, ind: Seq<char>) -> Seq<Seq<char>> {
    match i {
        TraitImplItemV::AssocType { name, ty } => seq![
            ind + "type "@ + name + " = "@ + type_text(ty),
        ],
        TraitImplItemV::Method(f) => function_lines(f, ind, false),
    }
}

pub open spec fn impl_item_blocks(is: Seq<TraitImplItemV>, ind: Seq<char>) -> Seq<Seq<Seq<char>>> {
    is.map_values(|i: TraitImplItemV| impl_item_lines(i, ind))
}

/// The `impl Trait for Type` line.
pub open spec fn impl_header(t: TraitImplV) -> Seq<char> {
    "impl "@ + t.trait_path + " for "@ + type_text(t.for_type)
}

/// The documentation of a trait implementation, written for it when it
/// has none.
pub open spec fn impl_doc_lines(t: TraitImplV, ind: Seq<char>) -> Seq<Seq<char>> {
    match t.docs {
        Some(_) => doc_lines(t.docs, ind),
        None => seq![
            ind + "/// Implementation of "@ + simple_name(t.trait_path) + " trait for "@
                + impl_type_name(t.for_type),
        ],
    }
}

/// The header of a trait implementation, and its members in braces
/// unless it has none.
pub open spec fn impl_body_lines(t: TraitImplV, ind: Seq<char>) -> Seq<Seq<char>> {
    if t.items.len() == 0 {
        seq![ind + impl_header(t), Seq::empty()]
    } else {
        seq![ind + impl_header(t) + " {"@, Seq::empty()] + sep_blocks(
            impl_item_blocks(t.items, ind + "  "@),
        ) + seq![ind + "}"@, Seq::empty()]
    }
}

/// A trait implementation: its documentation, its header, and its members
/// in braces unless it has none.
pub open spec fn impl_lines(t: TraitImplV, ind: Seq<char>) -> Seq<Seq<char>> {
    impl_doc_lines(t, ind) + impl_body_lines(t, ind)
}

pub open spec fn impl_blocks(ts: Seq<TraitImplV>, ind: Seq<char>) -> Seq<Seq<Seq<char>>> {
    ts.map_values(|t: TraitImplV| impl_lines(t, ind))
}

/// The lines before an item's opening brace or declaration line: its
/// deprecation line and documentation.
pub open spec fn preamble(dep: Option<DeprecationV>, docs: Option<Seq<char>>, ind: Seq<char>) -> Seq<Seq<char>> {
    deprecation_lines(dep, ind) + doc_lines(docs, ind)
}

/// `pub struct Name<..> where .. {`
pub open spec fn struct_header(s: StructV) -> Seq<char> {
    vis_text(s.visibility) + "struct "@ + s.name + generics_text(s.generics) + where_text(s.generics)
        + " {"@
}

/// The empty line after an opening brace, present when members follow.
pub open spec fn gap_if(nonempty: bool) -> Seq<Seq<char>> {
    if nonempty {
        seq![Seq::<char>::empty()]
    } else {
        Seq::empty()
    }
}

pub open spec fn close_lines(ind: Seq<char>) -> Seq<Seq<char>> {
    seq![ind + "}"@, Seq::empty()]
}

/// A struct: header and the methods of its inherent implementations in
/// braces, then its trait implementations at the same depth.
pub open spec fn struct_lines(s: StructV, ind: Seq<char>) -> Seq<Seq<char>> {
    preamble(s.deprecation, s.docs, ind) + seq![ind + struct_header(s)] + gap_if(s.methods.len() > 0)
        + sep_blocks(method_blocks(s.methods, ind + "  "@)) + close_lines(ind) + cat_blocks(
        impl_blocks(s.trait_impls, ind),
    )
}

pub open spec fn variant_suffix(k: VariantKindV) -> Seq<char> {
    match k {
        VariantKindV::Unit => Seq::empty(),
        VariantKindV::Tuple(ts) => "("@ + crate::types::types_text(ts) + ")"@,
        VariantKindV::Struct(fs) => " { "@ + join(input_texts(fs), ", "@) + " }"@,
    }
}

pub open spec fn variant_lines(v: VariantV, ind: Seq<char>) -> Seq<Seq<char>> {
    doc_lines(v.docs, ind) + seq![ind + v.name + variant_suffix(v.kind)]
}

pub open spec fn variant_blocks(vs: Seq<VariantV>, ind: Seq<char>) -> Seq<Seq<Seq<char>>> {
    vs.map_values(|v: VariantV| variant_lines(v, ind))
}

pub open spec fn enum_header(e: EnumV) -> Seq<char> {
    vis_text(e.visibility) + "enum "@ + e.name + generics_text(e.generics) + where_text(e.generics)
        + " {"@
}

/// An enum: header, then its variants one per line with an empty line
/// between consecutive ones.
pub open spec fn enum_lines(e: EnumV, ind: Seq<char>) -> Seq<Seq<char>> {
    preamble(e.deprecation, e.docs, ind) + seq![ind + enum_header(e)] + gap_if(true) + sep_blocks(
        variant_blocks(e.variants, ind + "  "@),
    ) + close_lines(ind)
}

pub open spec fn trait_item_lines(i: TraitItemV, ind: Seq<char>) -> Seq<Seq<char>> {
    match i {
        TraitItemV::AssocType { name, bounds, docs } => doc_lines(docs, ind) + seq![
            ind + "type "@ + name + if bounds.len() == 0 {
                Seq::empty()
            } else {
                ": "@ + join(bounds, " + "@)
            },
        ],
        TraitItemV::AssocConst { name, ty, docs } => doc_lines(docs, ind) + seq![
            ind + "const "@ + name + ": "@ + type_text(ty),
        ],
        TraitItemV::Method(f) => function_lines(f, ind, false),
    }
}

pub open spec fn trait_item_blocks(is: Seq<TraitItemV>, ind: Seq<char>) -> Seq<Seq<Seq<char>>> {
    is.map_values(|i: TraitItemV| trait_item_lines(i, ind))
}

pub open spec fn trait_header(t: TraitV) -> Seq<char> {
    vis_text(t.visibility) + "trait "@ + t.name + generics_text(t.generics) + where_text(t.generics)
        + " {"@
}

pub open spec fn trait_lines(t: TraitV, ind: Seq<char>) -> Seq<Seq<char>> {
    preamble(t.deprecation, t.docs, ind) + seq![ind + trait_header(t)] + gap_if(true) + sep_blocks(
        trait_item_blocks(t.items, ind + "  "@),
    ) + close_lines(ind)
}

pub open spec fn constant_lines(c: ConstantV, ind: Seq<char>) -> Seq<Seq<char>> {
    preamble(c.deprecation, c.docs, ind) + seq![
        ind + vis_text(c.visibility) + "const "@ + c.name + ": "@ + type_text(c.ty),
        Seq::empty(),
    ]
}

pub open spec fn macro_lines(m: MacroV, ind: Seq<char>) -> Seq<Seq<char>> {
    doc_lines(m.docs, ind) + seq![ind + m.signature, Seq::empty()]
}

/// The lines of the macros among `is`, in order.
pub open spec fn macro_item_lines(is: Seq<ItemV>, ind: Seq<char>) -> Seq<Seq<char>>
    decreases is.len(),
{
    if is.len() == 0 {
        Seq::empty()
    } else {
        macro_item_lines(is.drop_last(), ind) + match is.last() {
            ItemV::Macro(m) => macro_lines(m, ind),
            _ => Seq::empty(),
        }
    }
}

/// The lines of the items among `is` that are not macros, in order.
pub open spec fn other_item_lines(is: Seq<ItemV>, ind: Seq<char>) -> Seq<Seq<char>>
    decreases is,
{
    if is.len() == 0 {
        Seq::empty()
    } else {
        proof {
            assert(is.drop_last() == is.subrange(0, is.len() - 1));
        }
        other_item_lines(is.drop_last(), ind) + match is.last() {
            ItemV::Macro(_) => Seq::empty(),
            _ => item_lines(is.last(), ind),
        }
    }
}

/// The children of a module: macros first, then the other items in order.
pub open spec fn children_lines(is: Seq<ItemV>, ind: Seq<char>) -> Seq<Seq<char>> {
    macro_item_lines(is, ind) + other_item_lines(is, ind)
}

/// A module: documentation, `mod name`, an empty line, then its children
/// one level deeper, macros first.
pub open spec fn module_lines(m: ModuleV, ind: Seq<char>) -> Seq<Seq<char>>
    decreases m,
{
    doc_lines(m.docs, ind) + seq![ind + vis_text(m.visibility) + "mod "@ + m.name, Seq::empty()]
        + macro_item_lines(m.items, ind + "  "@) + other_item_lines(m.items, ind + "  "@)
}

/// The lines of one item of a module. A function is followed by an empty
/// line; a re-export has no lines of its own.
pub open spec fn item_lines(i: ItemV, ind: Seq<char>) -> Seq<Seq<char>>
    decreases i,
{
    match i {
        ItemV::Function(f) => function_lines(f, ind, true) + seq![Seq::<char>::empty()],
        ItemV::Struct(s) => struct_lines(s, ind),
        ItemV::Enum(e) => enum_lines(e, ind),
        ItemV::Trait(t) => trait_lines(t, ind),
        ItemV::Constant(c) => constant_lines(c, ind),
        ItemV::Module(m) => module_lines(m, ind),
        ItemV::Macro(m) => macro_lines(m, ind),
        ItemV::TraitImpl(t) => impl_lines(t, ind),
        ItemV::ReExport(_) => Seq::empty(),
    }
}

} // verus!

verus! {

/// The re-exports among `is`, in order.
pub open spec fn reexports_of(is: Seq<ItemV>) -> Seq<ReExportV>
    decreases is.len(),
{
    if is.len() == 0 {
        Seq::empty()
    } else {
        reexports_of(is.drop_last()) + match is.last() {
            ItemV::ReExport(r) => seq![r],
            _ => Seq::empty(),
        }
    }
}

/// The documentation of the first re-export that has some.
pub open spec fn first_doc(rs: Seq<ReExportV>) -> Option<Seq<char>>
    decreases rs.len(),
{
    if rs.len() == 0 {
        None
    } else if rs[0].docs is Some {
        rs[0].docs
    } else {
        first_doc(rs.drop_first())
    }
}

pub open spec fn use_lines(rs: Seq<ReExportV>) -> Seq<char>
    decreases rs.len(),
{
    if rs.len() == 0 {
        Seq::empty()
    } else {
        use_lines(rs.drop_last()) + "  pub use "@ + rs.last().path + "\n"@
    }
}

/// The re-export block: a heading, the first documentation found among the
/// re-exports, and one `pub use` line each; nothing if there are none.
pub open spec fn reexports_text(is: Seq<ItemV>) -> Seq<char> {
    let rs = reexports_of(is);
    if rs.len() == 0 {
        Seq::empty()
    } else {
        "# Re-exports\n\n"@ + (match first_doc(rs) {
            Some(doc) => "  /// "@ + doc + "\n"@,
            None => Seq::empty(),
        }) + use_lines(rs)
    }
}

/// The text of a whole crate: a `# Crate:` heading, the version and the
/// crate documentation if any, the root module's children one level deep
/// (macros first), then the re-export block.
pub open spec fn crate_text(m: ModuleV, version: Option<Seq<char>>) -> Seq<char> {
    "# Crate: "@ + m.name + "\n\n"@ + (match version {
        Some(v) => "Version: "@ + v + "\n\n"@,
        None => Seq::empty(),
    }) + (match m.docs {
        Some(t) => t + "\n\n"@,
        None => Seq::empty(),
    }) + lines_text(children_lines(m.items, "  "@)) + reexports_text(m.items)
}

} // verus!
