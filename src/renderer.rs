//! The public face of the renderer: the render context, the [`Render`]
//! capability of every tree node, and the whole-crate driver.

use vstd::prelude::*;
use crate::text::opt_view;
use crate::types::{RustType, type_text};
use crate::lines::{indent, lines_text, push_indent};
use crate::model::{
    Visibility, Deprecation, Generics, ParsedFunction, ParsedStruct, ParsedEnum, ParsedVariant,
    ParsedTrait, ParsedTraitItem, ParsedConstant, ParsedModule, ParsedMacro, ParsedTraitImpl,
    ParsedTraitImplItem, ParsedItem, ReExportV, ItemV, opt_dep_view, item_view, module_view,
    items_view,
};
use crate::render::{
    function_lines, struct_lines, enum_lines, variant_lines, trait_lines, trait_item_lines,
    constant_lines, module_lines, macro_lines, impl_lines, impl_item_lines, item_lines, doc_lines,
    deprecation_lines, vis_text, generics_text, where_text, children_lines, reexports_of,
    first_doc, use_lines, reexports_text, crate_text,
};
use crate::write::{
    write_function, write_struct, write_enum, write_variant, write_trait, write_trait_item,
    write_constant, write_module, write_macro, write_impl, write_impl_item, write_item,
    write_docs, write_deprecation, write_visibility, write_generics, write_where,
    lemma_items_view_index,
};

verus! {

/// The output format; plain text is the only one.
#[derive(Debug, Clone, Copy, PartialEq, Eq, Structural)]
pub enum OutputFormat {
    Text,
}

/// What rendering threads through the tree: the depth (two spaces of
/// indentation per level) and the display configuration.
#[derive(Debug, Clone, Copy)]
pub struct RenderContext {
    pub depth: usize,
    pub show_private: bool,
    pub format: OutputFormat,
}

impl RenderContext {
    /// Depth zero, plain text.
    pub fn new() -> (r: RenderContext)
        ensures
            r.depth == 0,
            !r.show_private,
            r.format == OutputFormat::Text,
    {
        RenderContext { depth: 0, show_private: false, format: OutputFormat::Text }
    }

    /// The same configuration at another depth.
    pub fn with_depth(&self, depth: usize) -> (r: RenderContext)
        ensures
            r.depth == depth,
            r.show_private == self.show_private,
            r.format == self.format,
    {
        RenderContext { depth, show_private: self.show_private, format: self.format }
    }

    /// The indentation at this depth: two spaces per level.
    pub fn indent(&self) -> (r: String)
        ensures
            r@ == indent(self.depth as nat),
    {
        indent_string(self.depth)
    }
}

impl Default for RenderContext {
    fn default() -> (r: RenderContext)
        ensures
            r.depth == 0,
            !r.show_private,
            r.format == OutputFormat::Text,
    {
        RenderContext::new()
    }
}

/// `2 * depth` spaces.
pub fn indent_string(depth: usize) -> (r: String)
    ensures
        r@ == indent(depth as nat),
{
    let mut s = String::new();
    push_indent(&mut s, depth);
    assert(s@ =~= indent(depth as nat));
    s
}

/// The capability of turning a tree node, at the depth of a context, into
/// text.
pub trait Render {
    fn render(&self, context: &RenderContext) -> String;
}

impl Render for ParsedFunction {
    fn render(&self, context: &RenderContext) -> (r: String)
        ensures
            r@ == lines_text(function_lines(self@, indent(context.depth as nat), true)),
    {
        let ind = context.indent();
        let mut out = String::new();
        write_function(&mut out, self, &ind, true);
        assert(out@ =~= lines_text(function_lines(self@, indent(context.depth as nat), true)));
        out
    }
}

impl Render for ParsedStruct {
    fn render(&self, context: &RenderContext) -> (r: String)
        ensures
            r@ == lines_text(struct_lines(self@, indent(context.depth as nat))),
    {
        let ind = context.indent();
        let mut out = String::new();
        write_struct(&mut out, self, &ind);
        assert(out@ =~= lines_text(struct_lines(self@, indent(context.depth as nat))));
        out
    }
}

impl Render for ParsedEnum {
    fn render(&self, context: &RenderContext) -> (r: String)
        ensures
            r@ == lines_text(enum_lines(self@, indent(context.depth as nat))),
    {
        let ind = context.indent();
        let mut out = String::new();
        write_enum(&mut out, self, &ind);
        assert(out@ =~= lines_text(enum_lines(self@, indent(context.depth as nat))));
        out
    }
}

impl Render for ParsedVariant {
    fn render(&self, context: &RenderContext) -> (r: String)
        ensures
            r@ == lines_text(variant_lines(self@, indent(context.depth as nat))),
    {
        let ind = context.indent();
        let mut out = String::new();
        write_variant(&mut out, self, &ind);
        assert(out@ =~= lines_text(variant_lines(self@, indent(context.depth as nat))));
        out
    }
}

impl Render for ParsedTrait {
    fn render(&self, context: &RenderContext) -> (r: String)
        ensures
            r@ == lines_text(trait_lines(self@, indent(context.depth as nat))),
    {
        let ind = context.indent();
        let mut out = String::new();
        write_trait(&mut out, self, &ind);
        assert(out@ =~= lines_text(trait_lines(self@, indent(context.depth as nat))));
        out
    }
}

impl Render for ParsedTraitItem {
    fn render(&self, context: &RenderContext) -> (r: String)
        ensures
            r@ == lines_text(trait_item_lines(self@, indent(context.depth as nat))),
    {
        let ind = context.indent();
        let mut out = String::new();
        write_trait_item(&mut out, self, &ind);
        assert(out@ =~= lines_text(trait_item_lines(self@, indent(context.depth as nat))));
        out
    }
}

impl Render for ParsedConstant {
    fn render(&self, context: &RenderContext) -> (r: String)
        ensures
            r@ == lines_text(constant_lines(self@, indent(context.depth as nat))),
    {
        let ind = context.indent();
        let mut out = String::new();
        write_constant(&mut out, self, &ind);
        assert(out@ =~= lines_text(constant_lines(self@, indent(context.depth as nat))));
        out
    }
}

impl Render for ParsedModule {
    fn render(&self, context: &RenderContext) -> (r: String)
        ensures
            r@ == lines_text(module_lines(module_view(*self), indent(context.depth as nat))),
    {
        let ind = context.indent();
        let mut out = String::new();
        write_module(&mut out, self, &ind);
        assert(out@ =~= lines_text(module_lines(module_view(*self), indent(context.depth as nat))));
        out
    }
}

impl Render for ParsedMacro {
    fn render(&self, context: &RenderContext) -> (r: String)
        ensures
            r@ == lines_text(macro_lines(self@, indent(context.depth as nat))),
    {
        let ind = context.indent();
        let mut out = String::new();
        write_macro(&mut out, self, &ind);
        assert(out@ =~= lines_text(macro_lines(self@, indent(context.depth as nat))));
        out
    }
}

impl Render for ParsedTraitImpl {
    fn render(&self, context: &RenderContext) -> (r: String)
        ensures
            r@ == lines_text(impl_lines(self@, indent(context.depth as nat))),
    {
        let ind = context.indent();
        let mut out = String::new();
        write_impl(&mut out, self, &ind);
        assert(out@ =~= lines_text(impl_lines(self@, indent(context.depth as nat))));
        out
    }
}

impl Render for ParsedTraitImplItem {
    fn render(&self, context: &RenderContext) -> (r: String)
        ensures
            r@ == lines_text(impl_item_lines(self@, indent(context.depth as nat))),
    {
        let ind = context.indent();
        let mut out = String::new();
        write_impl_item(&mut out, self, &ind);
        assert(out@ =~= lines_text(impl_item_lines(self@, indent(context.depth as nat))));
        out
    }
}

impl Render for ParsedItem {
    fn render(&self, context: &RenderContext) -> (r: String)
        ensures
            r@ == lines_text(item_lines(item_view(*self), indent(context.depth as nat))),
    {
        let ind = context.indent();
        let mut out = String::new();
        write_item(&mut out, self, &ind);
        assert(out@ =~= lines_text(item_lines(item_view(*self), indent(context.depth as nat))));
        out
    }
}

} // verus!

verus! {

/// Renders type expressions, visibilities and generics on their own.
pub struct TypeRenderer;

impl TypeRenderer {
    pub fn render_type(&self, ty: &RustType) -> (r: String)
        ensures
            r@ == type_text(ty@),
    {
        ty.text()
    }

    pub fn render_visibility(&self, vis: &Visibility) -> (r: String)
        ensures
            r@ == vis_text(vis@),
    {
        let mut out = String::new();
        write_visibility(&mut out, vis);
        assert(out@ =~= vis_text(vis@));
        out
    }

    pub fn render_generics(&self, generics: &Generics) -> (r: String)
        ensures
            r@ == generics_text(generics@),
    {
        let mut out = String::new();
        write_generics(&mut out, generics);
        assert(out@ =~= generics_text(generics@));
        out
    }

    pub fn render_where_clause(&self, generics: &Generics) -> (r: String)
        ensures
            r@ == where_text(generics@),
    {
        let mut out = String::new();
        write_where(&mut out, generics);
        assert(out@ =~= where_text(generics@));
        out
    }
}

fn opt_string(o: Option<&String>) -> (r: Option<String>)
    ensures
        opt_view(r) == match o {
            Some(s) => Some(s@),
            None => None::<Seq<char>>,
        },
{
    match o {
        Some(s) => Some(s.clone()),
        None => None,
    }
}

/// Renders documentation and deprecation notices on their own.
pub struct DocRenderer;

impl DocRenderer {
    /// Each line of `docs` as `indent` followed by `/// ` and the line, or by
    /// a bare `///` for a blank line.
    pub fn render_docs(&self, docs: Option<&String>, indent: &str) -> (r: String)
        ensures
            r@ == lines_text(doc_lines(match docs {
                Some(s) => Some(s@),
                None => None,
            }, indent@)),
    {
        let ind = String::from_str(indent);
        let d = opt_string(docs);
        let mut out = String::new();
        write_docs(&mut out, &d, &ind);
        assert(out@ =~= lines_text(doc_lines(opt_view(d), indent@)));
        out
    }

    /// `DEPRECATED`, with `since <version>` when the version is known.
    pub fn render_deprecation(&self, deprecation: Option<&Deprecation>, indent: &str) -> (r: String)
        ensures
            r@ == lines_text(deprecation_lines(match deprecation {
                Some(d) => Some(d@),
                None => None,
            }, indent@)),
    {
        let ind = String::from_str(indent);
        let d = match deprecation {
            Some(x) => Some(Deprecation { since: opt_string(x.since.as_ref()), note: opt_string(x.note.as_ref()) }),
            None => None,
        };
        let mut out = String::new();
        write_deprecation(&mut out, &d, &ind);
        assert(out@ =~= lines_text(deprecation_lines(opt_dep_view(d), indent@)));
        out
    }
}

/// Indentation strings.
pub struct IndentationHelper;

impl IndentationHelper {
    pub fn indent_for_depth(depth: usize) -> (r: String)
        ensures
            r@ == indent(depth as nat),
    {
        indent_string(depth)
    }

    pub fn indent_from_context(context: &RenderContext) -> (r: String)
        ensures
            r@ == indent(context.depth as nat),
    {
        context.indent()
    }
}

proof fn lemma_first_doc_push(rs: Seq<ReExportV>, x: ReExportV)
    ensures
        first_doc(rs.push(x)) == if first_doc(rs) is Some {
            first_doc(rs)
        } else {
            x.docs
        },
    decreases rs.len(),
{
    if rs.len() > 0 {
        assert(rs.push(x)[0] == rs[0]);
        assert(rs.push(x).drop_first() =~= rs.drop_first().push(x));
        lemma_first_doc_push(rs.drop_first(), x);
        if rs[0].docs is None {
            assert(first_doc(rs) == first_doc(rs.drop_first()));
            assert(first_doc(rs.push(x)) == first_doc(rs.push(x).drop_first()));
        }
    } else {
        assert(rs.push(x)[0] == x);
        assert(rs.push(x).drop_first().len() == 0);
    }
}

/// Renders a parsed crate: the driver around the per-item renderers.
pub struct ParsedRenderer;

impl ParsedRenderer {
    /// The text of a whole crate: heading, version, crate documentation,
    /// the root module's children (macros first), then the re-exports.
    pub fn render(&self, module: &ParsedModule, crate_version: Option<&str>) -> (r: String)
        ensures
            r@ == crate_text(module_view(*module), match crate_version {
                Some(v) => Some(v@),
                None => None,
            }),
    {
        let ghost mv = module_view(*module);
        let mut out = String::from_str("# Crate: ");
        out.append(module.name.as_str());
        out.append("\n\n");
        if let Some(v) = crate_version {
            out.append("Version: ");
            out.append(v);
            out.append("\n\n");
        }
        if let Some(d) = &module.docs {
            out.append(d.as_str());
            out.append("\n\n");
        }
        let ghost head = out@;
        let child = String::from_str("  ");
        let ghost body_start = out@;
        crate::write::write_macro_items(&mut out, &module.items, &child);
        crate::write::write_other_items(&mut out, &module.items, &child);
        proof {
            crate::lines::lemma_lines_text_concat(crate::render::macro_item_lines(mv.items, "  "@), crate::render::other_item_lines(mv.items, "  "@));
        }
        assert(out@ =~= body_start + lines_text(children_lines(mv.items, "  "@)));
        let ghost before_uses = out@;
        self.render_reexports(&module.items, &mut out);
        assert(out@ =~= crate_text(mv, match crate_version {
            Some(v) => Some(v@),
            None => None,
        }));
        out
    }

    fn render_reexports(&self, items: &Vec<ParsedItem>, out: &mut String)
        ensures
            final(out)@ == old(out)@ + reexports_text(items_view(items@)),
    {
        let ghost iv = items_view(items@);
        proof {
            lemma_items_view_index(items@);
        }
        let mut any = false;
        let mut doc: Option<&String> = None;
        let mut k: usize = 0;
        assert(iv.take(0) =~= Seq::<ItemV>::empty());
        while k < items.len()
            invariant
                0 <= k <= items@.len(),
                iv == items_view(items@),
                iv.len() == items@.len(),
                forall|j: int| 0 <= j < items@.len() ==> #[trigger] iv[j] == item_view(items@[j]),
                any == (reexports_of(iv.take(k as int)).len() > 0),
                first_doc(reexports_of(iv.take(k as int))) == match doc {
                    Some(s) => Some(s@),
                    None => None::<Seq<char>>,
                },
            decreases items@.len() - k,
        {
            assert(iv.take(k + 1).drop_last() == iv.take(k as int));
            assert(iv.take(k + 1).last() == iv[k as int]);
            let ghost prev = reexports_of(iv.take(k as int));
            if let ParsedItem::ReExport(r) = &items[k] {
                proof {
                    assert(reexports_of(iv.take(k + 1)) == prev + seq![r@]);
                    assert(prev + seq![r@] == prev.push(r@));
                    lemma_first_doc_push(prev, r@);
                }
                any = true;
                if doc.is_none() {
                    doc = r.docs.as_ref();
                }
            } else {
                assert(reexports_of(iv.take(k + 1)) =~= prev);
            }
            k = k + 1;
        }
        assert(iv.take(k as int) =~= iv);
        let ghost start = out@;
        if !any {
            assert(out@ =~= start + reexports_text(iv));
            return;
        }
        out.append("# Re-exports\n\n");
        if let Some(d) = doc {
            out.append("  /// ");
            out.append(d.as_str());
            out.append("\n");
        }
        let ghost mid = out@;
        let mut k: usize = 0;
        while k < items.len()
            invariant
                0 <= k <= items@.len(),
                iv == items_view(items@),
                iv.len() == items@.len(),
                forall|j: int| 0 <= j < items@.len() ==> #[trigger] iv[j] == item_view(items@[j]),
                out@ == mid + use_lines(reexports_of(iv.take(k as int))),
            decreases items@.len() - k,
        {
            assert(iv.take(k + 1).drop_last() == iv.take(k as int));
            assert(iv.take(k + 1).last() == iv[k as int]);
            let ghost prev = reexports_of(iv.take(k as int));
            if let ParsedItem::ReExport(r) = &items[k] {
                out.append("  pub use ");
                out.append(r.path.as_str());
                out.append("\n");
                proof {
                    assert(reexports_of(iv.take(k + 1)) =~= prev.push(r@));
                    assert(prev.push(r@).drop_last() == prev);
                }
                assert(out@ =~= mid + use_lines(reexports_of(iv.take(k + 1))));
            } else {
                assert(reexports_of(iv.take(k + 1)) =~= prev);
            }
            k = k + 1;
        }
        assert(out@ =~= start + reexports_text(iv));
    }

    /// Appends one item of a module at `depth`.
    pub fn render_item(&self, item: &ParsedItem, output: &mut String, depth: usize)
        ensures
            final(output)@ == old(output)@ + lines_text(item_lines(item_view(*item), indent(depth as nat))),
    {
        let ind = indent_string(depth);
        write_item(output, item, &ind);
    }

    /// Appends a function at `depth`.
    pub fn render_function(&self, func: &ParsedFunction, output: &mut String, depth: usize)
        ensures
            final(output)@ == old(output)@ + lines_text(function_lines(func@, indent(depth as nat), true)),
    {
        let ind = indent_string(depth);
        write_function(output, func, &ind, true);
    }

    /// Appends a struct at `depth`.
    pub fn render_struct(&self, st: &ParsedStruct, output: &mut String, depth: usize)
        ensures
            final(output)@ == old(output)@ + lines_text(struct_lines(st@, indent(depth as nat))),
    {
        let ind = indent_string(depth);
        write_struct(output, st, &ind);
    }

    /// Appends a trait implementation at `depth`.
    pub fn render_trait_impl(&self, impl_: &ParsedTraitImpl, output: &mut String, depth: usize)
        ensures
            final(output)@ == old(output)@ + lines_text(impl_lines(impl_@, indent(depth as nat))),
    {
        let ind = indent_string(depth);
        write_impl(output, impl_, &ind);
    }

    /// Appends a member of a trait implementation at `depth`.
    pub fn render_trait_impl_item(&self, item: &ParsedTraitImplItem, output: &mut String, depth: usize)
        ensures
            final(output)@ == old(output)@ + lines_text(impl_item_lines(item@, indent(depth as nat))),
    {
        let ind = indent_string(depth);
        write_impl_item(output, item, &ind);
    }

    /// Appends an enum at `depth`.
    pub fn render_enum(&self, en: &ParsedEnum, output: &mut String, depth: usize)
        ensures
            final(output)@ == old(output)@ + lines_text(enum_lines(en@, indent(depth as nat))),
    {
        let ind = indent_string(depth);
        write_enum(output, en, &ind);
    }

    /// Appends a variant at `depth`.
    pub fn render_variant(&self, variant: &ParsedVariant, output: &mut String, depth: usize)
        ensures
            final(output)@ == old(output)@ + lines_text(variant_lines(variant@, indent(depth as nat))),
    {
        let ind = indent_string(depth);
        write_variant(output, variant, &ind);
    }

    /// Appends a trait at `depth`.
    pub fn render_trait(&self, tr: &ParsedTrait, output: &mut String, depth: usize)
        ensures
            final(output)@ == old(output)@ + lines_text(trait_lines(tr@, indent(depth as nat))),
    {
        let ind = indent_string(depth);
        write_trait(output, tr, &ind);
    }

    /// Appends a trait member at `depth`.
    pub fn render_trait_item(&self, item: &ParsedTraitItem, output: &mut String, depth: usize)
        ensures
            final(output)@ == old(output)@ + lines_text(trait_item_lines(item@, indent(depth as nat))),
    {
        let ind = indent_string(depth);
        write_trait_item(output, item, &ind);
    }

    /// Appends a constant at `depth`.
    pub fn render_constant(&self, c: &ParsedConstant, output: &mut String, depth: usize)
        ensures
            final(output)@ == old(output)@ + lines_text(constant_lines(c@, indent(depth as nat))),
    {
        let ind = indent_string(depth);
        write_constant(output, c, &ind);
    }

    /// Appends a module at `depth`.
    pub fn render_module(&self, m: &ParsedModule, output: &mut String, depth: usize)
        ensures
            final(output)@ == old(output)@ + lines_text(module_lines(module_view(*m), indent(depth as nat))),
    {
        let ind = indent_string(depth);
        write_module(output, m, &ind);
    }

    /// Appends a macro at `depth`.
    pub fn render_macro(&self, mac: &ParsedMacro, output: &mut String, depth: usize)
        ensures
            final(output)@ == old(output)@ + lines_text(macro_lines(mac@, indent(depth as nat))),
    {
        let ind = indent_string(depth);
        write_macro(output, mac, &ind);
    }

    /// Appends the documentation lines of `docs`, each prefixed with
    /// `indent`.
    pub fn render_doc_comment(&self, docs: &str, output: &mut String, indent: &str)
        ensures
            final(output)@ == old(output)@ + lines_text(doc_lines(Some(docs@), indent@)),
    {
        let ind = String::from_str(indent);
        let d = Some(String::from_str(docs));
        write_docs(output, &d, &ind);
    }
}

} // verus!
