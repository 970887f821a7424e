//! The item tree that the parser builds and the renderer walks, with the
//! model of each node that contracts speak of.

use vstd::prelude::*;
use crate::text::{opt_view, strs_view};
use crate::types::{RustType, TypeV};

verus! {

#[derive(Debug)]
pub enum Visibility {
    Public,
    Private,
    Crate,
    Restricted(String),
}

pub enum VisibilityV {
    Public,
    Private,
    Crate,
    Restricted(Seq<char>),
}

impl View for Visibility {
    type V = VisibilityV;

    open spec fn view(&self) -> VisibilityV {
        match self {
            Visibility::Public => VisibilityV::Public,
            Visibility::Private => VisibilityV::Private,
            Visibility::Crate => VisibilityV::Crate,
            Visibility::Restricted(p) => VisibilityV::Restricted(p@),
        }
    }
}

#[derive(Debug)]
pub struct Deprecation {
    pub since: Option<String>,
    pub note: Option<String>,
}

pub struct DeprecationV {
    pub since: Option<Seq<char>>,
    pub note: Option<Seq<char>>,
}

impl View for Deprecation {
    type V = DeprecationV;

    open spec fn view(&self) -> DeprecationV {
        DeprecationV { since: opt_view(self.since), note: opt_view(self.note) }
    }
}

pub open spec fn opt_dep_view(d: Option<Deprecation>) -> Option<DeprecationV> {
    match d {
        Some(x) => Some(x@),
        None => None,
    }
}

#[derive(Debug)]
pub enum GenericParamKind {
    Type { bounds: Vec<String> },
    Lifetime,
}

pub enum GenericParamKindV {
    Type { bounds: Seq<Seq<char>> },
    Lifetime,
}

#[derive(Debug)]
pub struct GenericParam {
    pub name: String,
    pub kind: GenericParamKind,
}

pub struct GenericParamV {
    pub name: Seq<char>,
    pub kind: GenericParamKindV,
}

impl View for GenericParam {
    type V = GenericParamV;

    open spec fn view(&self) -> GenericParamV {
        GenericParamV {
            name: self.name@,
            kind: match self.kind {
                GenericParamKind::Type { bounds } => GenericParamKindV::Type {
                    bounds: strs_view(bounds@),
                },
                GenericParamKind::Lifetime => GenericParamKindV::Lifetime,
            },
        }
    }
}

#[derive(Debug)]
pub struct Generics {
    pub params: Vec<GenericParam>,
    pub where_clauses: Vec<String>,
}

pub open spec fn params_view(ps: Seq<GenericParam>) -> Seq<GenericParamV> {
    ps.map_values(|p: GenericParam| p@)
}

pub struct GenericsV {
    pub params: Seq<GenericParamV>,
    pub where_clauses: Seq<Seq<char>>,
}

impl View for Generics {
    type V = GenericsV;

    open spec fn view(&self) -> GenericsV {
        GenericsV {
            params: params_view(self.params@),
            where_clauses: strs_view(self.where_clauses@),
        }
    }
}

pub open spec fn inputs_view(inputs: Seq<(String, RustType)>) -> Seq<(Seq<char>, TypeV)> {
    inputs.map_values(|p: (String, RustType)| (p.0@, p.1@))
}

#[derive(Debug)]
pub struct FunctionSignature {
    pub name: String,
    pub visibility: Visibility,
    pub generics: Generics,
    pub inputs: Vec<(String, RustType)>,
    pub output: RustType,
    pub is_async: bool,
}

pub struct SignatureV {
    pub name: Seq<char>,
    pub visibility: VisibilityV,
    pub generics: GenericsV,
    pub inputs: Seq<(Seq<char>, TypeV)>,
    pub output: TypeV,
    pub is_async: bool,
}

impl View for FunctionSignature {
    type V = SignatureV;

    open spec fn view(&self) -> SignatureV {
        SignatureV {
            name: self.name@,
            visibility: self.visibility@,
            generics: self.generics@,
            inputs: inputs_view(self.inputs@),
            output: self.output@,
            is_async: self.is_async,
        }
    }
}

#[derive(Debug)]
pub struct ParsedFunction {
    pub signature: FunctionSignature,
    pub docs: Option<String>,
    pub deprecation: Option<Deprecation>,
}

pub struct FunctionV {
    pub signature: SignatureV,
    pub docs: Option<Seq<char>>,
    pub deprecation: Option<DeprecationV>,
}

impl View for ParsedFunction {
    type V = FunctionV;

    open spec fn view(&self) -> FunctionV {
        FunctionV {
            signature: self.signature@,
            docs: opt_view(self.docs),
            deprecation: opt_dep_view(self.deprecation),
        }
    }
}

pub open spec fn functions_view(fs: Seq<ParsedFunction>) -> Seq<FunctionV> {
    fs.map_values(|f: ParsedFunction| f@)
}

#[derive(Debug)]
pub struct ParsedField {
    pub name: String,
    pub visibility: Visibility,
    pub field_type: RustType,
    pub docs: Option<String>,
    pub deprecation: Option<Deprecation>,
}

pub struct FieldV {
    pub name: Seq<char>,
    pub visibility: VisibilityV,
    pub field_type: TypeV,
    pub docs: Option<Seq<char>>,
    pub deprecation: Option<DeprecationV>,
}

impl View for ParsedField {
    type V = FieldV;

    open spec fn view(&self) -> FieldV {
        FieldV {
            name: self.name@,
            visibility: self.visibility@,
            field_type: self.field_type@,
            docs: opt_view(self.docs),
            deprecation: opt_dep_view(self.deprecation),
        }
    }
}

pub open spec fn fields_view(fs: Seq<ParsedField>) -> Seq<FieldV> {
    fs.map_values(|f: ParsedField| f@)
}

#[derive(Debug)]
pub enum ParsedTraitImplItem {
    AssocType { name: String, ty: RustType },
    Method(ParsedFunction),
}

pub enum TraitImplItemV {
    AssocType { name: Seq<char>, ty: TypeV },
    Method(FunctionV),
}

impl View for ParsedTraitImplItem {
    type V = TraitImplItemV;

    open spec fn view(&self) -> TraitImplItemV {
        match self {
            ParsedTraitImplItem::AssocType { name, ty } => TraitImplItemV::AssocType {
                name: name@,
                ty: ty@,
            },
            ParsedTraitImplItem::Method(f) => TraitImplItemV::Method(f@),
        }
    }
}

pub open spec fn impl_items_view(is: Seq<ParsedTraitImplItem>) -> Seq<TraitImplItemV> {
    is.map_values(|i: ParsedTraitImplItem| i@)
}

#[derive(Debug)]
pub struct ParsedTraitImpl {
    pub trait_path: String,
    pub for_type: RustType,
    pub items: Vec<ParsedTraitImplItem>,
    pub docs: Option<String>,
}

pub struct TraitImplV {
    pub trait_path: Seq<char>,
    pub for_type: TypeV,
    pub items: Seq<TraitImplItemV>,
    pub docs: Option<Seq<char>>,
}

impl View for ParsedTraitImpl {
    type V = TraitImplV;

    open spec fn view(&self) -> TraitImplV {
        TraitImplV {
            trait_path: self.trait_path@,
            for_type: self.for_type@,
            items: impl_items_view(self.items@),
            docs: opt_view(self.docs),
        }
    }
}

pub open spec fn impls_view(is: Seq<ParsedTraitImpl>) -> Seq<TraitImplV> {
    is.map_values(|i: ParsedTraitImpl| i@)
}

#[derive(Debug)]
pub struct ParsedStruct {
    pub name: String,
    pub visibility: Visibility,
    pub generics: Generics,
    pub docs: Option<String>,
    pub deprecation: Option<Deprecation>,
    pub fields: Vec<ParsedField>,
    pub methods: Vec<ParsedFunction>,
    pub trait_impls: Vec<ParsedTraitImpl>,
}

pub struct StructV {
    pub name: Seq<char>,
    pub visibility: VisibilityV,
    pub generics: GenericsV,
    pub docs: Option<Seq<char>>,
    pub deprecation: Option<DeprecationV>,
    pub fields: Seq<FieldV>,
    pub methods: Seq<FunctionV>,
    pub trait_impls: Seq<TraitImplV>,
}

impl View for ParsedStruct {
    type V = StructV;

    open spec fn view(&self) -> StructV {
        StructV {
            name: self.name@,
            visibility: self.visibility@,
            generics: self.generics@,
            docs: opt_view(self.docs),
            deprecation: opt_dep_view(self.deprecation),
            fields: fields_view(self.fields@),
            methods: functions_view(self.methods@),
            trait_impls: impls_view(self.trait_impls@),
        }
    }
}

#[derive(Debug)]
pub enum VariantKind {
    Unit,
    Tuple(Vec<RustType>),
    Struct(Vec<(String, RustType)>),
}

pub enum VariantKindV {
    Unit,
    Tuple(Seq<TypeV>),
    Struct(Seq<(Seq<char>, TypeV)>),
}

pub open spec fn variant_kind_view(k: VariantKind) -> VariantKindV {
    match k {
        VariantKind::Unit => VariantKindV::Unit,
        VariantKind::Tuple(ts) => VariantKindV::Tuple(crate::types::types_view(ts@)),
        VariantKind::Struct(fs) => VariantKindV::Struct(inputs_view(fs@)),
    }
}

#[derive(Debug)]
pub struct ParsedVariant {
    pub name: String,
    pub kind: VariantKind,
    pub docs: Option<String>,
}

pub struct VariantV {
    pub name: Seq<char>,
    pub kind: VariantKindV,
    pub docs: Option<Seq<char>>,
}

impl View for ParsedVariant {
    type V = VariantV;

    open spec fn view(&self) -> VariantV {
        VariantV {
            name: self.name@,
            kind: variant_kind_view(self.kind),
            docs: opt_view(self.docs),
        }
    }
}

pub open spec fn variants_view(vs: Seq<ParsedVariant>) -> Seq<VariantV> {
    vs.map_values(|v: ParsedVariant| v@)
}

#[derive(Debug)]
pub struct ParsedEnum {
    pub name: String,
    pub visibility: Visibility,
    pub generics: Generics,
    pub variants: Vec<ParsedVariant>,
    pub docs: Option<String>,
    pub deprecation: Option<Deprecation>,
}

pub struct EnumV {
    pub name: Seq<char>,
    pub visibility: VisibilityV,
    pub generics: GenericsV,
    pub variants: Seq<VariantV>,
    pub docs: Option<Seq<char>>,
    pub deprecation: Option<DeprecationV>,
}

impl View for ParsedEnum {
    type V = EnumV;

    open spec fn view(&self) -> EnumV {
        EnumV {
            name: self.name@,
            visibility: self.visibility@,
            generics: self.generics@,
            variants: variants_view(self.variants@),
            docs: opt_view(self.docs),
            deprecation: opt_dep_view(self.deprecation),
        }
    }
}

#[derive(Debug)]
pub enum ParsedTraitItem {
    AssocType { name: String, bounds: Vec<String>, docs: Option<String> },
    AssocConst { name: String, ty: RustType, docs: Option<String> },
    Method(ParsedFunction),
}

pub enum TraitItemV {
    AssocType { name: Seq<char>, bounds: Seq<Seq<char>>, docs: Option<Seq<char>> },
    AssocConst { name: Seq<char>, ty: TypeV, docs: Option<Seq<char>> },
    Method(FunctionV),
}

impl View for ParsedTraitItem {
    type V = TraitItemV;

    open spec fn view(&self) -> TraitItemV {
        match self {
            ParsedTraitItem::AssocType { name, bounds, docs } => TraitItemV::AssocType {
                name: name@,
                bounds: strs_view(bounds@),
                docs: opt_view(*docs),
            },
            ParsedTraitItem::AssocConst { name, ty, docs } => TraitItemV::AssocConst {
                name: name@,
                ty: ty@,
                docs: opt_view(*docs),
            },
            ParsedTraitItem::Method(f) => TraitItemV::Method(f@),
        }
    }
}

pub open spec fn trait_items_view(is: Seq<ParsedTraitItem>) -> Seq<TraitItemV> {
    is.map_values(|i: ParsedTraitItem| i@)
}

#[derive(Debug)]
pub struct ParsedTrait {
    pub name: String,
    pub visibility: Visibility,
    pub generics: Generics,
    pub items: Vec<ParsedTraitItem>,
    pub docs: Option<String>,
    pub deprecation: Option<Deprecation>,
}

pub struct TraitV {
    pub name: Seq<char>,
    pub visibility: VisibilityV,
    pub generics: GenericsV,
    pub items: Seq<TraitItemV>,
    pub docs: Option<Seq<char>>,
    pub deprecation: Option<DeprecationV>,
}

impl View for ParsedTrait {
    type V = TraitV;

    open spec fn view(&self) -> TraitV {
        TraitV {
            name: self.name@,
            visibility: self.visibility@,
            generics: self.generics@,
            items: trait_items_view(self.items@),
            docs: opt_view(self.docs),
            deprecation: opt_dep_view(self.deprecation),
        }
    }
}

#[derive(Debug)]
pub struct ParsedConstant {
    pub name: String,
    pub visibility: Visibility,
    pub ty: RustType,
    pub docs: Option<String>,
    pub deprecation: Option<Deprecation>,
}

pub struct ConstantV {
    pub name: Seq<char>,
    pub visibility: VisibilityV,
    pub ty: TypeV,
    pub docs: Option<Seq<char>>,
    pub deprecation: Option<DeprecationV>,
}

impl View for ParsedConstant {
    type V = ConstantV;

    open spec fn view(&self) -> ConstantV {
        ConstantV {
            name: self.name@,
            visibility: self.visibility@,
            ty: self.ty@,
            docs: opt_view(self.docs),
            deprecation: opt_dep_view(self.deprecation),
        }
    }
}

#[derive(Debug)]
pub struct ParsedMacro {
    pub name: String,
    pub signature: String,
    pub docs: Option<String>,
}

pub struct MacroV {
    pub name: Seq<char>,
    pub signature: Seq<char>,
    pub docs: Option<Seq<char>>,
}

impl View for ParsedMacro {
    type V = MacroV;

    open spec fn view(&self) -> MacroV {
        MacroV { name: self.name@, signature: self.signature@, docs: opt_view(self.docs) }
    }
}

#[derive(Debug)]
pub struct ParsedReExport {
    pub path: String,
    pub name: String,
    pub docs: Option<String>,
}

pub struct ReExportV {
    pub path: Seq<char>,
    pub name: Seq<char>,
    pub docs: Option<Seq<char>>,
}

impl View for ParsedReExport {
    type V = ReExportV;

    open spec fn view(&self) -> ReExportV {
        ReExportV { path: self.path@, name: self.name@, docs: opt_view(self.docs) }
    }
}

#[derive(Debug)]
pub struct ParsedModule {
    pub name: String,
    pub visibility: Visibility,
    pub items: Vec<ParsedItem>,
    pub docs: Option<String>,
}

pub struct ModuleV {
    pub name: Seq<char>,
    pub visibility: VisibilityV,
    pub items: Seq<ItemV>,
    pub docs: Option<Seq<char>>,
}

#[derive(Debug)]
pub enum ParsedItem {
    Function(ParsedFunction),
    Struct(ParsedStruct),
    Enum(ParsedEnum),
    Trait(ParsedTrait),
    Constant(ParsedConstant),
    Module(ParsedModule),
    Macro(ParsedMacro),
    TraitImpl(ParsedTraitImpl),
    ReExport(ParsedReExport),
}

pub enum ItemV {
    Function(FunctionV),
    Struct(StructV),
    Enum(EnumV),
    Trait(TraitV),
    Constant(ConstantV),
    Module(ModuleV),
    Macro(MacroV),
    TraitImpl(TraitImplV),
    ReExport(ReExportV),
}

pub open spec fn item_view(i: ParsedItem) -> ItemV
    decreases i,
{
    match i {
        ParsedItem::Function(f) => ItemV::Function(f@),
        ParsedItem::Struct(s) => ItemV::Struct(s@),
        ParsedItem::Enum(e) => ItemV::Enum(e@),
        ParsedItem::Trait(t) => ItemV::Trait(t@),
        ParsedItem::Constant(c) => ItemV::Constant(c@),
        ParsedItem::Module(m) => ItemV::Module(module_view(m)),
        ParsedItem::Macro(m) => ItemV::Macro(m@),
        ParsedItem::TraitImpl(t) => ItemV::TraitImpl(t@),
        ParsedItem::ReExport(r) => ItemV::ReExport(r@),
    }
}

pub open spec fn module_view(m: ParsedModule) -> ModuleV
    decreases m,
{
    ModuleV {
        name: m.name@,
        visibility: m.visibility@,
        items: items_view(m.items@),
        docs: opt_view(m.docs),
    }
}

pub open spec fn items_view(is: Seq<ParsedItem>) -> Seq<ItemV>
    decreases is,
{
    if is.len() == 0 {
        Seq::empty()
    } else {
        proof {
            assert(is.drop_last() == is.subrange(0, is.len() - 1));
        }
        items_view(is.drop_last()).push(item_view(is.last()))
    }
}

impl View for ParsedItem {
    type V = ItemV;

    open spec fn view(&self) -> ItemV {
        item_view(*self)
    }
}

impl View for ParsedModule {
    type V = ModuleV;

    open spec fn view(&self) -> ModuleV {
        module_view(*self)
    }
}

} // verus!
