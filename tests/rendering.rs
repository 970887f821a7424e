use doccer::model::{
    Deprecation, FunctionSignature, GenericParam, GenericParamKind, Generics, ParsedEnum,
    ParsedFunction, ParsedItem, ParsedModule, ParsedStruct, ParsedTraitImpl, ParsedTraitImplItem,
    ParsedTraitItem, ParsedVariant, VariantKind, Visibility, ParsedMacro, ParsedReExport,
};
use doccer::renderer::{DocRenderer, ParsedRenderer, Render, RenderContext, TypeRenderer};
use doccer::types::RustType;

fn no_generics() -> Generics {
    Generics { params: vec![], where_clauses: vec![] }
}

fn self_ref(mutable: bool) -> (String, RustType) {
    (
        "self".to_string(),
        RustType::Reference {
            lifetime: None,
            mutable,
            inner: Box::new(RustType::Generic("Self".to_string())),
        },
    )
}

fn str_ref() -> RustType {
    RustType::Reference { lifetime: None, mutable: false, inner: Box::new(RustType::Primitive("str".to_string())) }
}

fn function(name: &str, inputs: Vec<(String, RustType)>, output: RustType) -> ParsedFunction {
    ParsedFunction {
        signature: FunctionSignature {
            name: name.to_string(),
            visibility: Visibility::Public,
            generics: no_generics(),
            inputs,
            output,
            is_async: false,
        },
        docs: None,
        deprecation: None,
    }
}

fn leading_spaces(line: &str) -> usize {
    line.chars().take_while(|c| *c == ' ').count()
}

#[test]
fn test_doc_comment_whitespace() {
    let docs = "A macro for creating formatted messages\n\n# Examples\n\n```\nlet msg = format_message!(\"Hello\", \"World\");\nassert_eq!(msg, \"Hello: World\");\n```";
    let mut output = String::new();
    let doc_renderer = DocRenderer;
    output.push_str(&doc_renderer.render_docs(Some(&docs.to_string()), "  "));
    assert!(output.contains("/// A macro"));
    assert!(output.contains("///\n"));
    assert!(!output.contains("/// \n"));
    assert!(!output.contains("///  "));
    for line in output.lines() {
        if line.starts_with("///") && line.len() > 3 {
            assert_eq!(&line[0..4], "/// ", "Line should have exactly one space after ///");
        }
    }
}

#[test]
fn test_trait_impl_indentation() {
    let trait_impl = ParsedTraitImpl {
        trait_path: "Named".to_string(),
        for_type: RustType::Path { path: "Person".to_string(), generics: vec![] },
        items: vec![ParsedTraitImplItem::Method(function("name", vec![self_ref(false)], str_ref()))],
        docs: Some("Implementation of Named trait for Person".to_string()),
    };
    let context = RenderContext::new().with_depth(1);
    let output = trait_impl.render(&context);
    assert!(output.contains("impl Named for Person"));
    assert!(output.contains("\n    fn name("));
    let lines: Vec<&str> = output.lines().collect();
    let method_line = lines.iter().find(|line| line.contains("fn name")).unwrap();
    assert_eq!(method_line.chars().take(4).filter(|c| *c == ' ').count(), 4);
}

fn handler_impl() -> ParsedTraitImpl {
    let process = function(
        "process",
        vec![self_ref(false)],
        RustType::Path {
            path: "Result".to_string(),
            generics: vec![RustType::Unit, RustType::Primitive("String".to_string())],
        },
    );
    let mut handle_error = function(
        "handle_error",
        vec![self_ref(false), ("_error".to_string(), str_ref())],
        RustType::Unit,
    );
    handle_error.deprecation = Some(Deprecation { since: Some("1.2.5".to_string()), note: None });
    ParsedTraitImpl {
        trait_path: "Handler".to_string(),
        for_type: RustType::Path { path: "DefaultHandler".to_string(), generics: vec![] },
        items: vec![ParsedTraitImplItem::Method(process), ParsedTraitImplItem::Method(handle_error)],
        docs: None,
    }
}

#[test]
fn test_trait_method_impl_indentation() {
    let context = RenderContext::new().with_depth(1);
    let output = handler_impl().render(&context);
    let lines: Vec<&str> = output.lines().collect();
    let process_line = lines.iter().find(|line| line.contains("fn process")).unwrap();
    let handle_error_line = lines.iter().find(|line| line.contains("fn handle_error")).unwrap();
    assert_eq!(process_line.chars().take(4).filter(|c| *c == ' ').count(), 4);
    assert_eq!(handle_error_line.chars().take(4).filter(|c| *c == ' ').count(), 4);
    assert!(output.contains("DEPRECATED since 1.2.5"));
    assert!(output.contains("fn process(&self) -> Result<(), String>"));
    assert!(output.contains("fn handle_error(&self, _error: &str)"));
}

#[test]
fn test_trait_impl_with_deprecated_methods() {
    let context = RenderContext::new().with_depth(1);
    let output = handler_impl().render(&context);
    assert!(output.contains("fn process("));
    assert!(output.contains("fn handle_error("));
    assert!(output.contains("DEPRECATED since 1.2.5"));
    let deprecation_pos = output.find("DEPRECATED since 1.2.5").unwrap();
    let handle_error_pos = output.find("fn handle_error(").unwrap();
    assert!(deprecation_pos < handle_error_pos);
    let lines: Vec<&str> = output.lines().collect();
    let process_line = lines.iter().find(|line| line.contains("fn process")).unwrap();
    let handle_error_line = lines.iter().find(|line| line.contains("fn handle_error")).unwrap();
    assert_eq!(process_line.chars().take(4).filter(|c| *c == ' ').count(), 4);
    assert_eq!(handle_error_line.chars().take(4).filter(|c| *c == ' ').count(), 4);
}

#[test]
fn test_function_return_type() {
    let func = function(
        "add",
        vec![
            self_ref(true),
            ("key".to_string(), RustType::Primitive("String".to_string())),
            ("content".to_string(), RustType::Primitive("String".to_string())),
        ],
        RustType::Unit,
    );
    let output = func.render(&RenderContext::new().with_depth(1));
    assert!(!output.contains("-> ..."));
    assert!(output.contains("pub fn add("));
}

#[test]
fn test_function_with_unit_return_type() {
    let func = function(
        "set_timeout",
        vec![self_ref(true), ("seconds".to_string(), RustType::Primitive("u32".to_string()))],
        RustType::Unit,
    );
    let output = func.render(&RenderContext::new().with_depth(1));
    assert!(!output.contains("-> ()"));
    assert!(!output.contains("-> ..."));
}

#[test]
fn test_function_with_missing_return_type() {
    let func = function(
        "handle_error",
        vec![self_ref(false), ("error".to_string(), str_ref())],
        RustType::Unit,
    );
    let output = func.render(&RenderContext::new().with_depth(1));
    assert!(!output.contains("-> ..."));
    assert!(output.contains("pub fn handle_error("));
}

fn plain_struct(name: &str, generics: Generics) -> ParsedStruct {
    ParsedStruct {
        name: name.to_string(),
        visibility: Visibility::Public,
        generics,
        docs: None,
        deprecation: None,
        fields: vec![],
        methods: vec![],
        trait_impls: vec![],
    }
}

fn type_param(name: &str, bounds: &[&str]) -> GenericParam {
    GenericParam {
        name: name.to_string(),
        kind: GenericParamKind::Type { bounds: bounds.iter().map(|b| b.to_string()).collect() },
    }
}

#[test]
fn test_struct_with_where_clause() {
    let generics = Generics {
        params: vec![
            GenericParam { name: "'a".to_string(), kind: GenericParamKind::Lifetime },
            type_param("T", &["Cacheable"]),
        ],
        where_clauses: vec![],
    };
    let output = plain_struct("Cache", generics).render(&RenderContext::new().with_depth(1));
    assert!(output.contains("pub struct Cache<'a, T: Cacheable>"));
    assert!(!output.contains("pub struct Cache<'a, T>"));
}

#[test]
fn test_complex_struct_generics() {
    let generics = Generics {
        params: vec![
            type_param("K", &["Clone", "Debug", "PartialEq", "std::hash::Hash"]),
            type_param("V", &["Clone", "Debug"]),
        ],
        where_clauses: vec![],
    };
    let output = plain_struct("Storage", generics).render(&RenderContext::new().with_depth(1));
    assert!(output.contains("pub struct Storage<K: Clone + Debug + PartialEq + std::hash::Hash, V: Clone + Debug>"));
}

#[test]
fn test_trait_impl_block_style() {
    let trait_impl = ParsedTraitImpl {
        trait_path: "Error".to_string(),
        for_type: RustType::Path { path: "HttpError".to_string(), generics: vec![] },
        items: vec![],
        docs: None,
    };
    let output = trait_impl.render(&RenderContext::new().with_depth(1));
    assert!(output.contains("impl Error for HttpError"));
    assert!(!output.contains("impl Error for HttpError {"));
    assert!(!output.contains("impl Error for HttpError {\n\n}"));
}

fn point_impl(trait_path: &str, items: Vec<ParsedTraitImplItem>) -> ParsedTraitImpl {
    ParsedTraitImpl {
        trait_path: trait_path.to_string(),
        for_type: RustType::Path {
            path: "Point".to_string(),
            generics: vec![RustType::Generic("T".to_string())],
        },
        items,
        docs: None,
    }
}

#[test]
fn test_all_trait_impls_rendered() {
    let eq = function(
        "eq",
        vec![
            self_ref(false),
            (
                "other".to_string(),
                RustType::Reference {
                    lifetime: None,
                    mutable: false,
                    inner: Box::new(RustType::Path {
                        path: "Point".to_string(),
                        generics: vec![RustType::Generic("T".to_string())],
                    }),
                },
            ),
        ],
        RustType::Primitive("bool".to_string()),
    );
    let module = ParsedModule {
        name: "test".to_string(),
        visibility: Visibility::Public,
        docs: None,
        items: vec![
            ParsedItem::TraitImpl(point_impl("Copy", vec![])),
            ParsedItem::TraitImpl(point_impl("StructuralPartialEq", vec![])),
            ParsedItem::TraitImpl(point_impl("PartialEq", vec![ParsedTraitImplItem::Method(eq)])),
        ],
    };
    let mut output = String::new();
    for item in &module.items {
        output.push_str(&item.render(&RenderContext::new().with_depth(1)));
    }
    assert!(output.contains("impl Copy for Point<T>"));
    assert!(output.contains("impl StructuralPartialEq for Point<T>"));
    assert!(output.contains("impl PartialEq for Point<T>"));
    let copy_pos = output.find("impl Copy for Point<T>").unwrap();
    let structural_pos = output.find("impl StructuralPartialEq for Point<T>").unwrap();
    let partial_eq_pos = output.find("impl PartialEq for Point<T>").unwrap();
    assert!(copy_pos < structural_pos);
    assert!(structural_pos < partial_eq_pos);
}

#[test]
fn test_deprecation_rendering() {
    let mut func = function(
        "set_timeout",
        vec![self_ref(true), ("seconds".to_string(), RustType::Primitive("u32".to_string()))],
        RustType::Unit,
    );
    func.docs = Some("Old method for setting timeout in seconds".to_string());
    func.deprecation = Some(Deprecation { since: Some("1.1.0".to_string()), note: None });
    let output = func.render(&RenderContext::new().with_depth(1));
    assert!(output.contains("  DEPRECATED since 1.1.0"));
    assert!(output.contains("pub fn set_timeout"));
}

#[test]
fn test_trait_with_deprecated_methods() {
    let mut f = function("handle_error", vec![self_ref(false), ("error".to_string(), str_ref())], RustType::Unit);
    f.docs = Some("Old way of handling errors".to_string());
    f.deprecation = Some(Deprecation { since: Some("1.2.5".to_string()), note: None });
    let trait_item = ParsedTraitItem::Method(f);
    let output = trait_item.render(&RenderContext::new().with_depth(1));
    assert!(output.contains("DEPRECATED since 1.2.5"));
    assert!(output.contains("fn handle_error("));
    let deprecation_pos = output.find("DEPRECATED since 1.2.5").unwrap();
    let handle_error_pos = output.find("fn handle_error(").unwrap();
    assert!(deprecation_pos < handle_error_pos);
}

#[test]
fn function_add_scenario() {
    let mut f = function(
        "add",
        vec![
            ("a".to_string(), RustType::Primitive("i32".to_string())),
            ("b".to_string(), RustType::Primitive("i32".to_string())),
        ],
        RustType::Primitive("i32".to_string()),
    );
    f.docs = Some("Adds two numbers".to_string());
    assert_eq!(f.render(&RenderContext::new()), "pub fn add(a: i32, b: i32) -> i32\n/// Adds two numbers\n");
    let module = ParsedModule {
        name: "math".to_string(),
        visibility: Visibility::Public,
        docs: None,
        items: vec![ParsedItem::Function(f)],
    };
    let text = ParsedRenderer.render(&module, None);
    assert_eq!(text, "# Crate: math\n\n  pub fn add(a: i32, b: i32) -> i32\n  /// Adds two numbers\n\n");
}

#[test]
fn generic_struct_without_methods_scenario() {
    let s = plain_struct("Point", Generics { params: vec![type_param("T", &["Copy"])], where_clauses: vec![] });
    assert_eq!(s.render(&RenderContext::new()), "pub struct Point<T: Copy> {\n}\n\n");
}

fn unit_variant(name: &str) -> ParsedVariant {
    ParsedVariant { name: name.to_string(), kind: VariantKind::Unit, docs: None }
}

#[test]
fn unit_variants_scenario() {
    let e = ParsedEnum {
        name: "Color".to_string(),
        visibility: Visibility::Public,
        generics: no_generics(),
        variants: vec![unit_variant("Red"), unit_variant("Green"), unit_variant("Blue")],
        docs: None,
        deprecation: None,
    };
    assert_eq!(
        e.render(&RenderContext::new()),
        "pub enum Color {\n\n  Red\n\n  Green\n\n  Blue\n}\n\n"
    );
}

#[test]
fn members_are_indented_by_depth() {
    let mut f = function("run", vec![self_ref(true)], RustType::Unit);
    f.docs = Some("Runs.\n\n  indented text".to_string());
    f.deprecation = Some(Deprecation { since: None, note: None });
    for depth in 0..4usize {
        let output = f.render(&RenderContext::new().with_depth(depth));
        for line in output.lines() {
            assert_eq!(leading_spaces(line), 2 * depth);
        }
    }
    let output = f.render(&RenderContext::new().with_depth(2));
    assert_eq!(output, "    DEPRECATED\n    pub fn run(&mut self)\n    /// Runs.\n    ///\n    ///   indented text\n");
}

#[test]
fn unit_output_has_no_arrow() {
    let f = function("stop", vec![self_ref(false)], RustType::Unit);
    let output = f.render(&RenderContext::new());
    assert!(!output.contains("->"));
    assert_eq!(output, "pub fn stop(&self)\n");
}

#[test]
fn type_texts() {
    let t = TypeRenderer;
    let r = RustType::Reference {
        lifetime: Some("'a".to_string()),
        mutable: true,
        inner: Box::new(RustType::Slice(Box::new(RustType::Primitive("u8".to_string())))),
    };
    assert_eq!(t.render_type(&r), "&'a mut [u8]");
    assert_eq!(t.render_type(&RustType::Unknown), "...");
    assert_eq!(t.render_type(&RustType::Unit), "()");
    let arr = RustType::Array { inner: Box::new(RustType::Primitive("u8".to_string())), size: "4".to_string() };
    assert_eq!(t.render_type(&arr), "[u8; 4]");
    let p = RustType::RawPointer { mutable: false, inner: Box::new(RustType::Primitive("u8".to_string())) };
    assert_eq!(t.render_type(&p), "*const u8");
    let d = RustType::DynTrait { traits: vec!["Fn".to_string(), "Send".to_string()], lifetime: Some("'static".to_string()) };
    assert_eq!(t.render_type(&d), "dyn 'static Fn + Send");
    let q = RustType::QualifiedPath { base: "Self".to_string(), name: "Item".to_string() };
    assert_eq!(t.render_type(&q), "Self::Item");
    let tup = RustType::Tuple(vec![RustType::Primitive("i32".to_string()), RustType::Generic("T".to_string())]);
    assert_eq!(t.render_type(&tup), "(i32, T)");
}

#[test]
fn generics_and_where_texts() {
    let t = TypeRenderer;
    let g = Generics {
        params: vec![
            type_param("T", &[]),
            GenericParam { name: "a".to_string(), kind: GenericParamKind::Lifetime },
            type_param("U", &["Clone", "Debug"]),
        ],
        where_clauses: vec!["T: Display".to_string(), "U: Send".to_string()],
    };
    assert_eq!(t.render_generics(&g), "<T, 'a, U: Clone + Debug>");
    assert_eq!(t.render_where_clause(&g), " where T: Display, U: Send");
    assert_eq!(t.render_generics(&no_generics()), "");
    assert_eq!(t.render_where_clause(&no_generics()), "");
    assert_eq!(t.render_visibility(&Visibility::Restricted("super".to_string())), "pub(super) ");
    assert_eq!(t.render_visibility(&Visibility::Crate), "pub(crate) ");
    assert_eq!(t.render_visibility(&Visibility::Private), "");
}

#[test]
fn trait_impl_without_docs_gets_generated_doc() {
    let i = point_impl("core::clone::Clone", vec![]);
    assert_eq!(
        i.render(&RenderContext::new()),
        "/// Implementation of Clone trait for Point\nimpl core::clone::Clone for Point<T>\n\n"
    );
}

#[test]
fn module_renders_macros_first_and_reexports_last() {
    let module = ParsedModule {
        name: "demo".to_string(),
        visibility: Visibility::Public,
        docs: Some("Demo crate".to_string()),
        items: vec![
            ParsedItem::Function(function("f", vec![], RustType::Unit)),
            ParsedItem::ReExport(ParsedReExport { path: "a::b".to_string(), name: "b".to_string(), docs: Some("Re-exported".to_string()) }),
            ParsedItem::Macro(ParsedMacro { name: "m".to_string(), signature: "macro_rules! m($x:expr)".to_string(), docs: None }),
        ],
    };
    let text = ParsedRenderer.render(&module, Some("1.0.0"));
    assert_eq!(
        text,
        "# Crate: demo\n\nVersion: 1.0.0\n\nDemo crate\n\n  macro_rules! m($x:expr)\n\n  pub fn f()\n\n# Re-exports\n\n  /// Re-exported\n  pub use a::b\n"
    );
}

#[test]
fn struct_with_methods_and_impls() {
    let mut s = plain_struct("Counter", no_generics());
    s.methods = vec![
        function("new", vec![], RustType::Generic("Self".to_string())),
        function("inc", vec![self_ref(true)], RustType::Unit),
    ];
    s.trait_impls = vec![ParsedTraitImpl {
        trait_path: "Default".to_string(),
        for_type: RustType::Path { path: "Counter".to_string(), generics: vec![] },
        items: vec![ParsedTraitImplItem::AssocType { name: "Output".to_string(), ty: RustType::Unit }],
        docs: Some("Counts from zero".to_string()),
    }];
    assert_eq!(
        s.render(&RenderContext::new()),
        "pub struct Counter {\n\n  pub fn new() -> Self\n\n  pub fn inc(&mut self)\n}\n\n/// Counts from zero\nimpl Default for Counter {\n\n  type Output = ()\n}\n\n"
    );
}

#[test]
fn parsed_renderer_appends_at_depth() {
    let r = ParsedRenderer;
    let mut out = String::new();
    let v = ParsedVariant {
        name: "Variant2".to_string(),
        kind: VariantKind::Tuple(vec![RustType::Primitive("String".to_string())]),
        docs: Some("Second variant".to_string()),
    };
    r.render_variant(&v, &mut out, 1);
    assert_eq!(out, "  /// Second variant\n  Variant2(String)\n");
    let mac = ParsedMacro { name: "m".to_string(), signature: "macro_rules! m()".to_string(), docs: None };
    r.render_macro(&mac, &mut out, 0);
    assert!(out.ends_with("macro_rules! m()\n\n"));
    let mut docs = String::new();
    r.render_doc_comment("first\n   \nsecond", &mut docs, "    ");
    assert_eq!(docs, "    /// first\n    ///\n    /// second\n");
    let mut f = String::new();
    r.render_function(&function("go", vec![], RustType::Unit), &mut f, 1);
    assert_eq!(f, "  pub fn go()\n");
}
