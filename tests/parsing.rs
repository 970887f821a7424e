use doccer::filter::{dedup_by_trait_path, should_filter_trait_impl, simple_name_of};
use doccer::graph::RawGraph;
use doccer::json::JsonValue;
use doccer::model::{GenericParamKind, ParsedItem, ParsedTraitImpl, Visibility};
use doccer::parser::{parse_function, resolve_generics, ItemParser, NamedKind, ParseError};
use doccer::renderer::{ParsedRenderer, Render, RenderContext, TypeRenderer};
use doccer::resolve::{normalize_path_text, resolve_type};
use doccer::types::RustType;

fn s(x: &str) -> JsonValue {
    JsonValue::Str(x.to_string())
}

fn n(x: u64) -> JsonValue {
    JsonValue::UInt(x)
}

fn arr(xs: Vec<JsonValue>) -> JsonValue {
    JsonValue::Array(xs)
}

fn obj(ms: Vec<(&str, JsonValue)>) -> JsonValue {
    JsonValue::Object(ms.into_iter().map(|(k, v)| (k.to_string(), v)).collect())
}

fn prim(x: &str) -> JsonValue {
    obj(vec![("primitive", s(x))])
}

fn type_text(j: &JsonValue) -> String {
    resolve_type(j).text()
}

fn generics_text(j: &JsonValue) -> String {
    let g = resolve_generics(j);
    let t = TypeRenderer;
    format!("{}{}", t.render_generics(&g), t.render_where_clause(&g))
}

#[test]
fn test_primitive_types() {
    for name in ["i32", "String", "bool", "f64"] {
        assert_eq!(type_text(&prim(name)), name);
    }
}

#[test]
fn test_generic_types() {
    assert_eq!(type_text(&obj(vec![("generic", s("T"))])), "T");
    assert_eq!(type_text(&obj(vec![("generic", s("U"))])), "U");
}

#[test]
fn test_resolved_path_types() {
    let vec_type = obj(vec![("resolved_path", obj(vec![("path", s("std::vec::Vec"))]))]);
    assert_eq!(type_text(&vec_type), "std::vec::Vec");
    let vec_string = obj(vec![(
        "resolved_path",
        obj(vec![
            ("path", s("std::vec::Vec")),
            (
                "args",
                obj(vec![("angle_bracketed", obj(vec![("args", arr(vec![obj(vec![("type", prim("String"))])]))]))]),
            ),
        ]),
    )]);
    assert_eq!(type_text(&vec_string), "std::vec::Vec<String>");
}

#[test]
fn test_borrowed_ref_types() {
    let r = obj(vec![("borrowed_ref", obj(vec![("type", prim("str"))]))]);
    assert_eq!(type_text(&r), "&str");
    let m = obj(vec![("borrowed_ref", obj(vec![("is_mutable", JsonValue::Bool(true)), ("type", prim("String"))]))]);
    assert_eq!(type_text(&m), "&mut String");
    let l = obj(vec![("borrowed_ref", obj(vec![("lifetime", s("a")), ("type", prim("str"))]))]);
    assert_eq!(type_text(&l), "&'a str");
}

#[test]
fn test_tuple_types() {
    assert_eq!(type_text(&obj(vec![("tuple", arr(vec![]))])), "()");
    assert_eq!(type_text(&obj(vec![("tuple", arr(vec![prim("i32"), prim("String")]))])), "(i32, String)");
}

#[test]
fn test_array_and_slice_types() {
    assert_eq!(type_text(&obj(vec![("slice", prim("u8"))])), "[u8]");
    assert_eq!(type_text(&obj(vec![("array", obj(vec![("type", prim("u8")), ("len", n(4))]))])), "[u8; 4]");
    assert_eq!(type_text(&obj(vec![("array", obj(vec![("type", prim("u8"))]))])), "[u8; N]");
    assert_eq!(type_text(&obj(vec![("array", obj(vec![("type", prim("u8")), ("len", s("32"))]))])), "[u8; 32]");
}

#[test]
fn test_raw_pointer_types() {
    let c = obj(vec![("raw_pointer", obj(vec![("is_mutable", JsonValue::Bool(false)), ("type", prim("u8"))]))]);
    assert_eq!(type_text(&c), "*const u8");
    let m = obj(vec![("raw_pointer", obj(vec![("is_mutable", JsonValue::Bool(true)), ("type", prim("u8"))]))]);
    assert_eq!(type_text(&m), "*mut u8");
}

#[test]
fn test_qualified_path_types() {
    assert_eq!(type_text(&obj(vec![("qualified_path", obj(vec![("name", s("Key"))]))])), "Self::Key");
    assert_eq!(type_text(&obj(vec![("qualified_path", obj(vec![("name", s("Error"))]))])), "Self::Error");
    assert_eq!(type_text(&obj(vec![("qualified_path", obj(vec![("name", s("OtherType"))]))])), "Self::OtherType");
}

#[test]
fn resolution_examples() {
    assert_eq!(type_text(&prim("i32")), "i32");
    assert_eq!(type_text(&obj(vec![("tuple", arr(vec![]))])), "()");
    let m = obj(vec![("borrowed_ref", obj(vec![("is_mutable", JsonValue::Bool(true)), ("type", prim("String"))]))]);
    assert_eq!(type_text(&m), "&mut String");
    assert!(matches!(resolve_type(&JsonValue::Null), RustType::Unit));
}

#[test]
fn unknown_shapes_become_placeholder() {
    for j in [
        obj(vec![("unknown_type", s("something"))]),
        s("i32"),
        n(3),
        obj(vec![("primitive", n(1))]),
        obj(vec![("tuple", s("x"))]),
        obj(vec![("array", obj(vec![("len", n(2))]))]),
        obj(vec![("qualified_path", obj(vec![]))]),
    ] {
        assert!(matches!(resolve_type(&j), RustType::Unknown));
        assert_eq!(type_text(&j), "...");
    }
}

#[test]
fn hygiene_paths_are_normalized() {
    assert_eq!(normalize_path_text(&"$crate::fmt::Formatter".to_string()), "std::fmt::Formatter");
    assert_eq!(normalize_path_text(&"$crate::clone::Clone".to_string()), "Clone");
    assert_eq!(normalize_path_text(&"$crate::cmp::PartialEq".to_string()), "PartialEq");
    assert_eq!(normalize_path_text(&"$crate::marker::Copy".to_string()), "std::marker::Copy");
    assert_eq!(normalize_path_text(&"core::fmt::Debug".to_string()), "core::fmt::Debug");
    let f = obj(vec![("resolved_path", obj(vec![("path", s("$crate::fmt::Result"))]))]);
    assert_eq!(type_text(&f), "std::fmt::Result");
}

#[test]
fn trait_object_types() {
    let binding = obj(vec![("equality", obj(vec![("type", prim("u8"))]))]);
    let constraint = obj(vec![("name", s("Item")), ("binding", binding)]);
    let tr = obj(vec![(
        "trait",
        obj(vec![
            ("path", s("Iterator")),
            ("args", obj(vec![("angle_bracketed", obj(vec![("constraints", arr(vec![constraint]))]))])),
        ]),
    )]);
    let send = obj(vec![("trait", obj(vec![("path", s("Send"))]))]);
    let d = obj(vec![("dyn_trait", obj(vec![("traits", arr(vec![tr, send])), ("lifetime", s("'static"))]))]);
    assert_eq!(type_text(&d), "dyn 'static Iterator<Item = u8> + Send");
}

fn type_param(name: &str, bounds: Vec<&str>) -> JsonValue {
    let bs = bounds
        .into_iter()
        .map(|b| obj(vec![("trait_bound", obj(vec![("trait", obj(vec![("path", s(b))]))]))]))
        .collect();
    obj(vec![("name", s(name)), ("kind", obj(vec![("type", obj(vec![("bounds", arr(bs))]))]))])
}

#[test]
fn test_format_generics_empty() {
    assert_eq!(generics_text(&obj(vec![("params", arr(vec![]))])), "");
}

#[test]
fn test_format_generics_with_type_params() {
    let one = obj(vec![("params", arr(vec![obj(vec![("name", s("T")), ("kind", obj(vec![("type", obj(vec![]))]))])]))]);
    assert_eq!(generics_text(&one), "<T>");
    let two = obj(vec![("params", arr(vec![type_param("T", vec![]), type_param("U", vec![])]))]);
    assert_eq!(generics_text(&two), "<T, U>");
}

#[test]
fn test_format_generics_with_lifetimes() {
    let a = obj(vec![("params", arr(vec![obj(vec![("name", s("a")), ("kind", obj(vec![("lifetime", obj(vec![]))]))])]))]);
    assert_eq!(generics_text(&a), "<'a>");
    let b = obj(vec![("params", arr(vec![obj(vec![("name", s("'b")), ("kind", obj(vec![("lifetime", obj(vec![]))]))])]))]);
    assert_eq!(generics_text(&b), "<'b>");
}

#[test]
fn test_format_generics_with_bounds() {
    let one = obj(vec![("params", arr(vec![type_param("T", vec!["std::fmt::Display"])]))]);
    assert_eq!(generics_text(&one), "<T: std::fmt::Display>");
    let two = obj(vec![("params", arr(vec![type_param("T", vec!["std::fmt::Display", "std::clone::Clone"])]))]);
    assert_eq!(generics_text(&two), "<T: std::fmt::Display + std::clone::Clone>");
}

fn predicate(name: &str, bound: &str) -> JsonValue {
    obj(vec![(
        "bound_predicate",
        obj(vec![
            ("type", obj(vec![("generic", s(name))])),
            ("bounds", arr(vec![obj(vec![("trait_bound", obj(vec![("trait", obj(vec![("path", s(bound))]))]))])])),
        ]),
    )])
}

#[test]
fn test_format_generics_with_where_clause() {
    let one = obj(vec![
        ("params", arr(vec![type_param("T", vec![])])),
        ("where_predicates", arr(vec![predicate("T", "std::fmt::Display")])),
    ]);
    assert_eq!(generics_text(&one), "<T> where T: std::fmt::Display");
    let two = obj(vec![
        ("params", arr(vec![type_param("T", vec![]), type_param("U", vec![])])),
        ("where_predicates", arr(vec![predicate("T", "std::fmt::Display"), predicate("U", "std::clone::Clone")])),
    ]);
    assert_eq!(generics_text(&two), "<T, U> where T: std::fmt::Display, U: std::clone::Clone");
}

#[test]
fn generic_param_kinds_are_kept() {
    let g = resolve_generics(&obj(vec![("params", arr(vec![type_param("T", vec!["Copy"])]))]));
    match &g.params[0].kind {
        GenericParamKind::Type { bounds } => assert_eq!(bounds, &vec!["Copy".to_string()]),
        GenericParamKind::Lifetime => panic!("expected a type parameter"),
    }
}

fn item(name: Option<&str>, inner: JsonValue) -> JsonValue {
    let mut ms = vec![("visibility", s("public")), ("inner", inner)];
    if let Some(n) = name {
        ms.push(("name", s(n)));
    }
    obj(ms)
}

fn impl_record(trait_path: Option<&str>, items: Vec<u64>, extra: Vec<(&str, JsonValue)>) -> JsonValue {
    let trait_ = match trait_path {
        Some(p) => obj(vec![("path", s(p))]),
        None => JsonValue::Null,
    };
    let mut ms = vec![("trait", trait_), ("items", arr(items.into_iter().map(n).collect())), ("for", obj(vec![("resolved_path", obj(vec![("path", s("Point"))]))]))];
    ms.extend(extra);
    obj(vec![("inner", obj(vec![("impl", obj(ms))]))])
}

fn function_record(name: &str) -> JsonValue {
    item(
        Some(name),
        obj(vec![(
            "function",
            obj(vec![("sig", obj(vec![("inputs", arr(vec![])), ("output", JsonValue::Null)]))]),
        )]),
    )
}

fn graph_with(records: Vec<(u64, JsonValue)>, root_items: Vec<u64>) -> RawGraph {
    let mut g = RawGraph::new(0, Some("0.1.0".to_string()));
    g.insert(
        0,
        obj(vec![
            ("name", s("demo")),
            ("inner", obj(vec![("module", obj(vec![("items", arr(root_items.into_iter().map(n).collect()))]))])),
        ]),
    );
    for (id, r) in records {
        g.insert(id, r);
    }
    g
}

fn struct_record(impls: Vec<u64>) -> JsonValue {
    item(Some("Point"), obj(vec![("struct", obj(vec![("impls", arr(impls.into_iter().map(n).collect()))]))]))
}

fn render(g: &RawGraph) -> String {
    let m = ItemParser::new(g).parse_crate().unwrap();
    ParsedRenderer.render(&m, None)
}

#[test]
fn duplicate_trait_impls_are_shown_once() {
    let g = graph_with(
        vec![
            (1, struct_record(vec![2, 3, 4, 5])),
            (2, impl_record(Some("Copy"), vec![], vec![])),
            (3, impl_record(Some("StructuralPartialEq"), vec![], vec![])),
            (4, impl_record(Some("PartialEq"), vec![], vec![])),
            (5, impl_record(Some("PartialEq"), vec![], vec![])),
        ],
        vec![1],
    );
    let text = render(&g);
    assert_eq!(text.matches("impl Copy for Point").count(), 1);
    assert_eq!(text.matches("impl PartialEq for Point").count(), 1);
    assert!(!text.contains("StructuralPartialEq"));
    assert!(text.find("impl Copy").unwrap() < text.find("impl PartialEq").unwrap());
}

fn named_impl(path: &str) -> ParsedTraitImpl {
    ParsedTraitImpl {
        trait_path: path.to_string(),
        for_type: RustType::Path { path: "Point".to_string(), generics: vec![] },
        items: vec![],
        docs: Some(path.to_string()),
    }
}

#[test]
fn dedup_keeps_first_seen_order() {
    let impls = vec![named_impl("Copy"), named_impl("StructuralPartialEq"), named_impl("PartialEq"), named_impl("PartialEq")];
    let kept = dedup_by_trait_path(impls);
    let paths: Vec<&str> = kept.iter().map(|t| t.trait_path.as_str()).collect();
    assert_eq!(paths, vec!["Copy", "StructuralPartialEq", "PartialEq"]);
}

#[test]
fn send_impls_are_never_shown() {
    let g = graph_with(
        vec![
            (1, struct_record(vec![2, 3, 4])),
            (2, impl_record(Some("core::marker::Send"), vec![], vec![])),
            (3, impl_record(Some("Clone"), vec![], vec![])),
            (4, impl_record(Some("Send"), vec![], vec![])),
        ],
        vec![1],
    );
    let text = render(&g);
    assert!(!text.contains("Send"));
    assert!(text.contains("impl Clone for Point"));
}

#[test]
fn excluded_impls() {
    let plain = obj(vec![("trait", obj(vec![("path", s("Clone"))]))]);
    assert!(!should_filter_trait_impl(&obj(vec![]), &plain));
    let synthetic = obj(vec![("trait", obj(vec![("path", s("Clone"))])), ("is_synthetic", JsonValue::Bool(true))]);
    assert!(should_filter_trait_impl(&obj(vec![]), &synthetic));
    let blanket = obj(vec![("trait", obj(vec![("path", s("Clone"))])), ("blanket_impl", obj(vec![("generic", s("T"))]))]);
    assert!(should_filter_trait_impl(&obj(vec![]), &blanket));
    let derived = obj(vec![("attrs", arr(vec![s("#[derive(Clone)]")]))]);
    assert!(should_filter_trait_impl(&derived, &plain));
    let into = obj(vec![("trait", obj(vec![("path", s("core::convert::Into"))]))]);
    assert!(should_filter_trait_impl(&obj(vec![]), &into));
    assert_eq!(simple_name_of("core::convert::Into"), "Into");
    assert_eq!(simple_name_of("Into"), "Into");
}

#[test]
fn struct_methods_come_from_inherent_impls() {
    let g = graph_with(
        vec![
            (1, struct_record(vec![2, 3])),
            (2, impl_record(None, vec![4, 5], vec![])),
            (3, impl_record(Some("Clone"), vec![6], vec![])),
            (4, function_record("new")),
            (5, function_record("len")),
            (6, function_record("clone")),
        ],
        vec![1],
    );
    let text = render(&g);
    assert_eq!(
        text,
        "# Crate: demo\n\n  pub struct Point {\n\n    pub fn new()\n\n    pub fn len()\n  }\n\n  /// Implementation of Clone trait for Point\n  impl Clone for Point {\n\n    fn clone()\n  }\n\n"
    );
}

#[test]
fn missing_root_fails() {
    let g = RawGraph::new(999, None);
    assert!(matches!(ItemParser::new(&g).parse_crate(), Err(ParseError::RootNotFound)));
    let mut g = RawGraph::new(0, None);
    g.insert(0, function_record("not_a_module"));
    assert!(matches!(ItemParser::new(&g).parse_crate(), Err(ParseError::RootNotFound)));
    assert_eq!(ParseError::RootNotFound.message(), "Root module not found");
}

#[test]
fn missing_name_aborts_the_parse() {
    let nameless = item(None, obj(vec![("function", obj(vec![]))]));
    let g = graph_with(vec![(1, function_record("good_function")), (2, nameless)], vec![1, 2]);
    let r = ItemParser::new(&g).parse_crate();
    assert!(matches!(r, Err(ParseError::MissingName(NamedKind::Function))));
    assert_eq!(ParseError::MissingName(NamedKind::Function).message(), "Function missing name");
}

#[test]
fn dangling_ids_and_unknown_kinds_contribute_nothing() {
    let unknown = item(Some("unknown_item"), obj(vec![("unknown_type", obj(vec![]))]));
    let g = graph_with(vec![(1, unknown), (2, function_record("f"))], vec![999, 1, 2]);
    let m = ItemParser::new(&g).parse_crate().unwrap();
    assert_eq!(m.items.len(), 1);
    assert!(matches!(&m.items[0], ParsedItem::Function(f) if f.signature.name == "f"));
}

#[test]
fn function_record_parsing() {
    let f = obj(vec![
        (
            "sig",
            obj(vec![
                ("inputs", arr(vec![arr(vec![s("param1"), prim("i32")]), arr(vec![s("param2"), prim("String")]), arr(vec![s("bad")])])),
                ("output", prim("bool")),
            ]),
        ),
        ("header", obj(vec![("is_async", JsonValue::Bool(true))])),
    ]);
    let it = obj(vec![
        ("name", s("test_function")),
        ("visibility", s("public")),
        ("docs", s("This is a test function")),
        ("deprecation", obj(vec![("since", s("1.0.0"))])),
    ]);
    let parsed = parse_function(&it, &f).unwrap();
    assert!(parsed.signature.is_async);
    assert_eq!(parsed.signature.inputs.len(), 2);
    assert_eq!(parsed.deprecation.as_ref().unwrap().since.as_deref(), Some("1.0.0"));
    let text = parsed.render_text();
    assert_eq!(text, "DEPRECATED since 1.0.0\npub fn test_function(param1: i32, param2: String) -> bool\n/// This is a test function\n");
}

trait RenderText {
    fn render_text(&self) -> String;
}

impl RenderText for doccer::model::ParsedFunction {
    fn render_text(&self) -> String {
        self.render(&RenderContext::new())
    }
}

#[test]
fn enum_and_variants_parse() {
    let variant = |name: &str, kind: JsonValue| item(Some(name), obj(vec![("variant", obj(vec![("kind", kind)]))]));
    let g = graph_with(
        vec![
            (1, item(Some("TestEnum"), obj(vec![("enum", obj(vec![("variants", arr(vec![n(2), n(3), n(4)]))]))]))),
            (2, variant("Variant1", s("plain"))),
            (3, variant("Variant2", obj(vec![("tuple", arr(vec![n(5)]))]))),
            (4, variant("Variant3", obj(vec![("struct", obj(vec![("fields", arr(vec![n(6)]))]))]))),
            (5, obj(vec![("inner", obj(vec![("struct_field", prim("String"))]))])),
            (6, item(Some("x"), obj(vec![("struct_field", prim("i32"))]))),
        ],
        vec![1],
    );
    let text = render(&g);
    assert_eq!(
        text,
        "# Crate: demo\n\n  pub enum TestEnum {\n\n    Variant1\n\n    Variant2(String)\n\n    Variant3 { x: i32 }\n  }\n\n"
    );
}

#[test]
fn traits_constants_macros_modules_and_uses_parse() {
    let g = graph_with(
        vec![
            (1, item(Some("Shape"), obj(vec![("trait", obj(vec![("items", arr(vec![n(2), n(3), n(4)]))]))]))),
            (2, item(Some("Output"), obj(vec![("assoc_type", obj(vec![("bounds", arr(vec![obj(vec![("trait_bound", obj(vec![("trait", obj(vec![("path", s("Clone"))]))]))])]))]))]))),
            (3, item(Some("SIDES"), obj(vec![("assoc_const", obj(vec![("type", prim("u32"))]))]))),
            (4, function_record("area")),
            (5, item(Some("MAX"), obj(vec![("constant", obj(vec![("type", prim("u64"))]))]))),
            (6, item(Some("square"), obj(vec![("macro", s("macro_rules! square {\n    ($x:expr) => { $x * $x };\n}"))]))),
            (7, item(Some("inner"), obj(vec![("module", obj(vec![("items", arr(vec![n(5)]))]))]))),
            (8, obj(vec![("inner", obj(vec![("use", obj(vec![("source", s("crate::inner::MAX"))]))]))])),
        ],
        vec![1, 7, 6, 8],
    );
    let text = render(&g);
    assert_eq!(
        text,
        "# Crate: demo\n\n  macro_rules! square($x:expr)\n\n  pub trait Shape {\n\n    type Output: Clone\n\n    const SIDES: u32\n\n    fn area()\n  }\n\n  pub mod inner\n\n    pub const MAX: u64\n\n# Re-exports\n\n  pub use crate::inner::MAX\n"
    );
}

#[test]
fn test_restricted_visibility() {
    let g = graph_with(
        vec![
            (1, item(Some("f"), obj(vec![("function", obj(vec![]))]))),
        ],
        vec![1],
    );
    let m = ItemParser::new(&g).parse_crate().unwrap();
    assert!(matches!(m.visibility, Visibility::Public));
    let crate_vis = obj(vec![("restricted", obj(vec![("path", s("crate"))]))]);
    assert!(matches!(doccer::parser::parse_visibility(Some(&crate_vis)), Visibility::Crate));
    let sup = obj(vec![("restricted", obj(vec![("path", s("super"))]))]);
    assert!(matches!(doccer::parser::parse_visibility(Some(&sup)), Visibility::Restricted(p) if p == "super"));
    assert!(matches!(doccer::parser::parse_visibility(Some(&s("crate"))), Visibility::Crate));
    assert!(matches!(doccer::parser::parse_visibility(Some(&s("default"))), Visibility::Private));
    assert!(matches!(doccer::parser::parse_visibility(None), Visibility::Private));
}

#[test]
fn graph_narrows_to_a_module_path() {
    let module = |name: &str, items: Vec<u64>| {
        obj(vec![
            ("name", s(name)),
            ("inner", obj(vec![("module", obj(vec![("items", arr(items.into_iter().map(n).collect()))]))])),
        ])
    };
    let mut g = graph_with(
        vec![
            (1, module("collections", vec![2, 4])),
            (2, module("hash_map", vec![3])),
            (3, function_record("insert")),
            (4, function_record("other")),
            (5, function_record("outside")),
        ],
        vec![1, 5],
    );
    assert!(g.filter_by_module_path("collections::hash_map").is_ok());
    assert_eq!(g.root, 2);
    let mut ids: Vec<u64> = g.index.keys().copied().collect();
    ids.sort();
    assert_eq!(ids, vec![2, 3]);
    let text = render(&g);
    assert_eq!(text, "# Crate: hash_map\n\n  pub fn insert()\n\n");

    let mut g2 = graph_with(vec![(1, module("collections", vec![]))], vec![1]);
    let err = g2.filter_by_module_path("collections::missing").unwrap_err();
    assert_eq!(err.segment, "missing");
    assert_eq!(err.message(), "Module 'missing' not found in the path 'collections::missing'");
    assert_eq!(g2.root, 0);
    assert_eq!(g2.index.len(), 2);
}
