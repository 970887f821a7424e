use doccer::input::{docs_rs_url, is_zstd, parse_module_path, resolve_input, InputType};
use doccer::renderer::{IndentationHelper, RenderContext, OutputFormat};
use doccer::sample::{greet, Color, Person};

#[test]
fn module_paths() {
    assert_eq!(parse_module_path("std::net"), Some("net".to_string()));
    assert_eq!(parse_module_path("std::collections::HashMap"), Some("collections::HashMap".to_string()));
    assert_eq!(parse_module_path("std"), None);
}

#[test]
fn inputs_are_classified() {
    assert!(matches!(resolve_input("std", false), InputType::Stdlib { crate_name, path_in_crate: None } if crate_name == "std"));
    assert!(matches!(resolve_input("core::mem", false), InputType::Stdlib { crate_name, path_in_crate: Some(p) } if crate_name == "core" && p == "mem"));
    assert!(matches!(resolve_input("alloc::vec", false), InputType::Stdlib { crate_name, .. } if crate_name == "alloc"));
    assert!(matches!(resolve_input("docs.json", false), InputType::LocalFile(p) if p == "docs.json"));
    assert!(matches!(resolve_input("some/file", true), InputType::LocalFile(_)));
    assert!(matches!(resolve_input("serde", false), InputType::ExternalCrate(n) if n == "serde"));
    assert!(matches!(resolve_input("stdx", false), InputType::ExternalCrate(_)));
}

#[test]
fn docs_rs_addresses() {
    assert_eq!(docs_rs_url("serde", "latest", "x86_64-unknown-linux-gnu", None), "https://docs.rs/crate/serde/latest/json");
    assert_eq!(docs_rs_url("clap", "~4", "aarch64-apple-darwin", Some("45")), "https://docs.rs/crate/clap/%7E4/aarch64-apple-darwin/json/45");
}

#[test]
fn zstd_detection() {
    assert!(is_zstd("application/zstd", "/x", &[]));
    assert!(is_zstd("", "/a/b.json.zst", &[]));
    assert!(is_zstd("", "/x", &[0x28, 0xB5, 0x2F, 0xFD, 0]));
    assert!(!is_zstd("application/json", "/x.json", b"{}"));
}

#[test]
fn indentation_helpers() {
    assert_eq!(IndentationHelper::indent_for_depth(3), "      ");
    let ctx = RenderContext::new().with_depth(2);
    assert_eq!(IndentationHelper::indent_from_context(&ctx), "    ");
    assert_eq!(ctx.indent(), "    ");
    assert_eq!(RenderContext::default().depth, 0);
    assert_eq!(ctx.format, OutputFormat::Text);
}

#[test]
fn sample_api() {
    let p = Person::new("Alice".to_string(), 30);
    assert_eq!(p.name(), "Alice");
    assert_eq!(p.age(), 30);
    assert_eq!(greet("Bob"), "Hello, Bob!");
    assert_eq!(Color::Rgb(1, 2, 3), Color::Rgb(1, 2, 3));
    assert_ne!(Color::Red, Color::Blue);
    let _ = Color::Green;
}

#[test]
fn test_custom_error() {
    let err = doccer::sample::CustomError { message: "Test error".to_string(), code: 500 };
    assert_eq!(err.to_string(), "Custom error [500]: Test error");
}

#[test]
fn test_result_chaining() {
    let result = doccer::sample::result_chaining_example("50");
    assert!(result.is_ok());
    assert_eq!(result.unwrap(), "Processed: 50");
    let result = doccer::sample::result_chaining_example("not_a_number");
    assert!(result.is_ok());
    assert_eq!(result.unwrap(), "Default value");
}

#[test]
fn test_basic_functionality() {
    assert_eq!(doccer::sample::always_inline_me(5), 10);
}

#[test]
fn chaining_edge_cases() {
    assert!(matches!(
        doccer::sample::result_chaining_example("101"),
        Err(doccer::sample::ChainedError::Custom(e)) if e.code == 413 && e.message == "Number too large"
    ));
    assert_eq!(doccer::sample::result_chaining_example("-7").unwrap(), "Processed: -7");
    assert_eq!(doccer::sample::result_chaining_example("+3").unwrap(), "Processed: 3");
    assert_eq!(doccer::sample::result_chaining_example("99999999999").unwrap(), "Default value");
    assert_eq!(doccer::sample::parse_i32("-2147483648"), Some(i32::MIN));
    assert_eq!(doccer::sample::parse_i32("2147483648"), None);
    assert_eq!(doccer::sample::parse_i32("-"), None);
    let err = doccer::sample::CustomError { message: "m".to_string(), code: -12 };
    assert_eq!(err.to_string(), "Custom error [-12]: m");
}

#[test]
fn feature_lists() {
    assert_eq!(doccer::input::feature_list("serde, derive ,,  std "), vec!["serde", "derive", "std"]);
    assert!(doccer::input::feature_list(" , ").is_empty());
    assert_eq!(doccer::input::feature_list("one"), vec!["one"]);
}

#[test]
fn host_triples() {
    let out = "rustc 1.80.0 (abc 2024-07-21)\r\nbinary: rustc\r\nhost: x86_64-unknown-linux-gnu\r\nrelease: 1.80.0\n";
    assert_eq!(doccer::input::host_triple(out), Some("x86_64-unknown-linux-gnu".to_string()));
    assert_eq!(doccer::input::host_triple("binary: rustc\n"), None);
}
