//! Component-level behavior: the tag scanner, the extractor, the name
//! normalizer, the attribute renderer and the discovery order.

use heroicons_gen::compile::ends_svg_exec;
use heroicons_gen::emit::attr;
use heroicons_gen::extract::extract_icon;
use heroicons_gen::markup::parse_tags;
use heroicons_gen::name::to_upper_camel_case;
use heroicons_gen::order::sort_files;
use heroicons_gen::text::lex_le_str;
use heroicons_gen::CompileError;
use heroicons_gen::SourceFile;

#[test]
fn camel_case_basic() {
    assert_eq!(to_upper_camel_case("arrow-narrow-left"), "ArrowNarrowLeft");
    assert_eq!(to_upper_camel_case("trash"), "Trash");
    assert_eq!(to_upper_camel_case("z-icon"), "ZIcon");
}

#[test]
fn camel_case_edges() {
    assert_eq!(to_upper_camel_case(""), "");
    assert_eq!(to_upper_camel_case("-"), "");
    assert_eq!(to_upper_camel_case("foo--bar"), "FooBar");
    assert_eq!(to_upper_camel_case("arrow-2"), "Arrow2");
}

#[test]
fn attr_lines() {
    assert_eq!(attr("d", Some("M1"), false), Some("d: \"M1\",".to_string()));
    assert_eq!(
        attr("clip_rule", Some("evenodd"), true),
        Some("        clip_rule: \"evenodd\",".to_string())
    );
    assert_eq!(attr("fill_rule", None, true), None);
}

#[test]
fn scanner_reads_tags_and_attributes() {
    let tags = parse_tags(
        "<svg viewBox=\"0 0 24 24\" fill=\"none\">\n  <path d=\"M1 2\" />\n</svg>",
    );
    assert_eq!(tags.len(), 2);
    assert_eq!(tags[0].name, "svg");
    assert_eq!(tags[0].attrs[0].name, "viewBox");
    assert_eq!(tags[0].attrs[0].value, "0 0 24 24");
    assert_eq!(tags[0].attrs[1].name, "fill");
    assert_eq!(tags[1].name, "path");
    assert_eq!(tags[1].attrs[0].value, "M1 2");
}

#[test]
fn scanner_ignores_closing_tags_and_text() {
    let tags = parse_tags("text <b>bold</b> more <i/>");
    let names: Vec<&str> = tags.iter().map(|t| t.name.as_str()).collect();
    assert_eq!(names, vec!["b", "i"]);
}

#[test]
fn scanner_keeps_quoted_angle_bracket() {
    let tags = parse_tags("<path d=\"a > b\" stroke=\"red\" />");
    assert_eq!(tags.len(), 1);
    assert_eq!(tags[0].attrs[0].value, "a > b");
    assert_eq!(tags[0].attrs[1].value, "red");
}

#[test]
fn extractor_takes_first_rule() {
    let content = "<svg viewBox=\"0 0 16 16\">\n  <path d=\"M1\" clip-rule=\"evenodd\" />\n  <path d=\"M2\" clip-rule=\"nonzero\" />\n</svg>\n";
    let icon = extract_icon("Example".to_string(), content).unwrap();
    assert_eq!(icon.name, "Example");
    assert_eq!(icon.viewbox, "0 0 16 16");
    assert_eq!(icon.path, "M1 M2");
    assert_eq!(icon.clip_rule.as_deref(), Some("evenodd"));
    assert_eq!(icon.fill_rule, None);
}

#[test]
fn extractor_reports_defects() {
    assert_eq!(
        extract_icon("X".to_string(), "no markup at all"),
        Err(CompileError::MissingRoot)
    );
    assert_eq!(
        extract_icon("X".to_string(), "<svg><path d=\"M1\" /></svg>"),
        Err(CompileError::MissingViewBox)
    );
    assert_eq!(
        extract_icon("X".to_string(), "<svg viewBox=\"0 0 1 1\"><path /></svg>"),
        Err(CompileError::MissingDraw)
    );
}

#[test]
fn discovery_order_sorts_by_name() {
    let files = vec![
        SourceFile { name: "z.svg".to_string(), content: "1".to_string() },
        SourceFile { name: "a.svg".to_string(), content: "2".to_string() },
        SourceFile { name: "m.svg".to_string(), content: "3".to_string() },
    ];
    let sorted = sort_files(files);
    let names: Vec<&str> = sorted.iter().map(|f| f.name.as_str()).collect();
    assert_eq!(names, vec!["a.svg", "m.svg", "z.svg"]);
}

#[test]
fn lexicographic_order() {
    assert!(lex_le_str("a-icon.svg", "arrow-left.svg"));
    assert!(lex_le_str("arrow-left.svg", "z-icon.svg"));
    assert!(lex_le_str("abc", "abc"));
    assert!(lex_le_str("ab", "abc"));
    assert!(!lex_le_str("abd", "abc"));
}

#[test]
fn source_extension_check() {
    assert!(ends_svg_exec("arrow-left.svg"));
    assert!(!ends_svg_exec("arrow-left.png"));
    assert!(!ends_svg_exec("svg"));
    assert!(ends_svg_exec(".svg"));
}
