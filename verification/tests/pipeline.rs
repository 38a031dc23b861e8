//! Whole-pipeline behavior: one style compiled from discovered files to
//! the text of its generated source file.

use heroicons_gen::compile::{compile_style, make_icons, style_to_dir};
use heroicons_gen::emit::{
    ATTR_INDENT, CASE_ATTRS, CASE_HEAD, CASE_TAIL, FILE_HEAD, FILE_NAMES, FILE_PATHS, FILE_TAIL,
};
use heroicons_gen::CompileError;
use heroicons_gen::SourceFile;

fn sf(name: &str, content: &str) -> SourceFile {
    SourceFile {
        name: name.to_string(),
        content: content.to_string(),
    }
}

fn simple_icon(viewbox: &str, d: &str) -> String {
    format!(
        "<svg xmlns=\"http://www.w3.org/2000/svg\" viewBox=\"{}\">\n  <path d=\"{}\" />\n</svg>\n",
        viewbox, d
    )
}

#[test]
fn determinism_two_runs() {
    let files = || {
        vec![
            sf("b.svg", &simple_icon("0 0 24 24", "M5")),
            sf("a.svg", &simple_icon("0 0 24 24", "M4")),
        ]
    };
    let first = compile_style(files()).unwrap();
    let second = compile_style(files()).unwrap();
    assert_eq!(first, second);
}

#[test]
fn determinism_walk_order_irrelevant() {
    let a = sf("a.svg", &simple_icon("0 0 24 24", "M4"));
    let b = sf("b.svg", &simple_icon("0 0 24 24", "M5"));
    let c = sf("c.svg", &simple_icon("0 0 24 24", "M6"));
    let one = compile_style(vec![a.clone(), b.clone(), c.clone()]).unwrap();
    let two = compile_style(vec![c, a, b]).unwrap();
    assert_eq!(one, two);
}

#[test]
fn ordering_enumeration() {
    let files = vec![
        sf("z-icon.svg", &simple_icon("0 0 24 24", "M1")),
        sf("a-icon.svg", &simple_icon("0 0 24 24", "M2")),
        sf("arrow-left.svg", &simple_icon("0 0 24 24", "M3")),
    ];
    let icons = make_icons(files.clone()).unwrap();
    let names: Vec<&str> = icons.iter().map(|i| i.name.as_str()).collect();
    assert_eq!(names, vec!["AIcon", "ArrowLeft", "ZIcon"]);
    let code = compile_style(files).unwrap();
    assert!(code.contains("AIcon,\nArrowLeft,\nZIcon"));
}

#[test]
fn path_concatenation() {
    let content = "<svg viewBox=\"0 0 24 24\">\n  <path d=\"M1\" />\n  <path d=\"M2\" />\n</svg>\n";
    let icons = make_icons(vec![sf("two.svg", content)]).unwrap();
    assert_eq!(icons[0].path, "M1 M2");
}

#[test]
fn optional_attrs_absent() {
    let code = compile_style(vec![sf("plain.svg", &simple_icon("0 0 24 24", "M1"))]).unwrap();
    assert!(code.contains("d: \"M1\","));
    assert!(!code.contains("clip_rule"));
    assert!(!code.contains("fill_rule"));
}

#[test]
fn optional_attr_on_second_path() {
    let content = "<svg viewBox=\"0 0 24 24\">\n  <path d=\"M1\" />\n  <path d=\"M2\" fill-rule=\"evenodd\" />\n</svg>\n";
    let icons = make_icons(vec![sf("ruled.svg", content)]).unwrap();
    assert_eq!(icons[0].fill_rule.as_deref(), Some("evenodd"));
    assert_eq!(icons[0].clip_rule, None);
    let code = compile_style(vec![sf("ruled.svg", content)]).unwrap();
    assert!(code.contains("fill_rule: \"evenodd\","));
}

#[test]
fn uniqueness_collision_flagged() {
    let files = vec![
        sf("foo-bar.svg", &simple_icon("0 0 24 24", "M1")),
        sf("foo--bar.svg", &simple_icon("0 0 24 24", "M2")),
    ];
    assert_eq!(compile_style(files), Err(CompileError::DuplicateName));
}

#[test]
fn viewbox_constant_is_first_sorted() {
    let files = vec![
        sf("late.svg", &simple_icon("0 0 20 20", "M2")),
        sf("early.svg", &simple_icon("0 0 24 24", "M1")),
    ];
    let code = compile_style(files).unwrap();
    assert!(code.contains("pub(crate) const VIEW_BOX: &str = \"0 0 24 24\";"));
    assert!(!code.contains("VIEW_BOX: &str = \"0 0 20 20\""));
}

#[test]
fn end_to_end_scenario() {
    let trash = "<svg viewBox=\"0 0 24 24\">\n  <path d=\"M2\" fill-rule=\"evenodd\" />\n</svg>\n";
    let files = vec![
        sf("trash.svg", trash),
        sf("arrow-left.svg", &simple_icon("0 0 24 24", "M1")),
    ];
    let code = compile_style(files).unwrap();
    let expected = format!(
        "{}{}{}{}{}{}{}",
        FILE_HEAD,
        "0 0 24 24",
        FILE_NAMES,
        "ArrowLeft,\nTrash",
        FILE_PATHS,
        format!(
            "{}ArrowLeft{}d: \"M1\",{}{}Trash{}d: \"M2\",\n{}fill_rule: \"evenodd\",{}",
            CASE_HEAD, CASE_ATTRS, CASE_TAIL, CASE_HEAD, CASE_ATTRS, ATTR_INDENT, CASE_TAIL
        ),
        FILE_TAIL
    );
    assert_eq!(code, expected);
}

#[test]
fn missing_root_is_fatal() {
    let files = vec![sf("bad.svg", "<div viewBox=\"0 0 24 24\"></div>")];
    assert_eq!(compile_style(files), Err(CompileError::MissingRoot));
}

#[test]
fn missing_viewbox_is_fatal() {
    let files = vec![sf("bad.svg", "<svg fill=\"none\"><path d=\"M1\" /></svg>")];
    assert_eq!(compile_style(files), Err(CompileError::MissingViewBox));
}

#[test]
fn missing_draw_is_fatal() {
    let files = vec![sf(
        "bad.svg",
        "<svg viewBox=\"0 0 24 24\"><path stroke=\"red\" /></svg>",
    )];
    assert_eq!(compile_style(files), Err(CompileError::MissingDraw));
}

#[test]
fn empty_style_is_flagged() {
    assert_eq!(compile_style(vec![]), Err(CompileError::NoIcons));
    let only_other = vec![sf("readme.txt", "not an icon")];
    assert_eq!(compile_style(only_other), Err(CompileError::NoIcons));
}

#[test]
fn first_extraction_defect_wins() {
    let files = vec![
        sf("b-bad.svg", "<svg fill=\"none\"><path d=\"M1\" /></svg>"),
        sf("a-bad.svg", "<div></div>"),
    ];
    // `a-bad.svg` sorts first, so its defect is the one reported.
    assert_eq!(compile_style(files), Err(CompileError::MissingRoot));
}

#[test]
fn style_directories() {
    assert_eq!(style_to_dir("outline"), "24/outline");
    assert_eq!(style_to_dir("solid"), "24/solid");
    assert_eq!(style_to_dir("mini"), "20/solid");
}
