//! The code emitter: renders a style's collected icons into one generated
//! source file.  The file is a whole-file template with three holes — the
//! shared bounding-box constant, the enumeration cases and the per-case
//! mapping clauses — and a per-case sub-template rendered once per icon;
//! the constants below are the template text between the holes.

use vstd::prelude::*;
use crate::extract::{Icon, IconV, icons_view};

verus! {

/// Template text up to the bounding-box constant.
pub const FILE_HEAD: &'static str = r#"
use dioxus::prelude::*;

pub(crate) const VIEW_BOX: &str = ""#;

/// Template text between the bounding-box constant and the enumeration
/// cases.
pub const FILE_NAMES: &'static str = r#"";

/// All available icon shapes
///
/// See the enum variants for the shape names. These names are always the
/// CamelCase version of the original heroicon name. So for example,
/// "arrow-narrow-left" becomes `ArrowNarrowLeft`.
#[allow(dead_code)]
#[derive(Clone, Copy, Debug, PartialEq)]
pub enum Shape {
    "#;

/// Template text between the enumeration cases and the mapping clauses.
pub const FILE_PATHS: &'static str = r#"
}

impl crate::IconShape for Shape {
    fn view_box(&self) -> &str {
        VIEW_BOX
    }

    #[allow(clippy::too_many_lines)]
    fn path(&self) -> Element {
        match self {
            "#;

/// Template text after the mapping clauses.
pub const FILE_TAIL: &'static str = r#"
        }
    }
}
"#;

/// Sub-template text up to the case name.
pub const CASE_HEAD: &'static str = r#"
Shape::"#;

/// Sub-template text between the case name and the attribute lines.
pub const CASE_ATTRS: &'static str = r#" => rsx! {
    path {
        "#;

/// Sub-template text after the attribute lines.
pub const CASE_TAIL: &'static str = r#"
    },
},"#;

/// The indentation put before every attribute line but the first.
pub const ATTR_INDENT: &'static str = "        ";

/// One rendered attribute line: `name: "value",`, indented or not.
pub open spec fn attr_text(name: Seq<char>, value: Seq<char>, indent: bool) -> Seq<char> {
    (if indent {
        ATTR_INDENT@
    } else {
        Seq::empty()
    }) + name + ": \""@ + value + "\","@
}

/// Renders one attribute line, or nothing when the value is absent.
pub fn attr(name: &str, value: Option<&str>, indent: bool) -> (r: Option<String>)
    ensures
        (match value {
            Some(v) => r matches Some(s) && s@ == attr_text(name@, v@, indent),
            None => r matches None,
        }),
{
    match value {
        None => None,
        Some(v) => {
            let mut s = String::new();
            if indent {
                s.append(ATTR_INDENT);
            }
            s.append(name);
            s.append(": \"");
            s.append(v);
            s.append("\",");
            proof {
                assert(s@ =~= attr_text(name@, v@, indent));
            }
            Some(s)
        },
    }
}

/// The attribute lines of one icon's mapping clause, joined with one line
/// break: always the draw instructions; the clip rule and the fill rule
/// only when the icon has them.
pub open spec fn icon_attrs(icon: IconV) -> Seq<char> {
    attr_text("d"@, icon.path, false) + (match icon.clip_rule {
        Some(c) => "\n"@ + attr_text("clip_rule"@, c, true),
        None => Seq::empty(),
    }) + (match icon.fill_rule {
        Some(f) => "\n"@ + attr_text("fill_rule"@, f, true),
        None => Seq::empty(),
    })
}

/// An icon without a clip rule and without a fill rule contributes exactly
/// one attribute line: its draw instructions.
pub proof fn lemma_attrs_only_draw(icon: IconV)
    requires
        icon.clip_rule is None,
        icon.fill_rule is None,
    ensures
        icon_attrs(icon) == attr_text("d"@, icon.path, false),
{
    assert(icon_attrs(icon) =~= attr_text("d"@, icon.path, false));
}

fn icon_attrs_exec(icon: &Icon) -> (r: String)
    ensures
        r@ == icon_attrs(icon@),
{
    let d = attr("d", Some(icon.path.as_str()), false);
    let mut s = d.unwrap();
    match &icon.clip_rule {
        Some(c) => {
            s.append("\n");
            let line = attr("clip_rule", Some(c.as_str()), true).unwrap();
            s.append(line.as_str());
        },
        None => {},
    }
    match &icon.fill_rule {
        Some(f) => {
            s.append("\n");
            let line = attr("fill_rule", Some(f.as_str()), true).unwrap();
            s.append(line.as_str());
        },
        None => {},
    }
    proof {
        assert(s@ =~= icon_attrs(icon@));
    }
    s
}

/// One icon's mapping clause: the sub-template around its name and its
/// attribute lines.
pub open spec fn icon_case(icon: IconV) -> Seq<char> {
    CASE_HEAD@ + icon.name + CASE_ATTRS@ + icon_attrs(icon) + CASE_TAIL@
}

fn icon_case_exec(icon: &Icon) -> (r: String)
    ensures
        r@ == icon_case(icon@),
{
    let mut s = String::from_str(CASE_HEAD);
    s.append(icon.name.as_str());
    s.append(CASE_ATTRS);
    let attrs = icon_attrs_exec(icon);
    s.append(attrs.as_str());
    s.append(CASE_TAIL);
    proof {
        assert(s@ =~= icon_case(icon@));
    }
    s
}

/// The enumeration case list from position `i` on, one name per icon in
/// icon order, separated by a comma and a line break.
pub open spec fn names_text_from(icons: Seq<IconV>, i: int) -> Seq<char>
    decreases icons.len() - i,
{
    if i < 0 || i >= icons.len() {
        Seq::empty()
    } else {
        icons[i].name + (if i + 1 < icons.len() {
            ",\n"@ + names_text_from(icons, i + 1)
        } else {
            Seq::empty()
        })
    }
}

fn names_text_exec(icons: &Vec<Icon>, i: usize) -> (r: String)
    requires
        i <= icons@.len(),
    ensures
        r@ == names_text_from(icons_view(icons@), i as int),
    decreases icons@.len() - i,
{
    if i >= icons.len() {
        String::new()
    } else {
        let mut s = (&icons[i]).name.clone();
        if i + 1 < icons.len() {
            s.append(",\n");
            let rest = names_text_exec(icons, i + 1);
            s.append(rest.as_str());
        }
        proof {
            assert(s@ =~= names_text_from(icons_view(icons@), i as int));
        }
        s
    }
}

/// The mapping clauses from position `i` on, concatenated in icon order.
pub open spec fn cases_text_from(icons: Seq<IconV>, i: int) -> Seq<char>
    decreases icons.len() - i,
{
    if i < 0 || i >= icons.len() {
        Seq::empty()
    } else {
        icon_case(icons[i]) + cases_text_from(icons, i + 1)
    }
}

fn cases_text_exec(icons: &Vec<Icon>, i: usize) -> (r: String)
    requires
        i <= icons@.len(),
    ensures
        r@ == cases_text_from(icons_view(icons@), i as int),
    decreases icons@.len() - i,
{
    if i >= icons.len() {
        String::new()
    } else {
        let mut s = icon_case_exec(&icons[i]);
        let rest = cases_text_exec(icons, i + 1);
        s.append(rest.as_str());
        proof {
            assert(s@ =~= cases_text_from(icons_view(icons@), i as int));
        }
        s
    }
}

/// The style-wide bounding-box constant: the first icon's viewbox, in
/// sorted order.  Later icons' viewboxes do not reach the output.
pub open spec fn style_view_box(icons: Seq<IconV>) -> Seq<char> {
    icons[0].viewbox
}

/// The emitted constant is the first icon's viewbox — also when later
/// icons in the style carry a different one: the mismatch is silently
/// lost.
pub proof fn lemma_view_box_is_first(icons: Seq<IconV>)
    requires
        icons.len() > 0,
    ensures
        style_view_box(icons) == icons[0].viewbox,
{
}

/// The case list reads nothing but the icons' names.
proof fn lemma_names_text_ignores_geometry(a: Seq<IconV>, b: Seq<IconV>, i: int)
    requires
        a.len() == b.len(),
        forall|k: int| 0 <= k < a.len() ==> (#[trigger] a[k]).name == (#[trigger] b[k]).name,
    ensures
        names_text_from(a, i) == names_text_from(b, i),
    decreases a.len() - i,
{
    if 0 <= i < a.len() {
        lemma_names_text_ignores_geometry(a, b, i + 1);
    }
}

/// The mapping clauses read each icon's name, draw instructions and
/// rules, never its viewbox.
proof fn lemma_cases_text_ignores_viewbox(a: Seq<IconV>, b: Seq<IconV>, i: int)
    requires
        a.len() == b.len(),
        forall|k: int|
            0 <= k < a.len() ==> (#[trigger] a[k]).name == (#[trigger] b[k]).name && a[k].path
                == b[k].path && a[k].clip_rule == b[k].clip_rule && a[k].fill_rule == b[k].fill_rule,
    ensures
        cases_text_from(a, i) == cases_text_from(b, i),
    decreases a.len() - i,
{
    if 0 <= i < a.len() {
        lemma_cases_text_ignores_viewbox(a, b, i + 1);
        assert(icon_attrs(a[i]) == icon_attrs(b[i]));
    }
}

/// Viewbox narrowing: only the first icon's viewbox reaches the output.
/// Two icon lists that agree on everything else, and on the first
/// viewbox, render identically — a later icon's differing bounding box is
/// silently lost.
pub proof fn lemma_later_viewboxes_lost(a: Seq<IconV>, b: Seq<IconV>)
    requires
        a.len() == b.len(),
        a.len() > 0,
        a[0].viewbox == b[0].viewbox,
        forall|k: int|
            0 <= k < a.len() ==> (#[trigger] a[k]).name == (#[trigger] b[k]).name && a[k].path
                == b[k].path && a[k].clip_rule == b[k].clip_rule && a[k].fill_rule == b[k].fill_rule,
    ensures
        render_spec(a) == render_spec(b),
{
    lemma_names_text_ignores_geometry(a, b, 0);
    lemma_cases_text_ignores_viewbox(a, b, 0);
}

/// The whole generated file for one style's icons.
pub open spec fn render_spec(icons: Seq<IconV>) -> Seq<char> {
    FILE_HEAD@ + style_view_box(icons) + FILE_NAMES@ + names_text_from(icons, 0) + FILE_PATHS@
        + cases_text_from(icons, 0) + FILE_TAIL@
}

/// Renders the generated source file for one style's collected icons.
/// The style must hold at least one icon: the first one supplies the
/// style-wide bounding-box constant.
pub fn render_icons_file(icons: &Vec<Icon>) -> (r: String)
    requires
        icons@.len() > 0,
    ensures
        r@ == render_spec(icons_view(icons@)),
{
    let mut s = String::from_str(FILE_HEAD);
    s.append((&icons[0]).viewbox.as_str());
    s.append(FILE_NAMES);
    let names = names_text_exec(icons, 0);
    s.append(names.as_str());
    s.append(FILE_PATHS);
    let cases = cases_text_exec(icons, 0);
    s.append(cases.as_str());
    s.append(FILE_TAIL);
    proof {
        assert(s@ =~= render_spec(icons_view(icons@)));
    }
    s
}

} // verus!
