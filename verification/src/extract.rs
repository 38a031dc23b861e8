//! The markup extractor: reads one icon source document and collects its
//! geometry — the bounding viewbox of the root element, the draw
//! instructions of every path element joined into one string, and the
//! first clip-rule and fill-rule found across the paths.

use vstd::prelude::*;
use crate::CompileError;
use crate::markup::{Attr, AttrV, Tag, TagV, parse_tags, tags_of, tags_view};
use crate::text::{opt_view, push_char, str_eq};

verus! {

/// One icon ready for emission: its identifier and its geometry.
#[derive(Debug, PartialEq)]
pub struct Icon {
    pub name: String,
    pub viewbox: String,
    pub path: String,
    pub clip_rule: Option<String>,
    pub fill_rule: Option<String>,
}

/// The mathematical value of an [`Icon`].
pub struct IconV {
    pub name: Seq<char>,
    pub viewbox: Seq<char>,
    pub path: Seq<char>,
    pub clip_rule: Option<Seq<char>>,
    pub fill_rule: Option<Seq<char>>,
}

impl View for Icon {
    type V = IconV;

    open spec fn view(&self) -> IconV {
        IconV {
            name: self.name@,
            viewbox: self.viewbox@,
            path: self.path@,
            clip_rule: opt_view(self.clip_rule),
            fill_rule: opt_view(self.fill_rule),
        }
    }
}

/// The views of a list of icons.
pub open spec fn icons_view(v: Seq<Icon>) -> Seq<IconV> {
    v.map_values(|i: Icon| i@)
}

/// The geometry extracted from one icon source document.
pub struct GeomV {
    pub viewbox: Seq<char>,
    pub path: Seq<char>,
    pub clip_rule: Option<Seq<char>>,
    pub fill_rule: Option<Seq<char>>,
}

/// The value of the first attribute at or after position `i` that carries
/// the given name.
pub open spec fn attr_val_from(attrs: Seq<AttrV>, name: Seq<char>, i: int) -> Option<Seq<char>>
    decreases attrs.len() - i,
{
    if i < 0 || i >= attrs.len() {
        None
    } else if attrs[i].name == name {
        Some(attrs[i].value)
    } else {
        attr_val_from(attrs, name, i + 1)
    }
}

/// The value of the first attribute with the given name, if any.
pub open spec fn attr_val(attrs: Seq<AttrV>, name: Seq<char>) -> Option<Seq<char>> {
    attr_val_from(attrs, name, 0)
}

/// The position of the first tag at or after `i` with the given name, or
/// the number of tags.
pub open spec fn find_tag_from(tags: Seq<TagV>, name: Seq<char>, i: int) -> int
    decreases tags.len() - i,
{
    if i < 0 || i >= tags.len() {
        tags.len() as int
    } else if tags[i].name == name {
        i
    } else {
        find_tag_from(tags, name, i + 1)
    }
}

/// Whether some tag at or after `i` is a path element.
pub open spec fn has_path_from(tags: Seq<TagV>, i: int) -> bool
    decreases tags.len() - i,
{
    if i < 0 || i >= tags.len() {
        false
    } else if tags[i].name == "path"@ {
        true
    } else {
        has_path_from(tags, i + 1)
    }
}

/// The draw instructions of every path element at or after `i`, joined
/// with a single space, in document order; `None` when some path element
/// has no `d` attribute.
pub open spec fn joined_d_from(tags: Seq<TagV>, i: int) -> Option<Seq<char>>
    decreases tags.len() - i,
{
    if i < 0 || i >= tags.len() {
        Some(Seq::empty())
    } else if tags[i].name == "path"@ {
        match attr_val(tags[i].attrs, "d"@) {
            None => None,
            Some(d) => match joined_d_from(tags, i + 1) {
                None => None,
                Some(rest) => Some(
                    if has_path_from(tags, i + 1) {
                        d + seq![' '] + rest
                    } else {
                        d
                    },
                ),
            },
        }
    } else {
        joined_d_from(tags, i + 1)
    }
}

/// The first value of the given rule attribute across the path elements
/// at or after `i`; later occurrences are ignored even if they differ.
pub open spec fn first_rule_from(tags: Seq<TagV>, name: Seq<char>, i: int) -> Option<Seq<char>>
    decreases tags.len() - i,
{
    if i < 0 || i >= tags.len() {
        None
    } else if tags[i].name == "path"@ {
        match attr_val(tags[i].attrs, name) {
            Some(v) => Some(v),
            None => first_rule_from(tags, name, i + 1),
        }
    } else {
        first_rule_from(tags, name, i + 1)
    }
}

/// A path element that does not carry the rule does not decide it: the
/// scan moves on to the later paths.
pub proof fn lemma_first_rule_skips_absent(tags: Seq<TagV>, name: Seq<char>, i: int)
    requires
        0 <= i < tags.len(),
        tags[i].name == "path"@,
        attr_val(tags[i].attrs, name) is None,
    ensures
        first_rule_from(tags, name, i) == first_rule_from(tags, name, i + 1),
{
}

/// The first path element that carries the rule decides it for the whole
/// icon; later occurrences are ignored even if they differ.
pub proof fn lemma_first_rule_found(tags: Seq<TagV>, name: Seq<char>, i: int, v: Seq<char>)
    requires
        0 <= i < tags.len(),
        tags[i].name == "path"@,
        attr_val(tags[i].attrs, name) == Some(v),
    ensures
        first_rule_from(tags, name, i) == Some(v),
{
}

/// What extraction yields on a document: the geometry, or the first
/// fatal defect.  The root is the first `svg` element; the path elements
/// that follow it contribute their draw instructions and rules.
pub open spec fn extract_spec(s: Seq<char>) -> Result<GeomV, CompileError> {
    let ts = tags_of(s);
    let ri = find_tag_from(ts, "svg"@, 0);
    if ri >= ts.len() {
        Err(CompileError::MissingRoot)
    } else {
        match attr_val(ts[ri].attrs, "viewBox"@) {
            None => Err(CompileError::MissingViewBox),
            Some(vb) => match joined_d_from(ts, ri + 1) {
                None => Err(CompileError::MissingDraw),
                Some(d) => Ok(
                    GeomV {
                        viewbox: vb,
                        path: d,
                        clip_rule: first_rule_from(ts, "clip-rule"@, ri + 1),
                        fill_rule: first_rule_from(ts, "fill-rule"@, ri + 1),
                    },
                ),
            },
        }
    }
}

fn attr_val_exec(attrs: &Vec<Attr>, name: &str, i: usize) -> (r: Option<String>)
    requires
        i <= attrs@.len(),
    ensures
        opt_view(r) == attr_val_from(attrs@.map_values(|a: Attr| a@), name@, i as int),
    decreases attrs@.len() - i,
{
    if i >= attrs.len() {
        None
    } else if str_eq((&attrs[i]).name.as_str(), name) {
        Some((&attrs[i]).value.clone())
    } else {
        attr_val_exec(attrs, name, i + 1)
    }
}

fn find_tag_exec(tags: &Vec<Tag>, name: &str, i: usize) -> (r: usize)
    requires
        i <= tags@.len(),
    ensures
        r == find_tag_from(tags_view(tags@), name@, i as int),
    decreases tags@.len() - i,
{
    if i >= tags.len() {
        tags.len()
    } else if str_eq((&tags[i]).name.as_str(), name) {
        i
    } else {
        find_tag_exec(tags, name, i + 1)
    }
}

fn has_path_exec(tags: &Vec<Tag>, i: usize) -> (r: bool)
    requires
        i <= tags@.len(),
    ensures
        r == has_path_from(tags_view(tags@), i as int),
    decreases tags@.len() - i,
{
    if i >= tags.len() {
        false
    } else if str_eq((&tags[i]).name.as_str(), "path") {
        true
    } else {
        has_path_exec(tags, i + 1)
    }
}

fn joined_d_exec(tags: &Vec<Tag>, i: usize) -> (r: Option<String>)
    requires
        i <= tags@.len(),
    ensures
        opt_view(r) == joined_d_from(tags_view(tags@), i as int),
    decreases tags@.len() - i,
{
    if i >= tags.len() {
        Some(String::new())
    } else if str_eq((&tags[i]).name.as_str(), "path") {
        match attr_val_exec(&(&tags[i]).attrs, "d", 0) {
            None => None,
            Some(d) => match joined_d_exec(tags, i + 1) {
                None => None,
                Some(rest) => {
                    if has_path_exec(tags, i + 1) {
                        let mut joined = d;
                        push_char(&mut joined, ' ');
                        joined.append(rest.as_str());
                        Some(joined)
                    } else {
                        Some(d)
                    }
                },
            },
        }
    } else {
        joined_d_exec(tags, i + 1)
    }
}

fn first_rule_exec(tags: &Vec<Tag>, name: &str, i: usize) -> (r: Option<String>)
    requires
        i <= tags@.len(),
    ensures
        opt_view(r) == first_rule_from(tags_view(tags@), name@, i as int),
    decreases tags@.len() - i,
{
    if i >= tags.len() {
        None
    } else if str_eq((&tags[i]).name.as_str(), "path") {
        match attr_val_exec(&(&tags[i]).attrs, name, 0) {
            Some(v) => Some(v),
            None => first_rule_exec(tags, name, i + 1),
        }
    } else {
        first_rule_exec(tags, name, i + 1)
    }
}

/// Extracts the geometry of one icon source document and records it under
/// the given identifier.  Fails with the first defect the document shows:
/// no root `svg` element, no `viewBox` on the root, or a path element
/// without draw instructions.
pub fn extract_icon(name: String, content: &str) -> (r: Result<Icon, CompileError>)
    ensures
        (match (extract_spec(content@)) {
            Ok(g) => r matches Ok(icon) && icon@ == (IconV {
                name: name@,
                viewbox: g.viewbox,
                path: g.path,
                clip_rule: g.clip_rule,
                fill_rule: g.fill_rule,
            }),
            Err(e) => r matches Err(e2) && e2 == e,
        }),
{
    let tags = parse_tags(content);
    let ri = find_tag_exec(&tags, "svg", 0);
    if ri >= tags.len() {
        return Err(CompileError::MissingRoot);
    }
    let viewbox = match attr_val_exec(&(&tags[ri]).attrs, "viewBox", 0) {
        None => {
            return Err(CompileError::MissingViewBox);
        },
        Some(vb) => vb,
    };
    let path = match joined_d_exec(&tags, ri + 1) {
        None => {
            return Err(CompileError::MissingDraw);
        },
        Some(d) => d,
    };
    let clip_rule = first_rule_exec(&tags, "clip-rule", ri + 1);
    let fill_rule = first_rule_exec(&tags, "fill-rule", ri + 1);
    Ok(Icon { name, viewbox, path, clip_rule, fill_rule })
}

} // verus!
