//! A scanner for the icon source markup: it walks the text of one icon
//! file and lists every element open tag together with its attributes.
//! Closing tags, comments and text content carry no geometry and are
//! skipped.  Attribute values are the double-quoted form the icon sources
//! use (`name="value"`).

use vstd::prelude::*;
use crate::scan::{attr_name_end, attr_name_end_exec, is_name_char, is_name_char_exec, is_ws,
    is_ws_exec, name_end, name_end_exec, quote_end, quote_end_exec, tag_close, tag_close_exec};

verus! {

/// One attribute of an element open tag.
pub struct Attr {
    pub name: String,
    pub value: String,
}

/// The mathematical value of an [`Attr`].
pub struct AttrV {
    pub name: Seq<char>,
    pub value: Seq<char>,
}

impl View for Attr {
    type V = AttrV;

    open spec fn view(&self) -> AttrV {
        AttrV { name: self.name@, value: self.value@ }
    }
}

/// One element open tag: its name and its attributes in source order.
pub struct Tag {
    pub name: String,
    pub attrs: Vec<Attr>,
}

/// The mathematical value of a [`Tag`].
pub struct TagV {
    pub name: Seq<char>,
    pub attrs: Seq<AttrV>,
}

impl View for Tag {
    type V = TagV;

    open spec fn view(&self) -> TagV {
        TagV { name: self.name@, attrs: self.attrs@.map_values(|a: Attr| a@) }
    }
}

/// The views of a list of tags.
pub open spec fn tags_view(v: Seq<Tag>) -> Seq<TagV> {
    v.map_values(|t: Tag| t@)
}

broadcast use crate::scan::lemma_name_end_bounds, crate::scan::lemma_tag_close_bounds,
    crate::scan::lemma_quote_end_bounds, crate::scan::lemma_attr_name_end_bounds;

/// The attributes written in `[i, end)`, in source order.  A name followed
/// by `="` opens a value that runs to the next `"`; anything not shaped
/// like that is skipped.
pub open spec fn attrs_from(s: Seq<char>, i: int, end: int) -> Seq<AttrV>
    decreases end - i,
    when 0 <= i && end <= s.len()
{
    if i >= end {
        Seq::empty()
    } else if is_ws(s[i]) || s[i] == '/' || s[i] == '"' {
        attrs_from(s, i + 1, end)
    } else {
        let ne = attr_name_end(s, i, end);
        if ne + 1 < end && s[ne] == '=' && s[ne + 1] == '"' {
            let ve = quote_end(s, ne + 2, end);
            let next = if ve + 1 <= end { ve + 1 } else { end };
            seq![AttrV { name: s.subrange(i, ne), value: s.subrange(ne + 2, ve) }] + attrs_from(
                s,
                next,
                end,
            )
        } else {
            let next = if ne > i { ne } else { i + 1 };
            attrs_from(s, next, end)
        }
    }
}

/// Every element open tag at or after position `i`, in source order.
pub open spec fn tags_from(s: Seq<char>, i: int) -> Seq<TagV>
    decreases s.len() - i,
    when 0 <= i
{
    if i >= s.len() {
        Seq::empty()
    } else if s[i] == '<' && i + 1 < s.len() && is_name_char(s[i + 1]) {
        let ne = name_end(s, i + 1);
        let te = tag_close(s, ne, false);
        let tag = TagV { name: s.subrange(i + 1, ne), attrs: attrs_from(s, ne, te) };
        let next = if te + 1 <= s.len() { te + 1 } else { s.len() as int };
        seq![tag] + tags_from(s, next)
    } else {
        tags_from(s, i + 1)
    }
}

/// Every element open tag of the document, in source order.
pub open spec fn tags_of(s: Seq<char>) -> Seq<TagV> {
    tags_from(s, 0)
}

fn parse_attrs_into(s: &str, i: usize, end: usize, out: &mut Vec<Attr>)
    requires
        end <= s@.len(),
        i <= end,
    ensures
        final(out)@.map_values(|a: Attr| a@) == old(out)@.map_values(|a: Attr| a@) + attrs_from(
            s@,
            i as int,
            end as int,
        ),
    decreases end - i,
{
    if i >= end {
        proof {
            assert(out@.map_values(|a: Attr| a@) + attrs_from(s@, i as int, end as int)
                =~= out@.map_values(|a: Attr| a@));
        }
        return ;
    }
    let c = s.get_char(i);
    if is_ws_exec(c) || c == '/' || c == '"' {
        parse_attrs_into(s, i + 1, end, out);
        return ;
    }
    let ne = attr_name_end_exec(s, i, end);
    if ne < end && ne + 1 < end && s.get_char(ne) == '=' && s.get_char(ne + 1) == '"' {
        let ve = quote_end_exec(s, ne + 2, end);
        let name = String::from_str(s.substring_char(i, ne));
        let value = String::from_str(s.substring_char(ne + 2, ve));
        let ghost pre = out@.map_values(|a: Attr| a@);
        let attr = Attr { name, value };
        let ghost attr_v = attr@;
        out.push(attr);
        proof {
            assert(out@.map_values(|a: Attr| a@) =~= pre + seq![attr_v]);
        }
        let next = if ve < end { ve + 1 } else { end };
        parse_attrs_into(s, next, end, out);
        proof {
            assert(final(out)@.map_values(|a: Attr| a@) =~= pre + attrs_from(
                s@, i as int, end as int));
        }
    } else {
        let next = if ne > i { ne } else { i + 1 };
        parse_attrs_into(s, next, end, out);
    }
}

fn parse_tags_into(s: &str, i: usize, n: usize, out: &mut Vec<Tag>)
    requires
        n == s@.len(),
        i <= n,
    ensures
        final(out)@.map_values(|t: Tag| t@) == old(out)@.map_values(|t: Tag| t@) + tags_from(
            s@,
            i as int,
        ),
    decreases n - i,
{
    if i >= n {
        proof {
            assert(out@.map_values(|t: Tag| t@) + tags_from(s@, i as int)
                =~= out@.map_values(|t: Tag| t@));
        }
        return ;
    }
    let c = s.get_char(i);
    if c == '<' && i + 1 < n && is_name_char_exec(s.get_char(i + 1)) {
        let ne = name_end_exec(s, i + 1, n);
        let te = tag_close_exec(s, ne, false, n);
        let name = String::from_str(s.substring_char(i + 1, ne));
        let mut attrs: Vec<Attr> = Vec::new();
        parse_attrs_into(s, ne, te, &mut attrs);
        let ghost pre = out@.map_values(|t: Tag| t@);
        let tag = Tag { name, attrs };
        let ghost tag_v = tag@;
        proof {
            assert(Seq::<Attr>::empty().map_values(|a: Attr| a@) =~= Seq::<AttrV>::empty());
            assert(tag_v =~= TagV {
                name: s@.subrange(i + 1, name_end(s@, i + 1)),
                attrs: attrs_from(s@, name_end(s@, i + 1), tag_close(s@, name_end(s@, i + 1), false)),
            });
        }
        out.push(tag);
        proof {
            assert(out@.map_values(|t: Tag| t@) =~= pre + seq![tag_v]);
        }
        let next = if te < n { te + 1 } else { n };
        parse_tags_into(s, next, n, out);
        proof {
            assert(final(out)@.map_values(|t: Tag| t@) =~= pre + tags_from(s@, i as int));
        }
    } else {
        parse_tags_into(s, i + 1, n, out);
    }
}

/// Lists every element open tag of `s` with its attributes, in source
/// order.
pub fn parse_tags(s: &str) -> (r: Vec<Tag>)
    ensures
        tags_view(r@) == tags_of(s@),
{
    let n = s.unicode_len();
    let mut out: Vec<Tag> = Vec::new();
    parse_tags_into(s, 0, n, &mut out);
    proof {
        assert(Seq::<Tag>::empty().map_values(|t: Tag| t@) =~= Seq::<TagV>::empty());
        assert(tags_view(out@) =~= tags_of(s@));
    }
    out
}

} // verus!
