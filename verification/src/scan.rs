//! Low-level text scanning for the markup module: character classes and
//! the "first position such that" searches the tag scanner advances by.

use vstd::prelude::*;

verus! {

/// Whitespace as the markup grammar knows it.
pub open spec fn is_ws(c: char) -> bool {
    c == ' ' || c == '\n' || c == '\t' || c == '\r'
}

/// A character that may stand in an element or attribute name: an ASCII
/// letter or digit, or one of `-`, `_`, `:`.
pub open spec fn is_name_char(c: char) -> bool {
    let x = c as int;
    (97 <= x && x <= 122) || (65 <= x && x <= 90) || (48 <= x && x <= 57) || c == '-' || c == '_'
        || c == ':'
}

/// The first position at or after `i` whose character is not a name
/// character, or the end of the text.
pub open spec fn name_end(s: Seq<char>, i: int) -> int
    decreases s.len() - i,
{
    if i < 0 || i >= s.len() {
        s.len() as int
    } else if is_name_char(s[i]) {
        name_end(s, i + 1)
    } else {
        i
    }
}

/// The position of the first `>` at or after `i` that stands outside a
/// double-quoted value, or the end of the text.
pub open spec fn tag_close(s: Seq<char>, i: int, in_quote: bool) -> int
    decreases s.len() - i,
{
    if i < 0 || i >= s.len() {
        s.len() as int
    } else if s[i] == '"' {
        tag_close(s, i + 1, !in_quote)
    } else if !in_quote && s[i] == '>' {
        i
    } else {
        tag_close(s, i + 1, in_quote)
    }
}

/// The position of the first `"` in `[i, end)`, or `end`.
pub open spec fn quote_end(s: Seq<char>, i: int, end: int) -> int
    decreases end - i,
{
    if i < 0 || i >= end {
        end
    } else if s[i] == '"' {
        i
    } else {
        quote_end(s, i + 1, end)
    }
}

/// The end of an attribute name that starts at `i`: the first position in
/// `[i, end)` holding whitespace, `=`, `/` or `"`, or `end`.
pub open spec fn attr_name_end(s: Seq<char>, i: int, end: int) -> int
    decreases end - i,
{
    if i < 0 || i >= end {
        end
    } else if is_ws(s[i]) || s[i] == '=' || s[i] == '/' || s[i] == '"' {
        i
    } else {
        attr_name_end(s, i + 1, end)
    }
}

pub broadcast proof fn lemma_name_end_bounds(s: Seq<char>, i: int)
    requires
        0 <= i <= s.len(),
    ensures
        i <= #[trigger] name_end(s, i) <= s.len(),
    decreases s.len() - i,
{
    if i < s.len() && is_name_char(s[i]) {
        lemma_name_end_bounds(s, i + 1);
    }
}

pub broadcast proof fn lemma_tag_close_bounds(s: Seq<char>, i: int, in_quote: bool)
    requires
        0 <= i <= s.len(),
    ensures
        i <= #[trigger] tag_close(s, i, in_quote) <= s.len(),
    decreases s.len() - i,
{
    if i < s.len() && !(!in_quote && s[i] == '>' && s[i] != '"') {
        if s[i] == '"' {
            lemma_tag_close_bounds(s, i + 1, !in_quote);
        } else if !(!in_quote && s[i] == '>') {
            lemma_tag_close_bounds(s, i + 1, in_quote);
        }
    }
}

pub broadcast proof fn lemma_quote_end_bounds(s: Seq<char>, i: int, end: int)
    requires
        0 <= i <= end,
    ensures
        i <= #[trigger] quote_end(s, i, end) <= end,
    decreases end - i,
{
    if i < end && s[i] != '"' {
        lemma_quote_end_bounds(s, i + 1, end);
    }
}

pub broadcast proof fn lemma_attr_name_end_bounds(s: Seq<char>, i: int, end: int)
    requires
        0 <= i <= end,
    ensures
        i <= #[trigger] attr_name_end(s, i, end) <= end,
    decreases end - i,
{
    if i < end && !(is_ws(s[i]) || s[i] == '=' || s[i] == '/' || s[i] == '"') {
        lemma_attr_name_end_bounds(s, i + 1, end);
    }
}


pub(crate) fn is_ws_exec(c: char) -> (r: bool)
    ensures
        r == is_ws(c),
{
    c == ' ' || c == '\n' || c == '\t' || c == '\r'
}

pub(crate) fn is_name_char_exec(c: char) -> (r: bool)
    ensures
        r == is_name_char(c),
{
    let x = c as u32;
    (97 <= x && x <= 122) || (65 <= x && x <= 90) || (48 <= x && x <= 57) || c == '-' || c == '_'
        || c == ':'
}

pub(crate) fn name_end_exec(s: &str, i: usize, n: usize) -> (r: usize)
    requires
        n == s@.len(),
        i <= n,
    ensures
        r == name_end(s@, i as int),
    decreases n - i,
{
    if i >= n {
        n
    } else if is_name_char_exec(s.get_char(i)) {
        name_end_exec(s, i + 1, n)
    } else {
        i
    }
}

pub(crate) fn tag_close_exec(s: &str, i: usize, in_quote: bool, n: usize) -> (r: usize)
    requires
        n == s@.len(),
        i <= n,
    ensures
        r == tag_close(s@, i as int, in_quote),
    decreases n - i,
{
    if i >= n {
        n
    } else {
        let c = s.get_char(i);
        if c == '"' {
            tag_close_exec(s, i + 1, !in_quote, n)
        } else if !in_quote && c == '>' {
            i
        } else {
            tag_close_exec(s, i + 1, in_quote, n)
        }
    }
}

pub(crate) fn quote_end_exec(s: &str, i: usize, end: usize) -> (r: usize)
    requires
        end <= s@.len(),
        i <= end,
    ensures
        r == quote_end(s@, i as int, end as int),
        i <= r <= end,
    decreases end - i,
{
    if i >= end {
        end
    } else if s.get_char(i) == '"' {
        i
    } else {
        quote_end_exec(s, i + 1, end)
    }
}

pub(crate) fn attr_name_end_exec(s: &str, i: usize, end: usize) -> (r: usize)
    requires
        end <= s@.len(),
        i <= end,
    ensures
        r == attr_name_end(s@, i as int, end as int),
        i <= r <= end,
    decreases end - i,
{
    if i >= end {
        end
    } else {
        let c = s.get_char(i);
        if is_ws_exec(c) || c == '=' || c == '/' || c == '"' {
            i
        } else {
            attr_name_end_exec(s, i + 1, end)
        }
    }
}

} // verus!
