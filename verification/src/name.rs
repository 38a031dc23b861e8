//! Name normalization: a hyphen-separated lowercase file base name becomes
//! an upper-camel-case identifier, legal as a variant name in the generated
//! enumeration (`arrow-narrow-left` becomes `ArrowNarrowLeft`).

use vstd::prelude::*;
use crate::text::push_char;

verus! {

/// An ASCII lowercase letter mapped to its uppercase form; any other
/// character is left as it is.
pub open spec fn to_upper(c: char) -> char {
    if 97 <= (c as int) && (c as int) <= 122 {
        (((c as u32) - 32) as u8) as char
    } else {
        c
    }
}

/// The upper-camel-case text of the suffix of `s` from position `i` on.
/// `boundary` records whether the next letter starts a word: hyphens are
/// dropped and start a new word, the first letter of each word is
/// uppercased, every other character is kept unchanged.
pub open spec fn upper_camel_from(s: Seq<char>, i: int, boundary: bool) -> Seq<char>
    decreases s.len() - i,
{
    if i < 0 || i >= s.len() {
        Seq::empty()
    } else if s[i] == '-' {
        upper_camel_from(s, i + 1, true)
    } else if boundary {
        seq![to_upper(s[i])] + upper_camel_from(s, i + 1, false)
    } else {
        seq![s[i]] + upper_camel_from(s, i + 1, false)
    }
}

/// The upper-camel-case identifier derived from a hyphen-separated name.
pub open spec fn upper_camel(s: Seq<char>) -> Seq<char> {
    upper_camel_from(s, 0, true)
}

/// Uppercases one ASCII letter, leaving every other character unchanged.
pub fn to_upper_char(c: char) -> (r: char)
    ensures
        r == to_upper(c),
{
    let x = c as u32;
    if 97 <= x && x <= 122 {
        ((x - 32) as u8) as char
    } else {
        c
    }
}

/// Turns a hyphen-separated lowercase name into its upper-camel-case
/// identifier.
pub fn to_upper_camel_case(s: &str) -> (r: String)
    ensures
        r@ == upper_camel(s@),
{
    let n = s.unicode_len();
    let mut out = String::new();
    let mut boundary = true;
    let mut i: usize = 0;
    while i < n
        invariant
            n == s@.len(),
            0 <= i <= n,
            out@ + upper_camel_from(s@, i as int, boundary) == upper_camel(s@),
        decreases n - i,
    {
        let ghost prev_out = out@;
        let c = s.get_char(i);
        if c == '-' {
            boundary = true;
        } else if boundary {
            push_char(&mut out, to_upper_char(c));
            boundary = false;
            proof {
                assert(out@ + upper_camel_from(s@, i + 1, false) =~= prev_out
                    + upper_camel_from(s@, i as int, true));
            }
        } else {
            push_char(&mut out, c);
            proof {
                assert(out@ + upper_camel_from(s@, i + 1, false) =~= prev_out
                    + upper_camel_from(s@, i as int, false));
            }
        }
        i += 1;
    }
    proof {
        assert(out@ + upper_camel_from(s@, n as int, boundary) =~= out@);
    }
    out
}

} // verus!
