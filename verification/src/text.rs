//! Small string utilities: character appends, string equality and the
//! byte-lexicographic order that file discovery sorts by.

use vstd::prelude::*;

verus! {

/// Relies on `String::push`: appends one character at the end of the string.
#[verifier::external_body]
pub(crate) fn push_char(s: &mut String, c: char)
    ensures
        final(s)@ == old(s)@.push(c),
{
    s.push(c);
}

/// The view of an optional string: the characters, if the string is there.
pub open spec fn opt_view(o: Option<String>) -> Option<Seq<char>> {
    match o {
        Some(s) => Some(s@),
        None => None,
    }
}

/// True exactly when the two strings hold the same characters.
pub fn str_eq(a: &str, b: &str) -> (r: bool)
    ensures
        r == (a@ == b@),
{
    let na = a.unicode_len();
    let nb = b.unicode_len();
    if na != nb {
        proof {
            assert(a@ != b@) by {
                assert(a@.len() != b@.len());
            }
        }
        return false;
    }
    let mut i: usize = 0;
    while i < na
        invariant
            na == a@.len() && na == b@.len(),
            0 <= i <= na,
            forall|k: int| 0 <= k < i ==> a@[k] == b@[k],
        decreases na - i,
    {
        if a.get_char(i) != b.get_char(i) {
            return false;
        }
        i += 1;
    }
    proof {
        assert(a@ =~= b@);
    }
    true
}

/// Lexicographic comparison of the suffixes of `a` and `b` that start at
/// position `i`: code-point order, a proper prefix ordered first.  For UTF-8
/// encoded text this coincides with byte order of the encoded strings.
pub open spec fn lex_le_from(a: Seq<char>, b: Seq<char>, i: int) -> bool
    decreases a.len() - i,
{
    if i < 0 || i >= a.len() {
        true
    } else if i >= b.len() {
        false
    } else if a[i] != b[i] {
        (a[i] as int) < (b[i] as int)
    } else {
        lex_le_from(a, b, i + 1)
    }
}

/// `a` is at or before `b` in byte-lexicographic order.
pub open spec fn lex_le(a: Seq<char>, b: Seq<char>) -> bool {
    lex_le_from(a, b, 0)
}

/// Compares the suffixes of two strings starting at character `i`.
fn lex_le_str_from(a: &str, b: &str, i: usize, na: usize, nb: usize) -> (r: bool)
    requires
        na == a@.len(),
        nb == b@.len(),
        i <= na,
        i <= nb,
    ensures
        r == lex_le_from(a@, b@, i as int),
    decreases na - i,
{
    if i >= na {
        true
    } else if i >= nb {
        false
    } else {
        let ca = a.get_char(i);
        let cb = b.get_char(i);
        if ca != cb {
            (ca as u32) < (cb as u32)
        } else {
            lex_le_str_from(a, b, i + 1, na, nb)
        }
    }
}

/// True exactly when `a` is at or before `b` in byte-lexicographic order.
pub fn lex_le_str(a: &str, b: &str) -> (r: bool)
    ensures
        r == lex_le(a@, b@),
{
    let na = a.unicode_len();
    let nb = b.unicode_len();
    lex_le_str_from(a, b, 0, na, nb)
}

/// The order is reflexive.
pub proof fn lemma_lex_le_refl(a: Seq<char>, i: int)
    ensures
        lex_le_from(a, a, i),
    decreases a.len() - i,
{
    if 0 <= i < a.len() {
        lemma_lex_le_refl(a, i + 1);
    }
}

/// Two sequences each at or before the other are equal.
pub proof fn lemma_lex_le_antisym(a: Seq<char>, b: Seq<char>, i: int)
    requires
        0 <= i,
        lex_le_from(a, b, i),
        lex_le_from(b, a, i),
        a.subrange(0, if i <= a.len() { i } else { a.len() as int })
            =~= b.subrange(0, if i <= b.len() { i } else { b.len() as int }),
        i <= a.len() || i <= b.len(),
    ensures
        a =~= b,
    decreases a.len() + b.len() - i,
{
    if i >= a.len() {
        // `b` can be no longer than `a`, else lex_le_from(b, a, i) fails.
        assert(i >= b.len());
        assert(a =~= a.subrange(0, a.len() as int));
        assert(b =~= b.subrange(0, b.len() as int));
        assert(a =~= b);
    } else if i >= b.len() {
        assert(false);
    } else {
        assert(a[i] == b[i]);
        assert(a.subrange(0, i + 1) =~= b.subrange(0, i + 1));
        lemma_lex_le_antisym(a, b, i + 1);
    }
}

/// The order is total: one of the two directions always holds.
pub proof fn lemma_lex_le_connected(a: Seq<char>, b: Seq<char>, i: int)
    requires
        0 <= i,
    ensures
        lex_le_from(a, b, i) || lex_le_from(b, a, i),
    decreases a.len() + b.len() - i,
{
    if i < a.len() && i < b.len() && a[i] == b[i] {
        lemma_lex_le_connected(a, b, i + 1);
    }
}

/// The order is transitive.
pub proof fn lemma_lex_le_trans(a: Seq<char>, b: Seq<char>, c: Seq<char>, i: int)
    requires
        0 <= i,
        lex_le_from(a, b, i),
        lex_le_from(b, c, i),
    ensures
        lex_le_from(a, c, i),
    decreases a.len() + b.len() + c.len() - i,
{
    if i >= a.len() {
    } else if i >= b.len() {
        assert(false);
    } else if i >= c.len() {
        assert(false);
    } else {
        if a[i] == b[i] && b[i] == c[i] {
            lemma_lex_le_trans(a, b, c, i + 1);
        }
    }
}

} // verus!
