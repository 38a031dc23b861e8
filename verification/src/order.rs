//! Discovery order: icon files are compiled in ascending byte-lexicographic
//! order of their file names, so that the generated declaration order, and
//! with it the whole output, is reproducible whatever order the directory
//! walk reported the files in.

use vstd::prelude::*;
use vstd::relations::{sorted_by, total_ordering};
use crate::{files_view, SourceFile, SourceFileV};
use crate::text::{lemma_lex_le_antisym, lemma_lex_le_connected, lemma_lex_le_refl,
    lemma_lex_le_trans, lex_le, lex_le_str, str_eq};

verus! {

/// `a` comes at or before `b` in discovery order: file names compared
/// byte-lexicographically, a tie broken by the content so that the order
/// is total and the sorted list is a function of the file set alone.
pub open spec fn file_le(a: SourceFileV, b: SourceFileV) -> bool {
    if a.name == b.name {
        lex_le(a.content, b.content)
    } else {
        lex_le(a.name, b.name)
    }
}

/// [`file_le`] as a relation value, for the sorting vocabulary of vstd.
pub open spec fn file_order() -> spec_fn(SourceFileV, SourceFileV) -> bool {
    |a: SourceFileV, b: SourceFileV| file_le(a, b)
}

/// Discovery order is reflexive.
pub proof fn lemma_file_le_refl(x: SourceFileV)
    ensures
        file_le(x, x),
{
    lemma_lex_le_refl(x.content, 0);
}

/// Discovery order is transitive.
pub proof fn lemma_file_le_trans(x: SourceFileV, y: SourceFileV, z: SourceFileV)
    requires
        file_le(x, y),
        file_le(y, z),
    ensures
        file_le(x, z),
{
    if x.name == y.name && y.name == z.name {
        lemma_lex_le_trans(x.content, y.content, z.content, 0);
    } else if x.name == y.name {
        assert(lex_le(y.name, z.name));
    } else if y.name == z.name {
        assert(lex_le(x.name, y.name));
    } else {
        lemma_lex_le_trans(x.name, y.name, z.name, 0);
        if x.name == z.name {
            lemma_lex_le_antisym(x.name, y.name, 0);
            assert(false);
        }
    }
}

/// One of the two directions of discovery order always holds.
pub proof fn lemma_file_le_connected(x: SourceFileV, y: SourceFileV)
    ensures
        file_le(x, y) || file_le(y, x),
{
    if x.name == y.name {
        lemma_lex_le_connected(x.content, y.content, 0);
    } else {
        lemma_lex_le_connected(x.name, y.name, 0);
    }
}

/// The files sorted into discovery order, element by element.
pub open spec fn files_sorted(s: Seq<SourceFileV>) -> bool {
    forall|i: int, j: int| 0 <= i < j < s.len() ==> file_le(#[trigger] s[i], #[trigger] s[j])
}

/// [`files_sorted`] agrees with the sorting vocabulary of vstd.
pub proof fn lemma_files_sorted_is_sorted_by(s: Seq<SourceFileV>)
    ensures
        files_sorted(s) <==> sorted_by(s, file_order()),
{
    let r = file_order();
    assert forall|i: int, j: int| 0 <= i < j < s.len() implies (file_le(s[i], s[j]) <==> r(
        s[i],
        s[j],
    )) by {
        assert(r(s[i], s[j]) == file_le(s[i], s[j]));
    }
}

/// Discovery order is a total order on source files.
pub proof fn lemma_file_order_total()
    ensures
        total_ordering(file_order()),
{
    let r = file_order();
    assert forall|x: SourceFileV| #[trigger] r(x, x) by {
        lemma_file_le_refl(x);
    }
    assert forall|x: SourceFileV, y: SourceFileV| #[trigger] r(x, y) && #[trigger] r(y, x)
        implies x == y by {
        if x.name == y.name {
            lemma_lex_le_antisym(x.content, y.content, 0);
            assert(x.content =~= y.content);
        } else {
            lemma_lex_le_antisym(x.name, y.name, 0);
            assert(false);
        }
    }
    assert forall|x: SourceFileV, y: SourceFileV| #[trigger] r(x, y) || #[trigger] r(y, x) by {
        lemma_file_le_connected(x, y);
    }
    assert forall|x: SourceFileV, y: SourceFileV, z: SourceFileV|
        #[trigger] r(x, y) && #[trigger] r(y, z) implies r(x, z) by {
        lemma_file_le_trans(x, y, z);
    }
}

/// Compares two source files in discovery order.
pub fn file_le_exec(a: &SourceFile, b: &SourceFile) -> (r: bool)
    ensures
        r == file_le(a@, b@),
{
    if str_eq(a.name.as_str(), b.name.as_str()) {
        lex_le_str(a.content.as_str(), b.content.as_str())
    } else {
        lex_le_str(a.name.as_str(), b.name.as_str())
    }
}

/// Sorts the discovered files into discovery order.  The result holds
/// exactly the given files.
pub fn sort_files(input: Vec<SourceFile>) -> (r: Vec<SourceFile>)
    ensures
        files_sorted(files_view(r@)),
        files_view(r@).to_multiset() == files_view(input@).to_multiset(),
{
    let ghost orig = files_view(input@).to_multiset();
    let mut rest = input;
    let mut out: Vec<SourceFile> = Vec::new();
    proof {
        broadcast use vstd::seq_lib::group_to_multiset_ensures;

        assert(files_view(out@) =~= Seq::<SourceFileV>::empty());
        assert(files_view(out@).to_multiset().add(files_view(rest@).to_multiset()) =~= orig);
    }
    while rest.len() > 0
        invariant
            files_view(out@).to_multiset().add(files_view(rest@).to_multiset()) == orig,
            files_sorted(files_view(out@)),
            forall|i: int, j: int|
                0 <= i < out@.len() && 0 <= j < rest@.len() ==> file_le(
                    #[trigger] files_view(out@)[i],
                    #[trigger] files_view(rest@)[j],
                ),
        decreases rest@.len(),
    {
        let mut m: usize = 0;
        let mut k: usize = 1;
        proof {
            lemma_file_le_refl(files_view(rest@)[0]);
        }
        while k < rest.len()
            invariant
                rest@.len() > 0,
                m < rest@.len(),
                1 <= k <= rest@.len(),
                forall|t: int|
                    0 <= t < k ==> file_le(
                        files_view(rest@)[m as int],
                        #[trigger] files_view(rest@)[t],
                    ),
            decreases rest@.len() - k,
        {
            let take = file_le_exec(&rest[k], &rest[m]);
            proof {
                if take {
                    lemma_file_le_refl(files_view(rest@)[k as int]);
                    assert forall|t: int| 0 <= t < k implies file_le(
                        files_view(rest@)[k as int],
                        #[trigger] files_view(rest@)[t],
                    ) by {
                        lemma_file_le_trans(
                            files_view(rest@)[k as int],
                            files_view(rest@)[m as int],
                            files_view(rest@)[t],
                        );
                    }
                } else {
                    lemma_file_le_connected(
                        files_view(rest@)[m as int],
                        files_view(rest@)[k as int],
                    );
                }
            }
            if take {
                m = k;
            }
            k += 1;
        }
        let ghost rest_pre = rest@;
        let ghost out_pre = out@;
        let x = rest.remove(m);
        out.push(x);
        proof {
            broadcast use vstd::seq_lib::group_to_multiset_ensures;

            assert(files_view(rest@) =~= files_view(rest_pre).remove(m as int));
            assert(files_view(out@) =~= files_view(out_pre).push(x@));
            assert(x@ == files_view(rest_pre)[m as int]);
            assert(files_view(rest_pre).remove(m as int).to_multiset() =~= files_view(
                rest_pre).to_multiset().remove(x@));
            assert(files_view(out@).to_multiset().add(files_view(rest@).to_multiset()) =~= orig);
            // every remaining file is at or after the extracted minimum
            assert forall|j: int| 0 <= j < rest@.len() implies file_le(
                x@,
                #[trigger] files_view(rest@)[j],
            ) by {
                if j < m {
                    assert(files_view(rest@)[j] == files_view(rest_pre)[j]);
                } else {
                    assert(files_view(rest@)[j] == files_view(rest_pre)[j + 1]);
                }
            }
        }
    }
    proof {
        broadcast use vstd::seq_lib::group_to_multiset_ensures;

        assert(files_view(rest@) =~= Seq::<SourceFileV>::empty());
        assert(files_view(out@).to_multiset().add(files_view(rest@).to_multiset()) =~= files_view(
            out@).to_multiset());
    }
    out
}

} // verus!
