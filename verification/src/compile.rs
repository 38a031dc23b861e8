//! The style driver: one pipeline run per style.  Discovered files are
//! filtered to icon sources, sorted into discovery order, extracted and
//! named, checked for identifier collisions, and rendered into the
//! style's generated source file.

use vstd::prelude::*;
use vstd::multiset::Multiset;
use vstd::seq_lib::lemma_sorted_unique;
use crate::{files_view, CompileError, SourceFile, SourceFileV};
use crate::extract::{extract_spec, extract_icon, icons_view, Icon, IconV};
use crate::emit::{render_icons_file, render_spec};
use crate::name::{to_upper_camel_case, upper_camel};
use crate::order::{file_order, lemma_file_order_total, lemma_files_sorted_is_sorted_by,
    sort_files};
use crate::text::str_eq;

verus! {

/// The source subdirectory of one style, under the icon asset root.
pub fn style_to_dir(style: &str) -> (r: &str)
    requires
        style@ == "outline"@ || style@ == "solid"@ || style@ == "mini"@,
    ensures
        style@ == "outline"@ ==> r@ == "24/outline"@,
        style@ == "solid"@ ==> r@ == "24/solid"@,
        style@ == "mini"@ ==> r@ == "20/solid"@,
{
    proof {
        broadcast use vstd::string::group_string_axioms;

        reveal_strlit("outline");
        reveal_strlit("solid");
        reveal_strlit("mini");
        assert("outline"@.len() == 7);
        assert("solid"@.len() == 5);
        assert("mini"@.len() == 4);
        assert("outline"@ != "solid"@);
        assert("outline"@ != "mini"@);
        assert("solid"@ != "mini"@);
    }
    if str_eq(style, "outline") {
        "24/outline"
    } else if str_eq(style, "solid") {
        "24/solid"
    } else {
        "20/solid"
    }
}

/// The name carries the icon source extension.
pub open spec fn ends_svg(name: Seq<char>) -> bool {
    name.len() >= 4 && name.subrange(name.len() - 4, name.len() as int) == ".svg"@
}

/// The name without its icon source extension.
pub open spec fn base_name(name: Seq<char>) -> Seq<char> {
    name.subrange(0, name.len() - 4)
}

/// Whether the file name ends in the icon source extension.
pub fn ends_svg_exec(name: &str) -> (r: bool)
    ensures
        r == ends_svg(name@),
{
    proof {
        reveal_strlit(".svg");
    }
    let n = name.unicode_len();
    if n < 4 {
        return false;
    }
    let r = name.get_char(n - 4) == '.' && name.get_char(n - 3) == 's' && name.get_char(n - 2)
        == 'v' && name.get_char(n - 1) == 'g';
    proof {
        if r {
            assert(name@.subrange(n - 4, n as int) =~= ".svg"@);
        } else {
            assert(name@.subrange(n - 4, n as int) != ".svg"@) by {
                if name@.subrange(n - 4, n as int) == ".svg"@ {
                    assert(name@.subrange(n - 4, n as int)[0] == '.');
                    assert(name@.subrange(n - 4, n as int)[1] == 's');
                    assert(name@.subrange(n - 4, n as int)[2] == 'v');
                    assert(name@.subrange(n - 4, n as int)[3] == 'g');
                }
            }
        }
    }
    r
}

/// The discovered files that are icon sources, in discovery report order.
pub open spec fn keep_svgs(files: Seq<SourceFileV>, i: int) -> Seq<SourceFileV>
    decreases files.len() - i,
{
    if i < 0 || i >= files.len() {
        Seq::empty()
    } else if ends_svg(files[i].name) {
        seq![files[i]] + keep_svgs(files, i + 1)
    } else {
        keep_svgs(files, i + 1)
    }
}

/// Every kept file carries the icon source extension.
proof fn lemma_keep_svgs_all(files: Seq<SourceFileV>, i: int)
    ensures
        forall|k: int|
            0 <= k < keep_svgs(files, i).len() ==> ends_svg(#[trigger] keep_svgs(files, i)[k].name),
    decreases files.len() - i,
{
    if 0 <= i < files.len() {
        lemma_keep_svgs_all(files, i + 1);
        assert forall|k: int| 0 <= k < keep_svgs(files, i).len() implies ends_svg(
            #[trigger] keep_svgs(files, i)[k].name,
        ) by {
            if ends_svg(files[i].name) {
                if k == 0 {
                    assert(keep_svgs(files, i)[0] == files[i]);
                } else {
                    assert(keep_svgs(files, i)[k] == keep_svgs(files, i + 1)[k - 1]);
                }
            } else {
                assert(keep_svgs(files, i)[k] == keep_svgs(files, i + 1)[k]);
            }
        }
    }
}

/// How often each file occurs among the kept ones: as often as in the
/// input when it is an icon source, never otherwise.
proof fn lemma_keep_svgs_count(files: Seq<SourceFileV>, i: int, x: SourceFileV)
    requires
        0 <= i <= files.len(),
    ensures
        keep_svgs(files, i).to_multiset().count(x) == (if ends_svg(x.name) {
            files.subrange(i, files.len() as int).to_multiset().count(x)
        } else {
            0
        }),
    decreases files.len() - i,
{
    broadcast use vstd::seq_lib::group_to_multiset_ensures;

    if i >= files.len() {
        assert(keep_svgs(files, i) =~= Seq::<SourceFileV>::empty());
        assert(files.subrange(i, files.len() as int) =~= Seq::<SourceFileV>::empty());
        assert(Seq::<SourceFileV>::empty().to_multiset() =~= Multiset::<SourceFileV>::empty());
    } else {
        lemma_keep_svgs_count(files, i + 1, x);
        let rest = files.subrange(i + 1, files.len() as int);
        assert(files.subrange(i, files.len() as int) =~= rest.insert(0, files[i]));
        assert(rest.insert(0, files[i]).to_multiset() =~= rest.to_multiset().insert(files[i]))
            by {
            assert(rest.insert(0, files[i]) =~= seq![files[i]] + rest);
            vstd::seq_lib::lemma_multiset_commutative(seq![files[i]], rest);
            assert(rest + seq![files[i]] =~= rest.push(files[i]));
        }
        if ends_svg(files[i].name) {
            assert(keep_svgs(files, i) =~= seq![files[i]] + keep_svgs(files, i + 1));
            assert((seq![files[i]] + keep_svgs(files, i + 1)).to_multiset() =~= keep_svgs(
                files,
                i + 1,
            ).to_multiset().insert(files[i])) by {
                vstd::seq_lib::lemma_multiset_commutative(seq![files[i]], keep_svgs(files, i + 1));
                assert(keep_svgs(files, i + 1) + seq![files[i]] =~= keep_svgs(
                    files,
                    i + 1,
                ).push(files[i]));
            }
        }
    }
}

/// The icon records of the sorted sources from position `i` on: each file's
/// geometry under the identifier normalized from its base name, or the
/// first extraction defect in file order.
pub open spec fn icons_of(files: Seq<SourceFileV>, i: int) -> Result<Seq<IconV>, CompileError>
    decreases files.len() - i,
{
    if i < 0 || i >= files.len() {
        Ok(Seq::empty())
    } else {
        match extract_spec(files[i].content) {
            Err(e) => Err(e),
            Ok(g) => match icons_of(files, i + 1) {
                Err(e) => Err(e),
                Ok(rest) => Ok(
                    seq![
                        IconV {
                            name: upper_camel(base_name(files[i].name)),
                            viewbox: g.viewbox,
                            path: g.path,
                            clip_rule: g.clip_rule,
                            fill_rule: g.fill_rule,
                        },
                    ] + rest,
                ),
            },
        }
    }
}

/// The kept files in discovery order.
pub open spec fn sorted_svgs(files: Seq<SourceFileV>) -> Seq<SourceFileV> {
    keep_svgs(files, 0).sort_by(file_order())
}

/// What building a style's icon list yields: the records of the kept
/// files, in discovery order, or the first extraction defect.
pub open spec fn make_icons_spec(files: Seq<SourceFileV>) -> Result<Seq<IconV>, CompileError> {
    icons_of(sorted_svgs(files), 0)
}

/// No two icons share an identifier.
pub open spec fn names_unique(icons: Seq<IconV>) -> bool {
    forall|i: int, j: int|
        0 <= i < j < icons.len() ==> (#[trigger] icons[i]).name != (#[trigger] icons[j]).name
}

fn check_unique(icons: &Vec<Icon>) -> (r: bool)
    ensures
        r == names_unique(icons_view(icons@)),
{
    let ghost iv = icons_view(icons@);
    let mut i: usize = 0;
    while i < icons.len()
        invariant
            iv == icons_view(icons@),
            i <= icons@.len(),
            forall|p: int, q: int| 0 <= p < q < i ==> (#[trigger] iv[p]).name != (#[trigger] iv[q]).name,
        decreases icons@.len() - i,
    {
        let mut j: usize = 0;
        while j < i
            invariant
                iv == icons_view(icons@),
                j <= i < icons@.len(),
                forall|q: int| 0 <= q < j ==> (#[trigger] iv[q]).name != iv[i as int].name,
            decreases i - j,
        {
            if str_eq((&icons[j]).name.as_str(), (&icons[i]).name.as_str()) {
                proof {
                    assert(iv[j as int].name == iv[i as int].name);
                    assert(!names_unique(iv));
                }
                return false;
            }
            j += 1;
        }
        i += 1;
    }
    true
}

/// Builds one style's icon list from its discovered files: keeps the icon
/// sources, sorts them into discovery order, and extracts each one under
/// its normalized identifier.  Fails with the first extraction defect, in
/// that order.
pub fn make_icons(files: Vec<SourceFile>) -> (r: Result<Vec<Icon>, CompileError>)
    ensures
        (match make_icons_spec(files_view(files@)) {
            Ok(icons) => r matches Ok(v) && icons_view(v@) == icons,
            Err(e) => r matches Err(e2) && e2 == e,
        }),
{
    let ghost fv = files_view(files@);
    let mut svgs: Vec<SourceFile> = Vec::new();
    let mut i: usize = 0;
    proof {
        assert(files_view(svgs@) =~= Seq::<SourceFileV>::empty());
        assert(files_view(svgs@) + keep_svgs(fv, 0) =~= keep_svgs(fv, 0));
    }
    while i < files.len()
        invariant
            fv == files_view(files@),
            i <= files@.len(),
            files_view(svgs@) + keep_svgs(fv, i as int) == keep_svgs(fv, 0),
        decreases files@.len() - i,
    {
        let ghost pre = files_view(svgs@);
        if ends_svg_exec((&files[i]).name.as_str()) {
            svgs.push(files[i].clone());
            proof {
                assert(files_view(svgs@) =~= pre + seq![fv[i as int]]);
                assert(files_view(svgs@) + keep_svgs(fv, i + 1) =~= pre + keep_svgs(
                    fv,
                    i as int,
                ));
            }
        }
        i += 1;
    }
    proof {
        assert(files_view(svgs@) + keep_svgs(fv, files@.len() as int) =~= files_view(svgs@));
    }
    let sorted = sort_files(svgs);
    let ghost sv = files_view(sorted@);
    proof {
        lemma_file_order_total();
        lemma_files_sorted_is_sorted_by(sv);
        keep_svgs(fv, 0).lemma_sort_by_ensures(file_order());
        lemma_sorted_unique(sv, sorted_svgs(fv), file_order());
        assert(sv == sorted_svgs(fv));
        // every sorted file still carries the extension
        lemma_keep_svgs_all(fv, 0);
        broadcast use vstd::seq_lib::group_to_multiset_ensures;

        assert forall|t: int| 0 <= t < sv.len() implies ends_svg(#[trigger] sv[t].name) by {
            assert(sv.to_multiset().count(sv[t]) > 0);
            assert(keep_svgs(fv, 0).to_multiset().count(sv[t]) > 0);
            assert(keep_svgs(fv, 0).contains(sv[t]));
            let k = choose|k: int|
                0 <= k < keep_svgs(fv, 0).len() && keep_svgs(fv, 0)[k] == sv[t];
        }
    }
    let mut icons: Vec<Icon> = Vec::new();
    let mut i: usize = 0;
    proof {
        assert(icons_view(icons@) =~= Seq::<IconV>::empty());
        if icons_of(sv, 0) is Ok {
            assert(icons_view(icons@) + icons_of(sv, 0)->Ok_0 =~= icons_of(sv, 0)->Ok_0);
        }
    }
    while i < sorted.len()
        invariant
            sv == files_view(sorted@),
            sv == sorted_svgs(files_view(files@)),
            i <= sorted@.len(),
            forall|t: int| 0 <= t < sv.len() ==> ends_svg(#[trigger] sv[t].name),
            (icons_of(sv, i as int) matches Ok(rest) ==> icons_of(sv, 0) == Ok::<
                Seq<IconV>,
                CompileError,
            >(icons_view(icons@) + rest)),
            (icons_of(sv, i as int) matches Err(e) ==> icons_of(sv, 0) == Err::<
                Seq<IconV>,
                CompileError,
            >(e)),
        decreases sorted@.len() - i,
    {
        let file = &sorted[i];
        let n = file.name.unicode_len();
        let base = file.name.as_str().substring_char(0, n - 4);
        let ident = to_upper_camel_case(base);
        let ghost pre = icons_view(icons@);
        match extract_icon(ident, file.content.as_str()) {
            Err(e) => {
                proof {
                    assert(icons_of(sv, i as int) == Err::<Seq<IconV>, CompileError>(e));
                }
                return Err(e);
            },
            Ok(icon) => {
                proof {
                    assert(icon@.name == upper_camel(base_name(sv[i as int].name)));
                }
                icons.push(icon);
                proof {
                    assert(icons_view(icons@) =~= pre + seq![icon@]);
                    if icons_of(sv, i + 1) is Ok {
                        assert(icons_view(icons@) + icons_of(sv, i + 1)->Ok_0 =~= pre
                            + icons_of(sv, i as int)->Ok_0);
                    }
                }
            },
        }
        i += 1;
    }
    proof {
        assert(icons_view(icons@) + icons_of(sv, sorted@.len() as int)->Ok_0 =~= icons_view(
            icons@));
    }
    Ok(icons)
}

/// What one whole style run yields: the rendered file for the style's
/// icons, or the first fatal defect — an extraction error first, then an
/// empty style, then an identifier collision.
pub open spec fn compile_spec(files: Seq<SourceFileV>) -> Result<Seq<char>, CompileError> {
    match make_icons_spec(files) {
        Err(e) => Err(e),
        Ok(icons) => if icons.len() == 0 {
            Err(CompileError::NoIcons)
        } else if !names_unique(icons) {
            Err(CompileError::DuplicateName)
        } else {
            Ok(render_spec(icons))
        },
    }
}

/// Compiles one style: from its discovered source files to the text of
/// its generated code file.
pub fn compile_style(files: Vec<SourceFile>) -> (r: Result<String, CompileError>)
    ensures
        (match compile_spec(files_view(files@)) {
            Ok(text) => r matches Ok(s) && s@ == text,
            Err(e) => r matches Err(e2) && e2 == e,
        }),
{
    let icons = match make_icons(files) {
        Err(e) => {
            return Err(e);
        },
        Ok(v) => v,
    };
    if icons.len() == 0 {
        return Err(CompileError::NoIcons);
    }
    if !check_unique(&icons) {
        return Err(CompileError::DuplicateName);
    }
    Ok(render_icons_file(&icons))
}

/// Determinism: the compiled output is a function of the set of
/// discovered files alone.  Two runs over the same files give the same
/// result, in whatever order the directory walk reported them.
pub proof fn lemma_determinism(a: Seq<SourceFileV>, b: Seq<SourceFileV>)
    requires
        a.to_multiset() == b.to_multiset(),
    ensures
        compile_spec(a) == compile_spec(b),
{
    assert(keep_svgs(a, 0).to_multiset() =~= keep_svgs(b, 0).to_multiset()) by {
        assert forall|x: SourceFileV|
            keep_svgs(a, 0).to_multiset().count(x) == keep_svgs(b, 0).to_multiset().count(x) by {
            lemma_keep_svgs_count(a, 0, x);
            lemma_keep_svgs_count(b, 0, x);
            assert(a.subrange(0, a.len() as int) =~= a);
            assert(b.subrange(0, b.len() as int) =~= b);
        }
    }
    lemma_file_order_total();
    keep_svgs(a, 0).lemma_sort_by_ensures(file_order());
    keep_svgs(b, 0).lemma_sort_by_ensures(file_order());
    lemma_sorted_unique(sorted_svgs(a), sorted_svgs(b), file_order());
    assert(sorted_svgs(a) == sorted_svgs(b));
}

/// An identifier collision is flagged: when every source extracts but two
/// icons share a name, the run fails with the collision error.
pub proof fn lemma_duplicate_detected(files: Seq<SourceFileV>, icons: Seq<IconV>, i: int, j: int)
    requires
        make_icons_spec(files) == Ok::<Seq<IconV>, CompileError>(icons),
        0 <= i < j < icons.len(),
        icons[i].name == icons[j].name,
    ensures
        compile_spec(files) == Err::<Seq<char>, CompileError>(CompileError::DuplicateName),
{
    assert(!names_unique(icons));
}

} // verus!
