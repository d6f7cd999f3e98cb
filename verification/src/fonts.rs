//! Which installed font shows Chinese, Japanese and Korean text.

use crate::text;
use crate::text::{contains, split_lines, trim, trim_trailing};
use vstd::prelude::*;

verus! {

/// The path in a line of `fc-list`'s output, which has a colon behind it.
pub open spec fn path_in(line: Seq<char>) -> Seq<char> {
    text::trimmed(text::without_trailing(text::trimmed(line), ':'))
}

/// The paths in `fc-list`'s output.
pub open spec fn paths_in(output: Seq<char>) -> Seq<Seq<char>> {
    text::non_empty_parts(text::text_lines(output).map_values(|l: Seq<char>| path_in(l)))
}

/// The first of the paths that holds all the given words.
pub open spec fn first_with(paths: Seq<Seq<char>>, words: Seq<Seq<char>>) -> Option<Seq<char>>
    decreases paths.len(),
{
    if paths.len() == 0 {
        None
    } else if forall|k: int|
        0 <= k < words.len() ==> text::has_part(paths[0], #[trigger] words[k]) {
        Some(paths[0])
    } else {
        first_with(paths.skip(1), words)
    }
}

/// The font to use: a regular sans serif one, else a sans serif one, else
/// the first.
pub open spec fn best_font(paths: Seq<Seq<char>>) -> Option<Seq<char>> {
    let regular = first_with(paths, seq!["Sans"@, "Regular"@]);
    let sans = first_with(paths, seq!["Sans"@]);
    if regular is Some {
        regular
    } else if sans is Some {
        sans
    } else if paths.len() > 0 {
        Some(paths[0])
    } else {
        None
    }
}

fn holds_all(path: &str, words: &Vec<String>) -> (b: bool)
    ensures
        b == (forall|k: int|
            0 <= k < text::texts(words@).len() ==> text::has_part(
                path@,
                #[trigger] text::texts(words@)[k],
            )),
{
    let ghost w = text::texts(words@);
    let mut i: usize = 0;
    while i < words.len()
        invariant
            i <= words@.len(),
            w == text::texts(words@),
            forall|k: int| 0 <= k < i ==> text::has_part(path@, #[trigger] w[k]),
        decreases words@.len() - i,
    {
        if !contains(path, words[i].as_str()) {
            assert(!text::has_part(path@, w[i as int]));
            return false;
        }
        assert(w[i as int] == words@[i as int]@);
        i += 1;
    }
    true
}

fn find_with(paths: &Vec<String>, words: &Vec<String>) -> (r: Option<String>)
    ensures
        text::opt_text(r) == first_with(text::texts(paths@), text::texts(words@)),
{
    let ghost all = text::texts(paths@);
    let ghost w = text::texts(words@);
    let mut i: usize = 0;
    assert(all.skip(0) =~= all);
    while i < paths.len()
        invariant
            i <= paths@.len(),
            all == text::texts(paths@),
            w == text::texts(words@),
            first_with(all, w) == first_with(all.skip(i as int), w),
        decreases paths@.len() - i,
    {
        proof {
            assert(all.skip(i as int).skip(1) =~= all.skip(i + 1));
            assert(all.skip(i as int)[0] == paths@[i as int]@);
        }
        if holds_all(paths[i].as_str(), words) {
            return Some(paths[i].clone());
        }
        i += 1;
    }
    None
}

fn candidates(output: &str) -> (r: Vec<String>)
    ensures
        text::texts(r@) == paths_in(output@),
{
    let lines = split_lines(output);
    let mut paths: Vec<String> = Vec::new();
    let mut i: usize = 0;
    while i < lines.len()
        invariant
            i <= lines@.len(),
            paths@.len() == i,
            forall|k: int| 0 <= k < i ==> (#[trigger] paths@[k])@ == path_in(lines@[k]@),
        decreases lines@.len() - i,
    {
        let inner = trim(lines[i].as_str());
        let bare = trim_trailing(inner.as_str(), ':');
        paths.push(trim(bare.as_str()));
        i += 1;
    }
    assert(text::texts(paths@) =~= text::text_lines(output@).map_values(
        |l: Seq<char>| path_in(l),
    )) by {
        assert(text::texts(lines@) == text::text_lines(output@));
    }
    text::keep_non_empty(&paths)
}

/// The font file to use, from the output of `fc-list`.
pub fn find_cjk_font_path(output: &str) -> (r: Option<String>)
    ensures
        text::opt_text(r) == best_font(paths_in(output@)),
{
    let paths = candidates(output);
    let mut words: Vec<String> = Vec::new();
    words.push("Sans".to_owned());
    assert(text::texts(words@) =~= seq!["Sans"@]);
    let sans = find_with(&paths, &words);
    words.push("Regular".to_owned());
    assert(text::texts(words@) =~= seq!["Sans"@, "Regular"@]);
    let regular = find_with(&paths, &words);
    if regular.is_some() {
        return regular;
    }
    if sans.is_some() {
        return sans;
    }
    if paths.len() > 0 {
        let first = paths[0].clone();
        assert(text::texts(paths@)[0] == first@);
        Some(first)
    } else {
        assert(text::texts(paths@).len() == 0);
        None
    }
}

// ---------------------------------------------------------------------
// Laws
// ---------------------------------------------------------------------

/// The paths are the lines of the output without the white space around them
/// and the colons behind them, in their order, without those that are then
/// empty.
pub proof fn law_paths(output: Seq<char>)
    ensures
        paths_in(output) == text::text_lines(output).map_values(
            |l: Seq<char>|
                text::trimmed(text::without_trailing(text::trimmed(l), ':')),
        ).filter(|p: Seq<char>| p.len() > 0),
{
    assert(text::text_lines(output).map_values(
        |l: Seq<char>| text::trimmed(text::without_trailing(text::trimmed(l), ':')),
    ) =~= text::text_lines(output).map_values(|l: Seq<char>| path_in(l)));
}

proof fn lemma_first_with(paths: Seq<Seq<char>>, words: Seq<Seq<char>>)
    ensures
        first_with(paths, words) matches Some(p) ==> exists|k: int|
            0 <= k < paths.len() && p == #[trigger] paths[k] && holds(paths[k], words) && forall|j:
                int|
                0 <= j < k ==> !holds(#[trigger] paths[j], words),
        first_with(paths, words) is None ==> forall|k: int|
            0 <= k < paths.len() ==> !holds(#[trigger] paths[k], words),
    decreases paths.len(),
{
    if paths.len() > 0 && !holds(paths[0], words) {
        let rest = paths.skip(1);
        lemma_first_with(rest, words);
        if let Some(p) = first_with(rest, words) {
            let k = choose|k: int|
                0 <= k < rest.len() && p == #[trigger] rest[k] && holds(rest[k], words) && forall|
                    j: int,
                |
                    0 <= j < k ==> !holds(#[trigger] rest[j], words);
            assert(paths[k + 1] == rest[k]);
            assert forall|j: int| 0 <= j < k + 1 implies !holds(#[trigger] paths[j], words) by {
                if j > 0 {
                    assert(rest[j - 1] == paths[j]);
                }
            }
        } else {
            assert forall|k: int| 0 <= k < paths.len() implies !holds(
                #[trigger] paths[k],
                words,
            ) by {
                if k > 0 {
                    assert(rest[k - 1] == paths[k]);
                }
            }
        }
    } else if paths.len() > 0 {
        assert(holds(paths[0], words));
        assert(first_with(paths, words) == Some(paths[0]));
    }
}

/// Whether a path holds all the words.
spec fn holds(path: Seq<char>, words: Seq<Seq<char>>) -> bool {
    forall|k: int| 0 <= k < words.len() ==> text::has_part(path, #[trigger] words[k])
}

/// The font that is picked is the first regular sans serif one; where there
/// is none, the first sans serif one; and where there is none either, the
/// first. Nothing is picked only if there is no path.
pub proof fn law_picked_font(output: &str, r: Option<String>)
    requires
        call_ensures(find_cjk_font_path, (output,), r),
    ensures
        ({
            let paths = paths_in(output@);
            &&& r is None <==> paths.len() == 0
            &&& r matches Some(f) ==> exists|k: int|
                0 <= k < paths.len() && f@ == #[trigger] paths[k] && (if text::has_part(
                    paths[k],
                    "Sans"@,
                ) && text::has_part(paths[k], "Regular"@) {
                    forall|j: int|
                        0 <= j < k ==> !(text::has_part(#[trigger] paths[j], "Sans"@)
                            && text::has_part(paths[j], "Regular"@))
                } else if text::has_part(paths[k], "Sans"@) {
                    &&& forall|j: int|
                        0 <= j < paths.len() ==> !(text::has_part(#[trigger] paths[j], "Sans"@)
                            && text::has_part(paths[j], "Regular"@))
                    &&& forall|j: int|
                        0 <= j < k ==> !text::has_part(#[trigger] paths[j], "Sans"@)
                } else {
                    &&& k == 0
                    &&& forall|j: int|
                        0 <= j < paths.len() ==> !text::has_part(#[trigger] paths[j], "Sans"@)
                })
        }),
{
    let paths = paths_in(output@);
    let one = seq!["Sans"@];
    let two = seq!["Sans"@, "Regular"@];
    lemma_first_with(paths, one);
    lemma_first_with(paths, two);
    assert forall|j: int| 0 <= j < paths.len() implies holds(#[trigger] paths[j], one)
        == text::has_part(paths[j], "Sans"@) && holds(paths[j], two) == (text::has_part(
        paths[j],
        "Sans"@,
    ) && text::has_part(paths[j], "Regular"@)) by {
        assert(one[0] == "Sans"@);
        assert(two[0] == "Sans"@ && two[1] == "Regular"@);
        assert forall|k: int| 0 <= k < one.len() implies one[k] == "Sans"@ by {}
        assert forall|k: int| 0 <= k < two.len() implies two[k] == "Sans"@ || two[k]
            == "Regular"@ by {}
    }
    if let Some(f) = r {
        assert(best_font(paths) == Some(f@));
        if let Some(p) = first_with(paths, two) {
            let k = choose|k: int|
                0 <= k < paths.len() && p == #[trigger] paths[k] && holds(paths[k], two) && forall|
                    j: int,
                |
                    0 <= j < k ==> !holds(#[trigger] paths[j], two);
            assert(f@ == paths[k]);
        } else if let Some(p) = first_with(paths, one) {
            let k = choose|k: int|
                0 <= k < paths.len() && p == #[trigger] paths[k] && holds(paths[k], one) && forall|
                    j: int,
                |
                    0 <= j < k ==> !holds(#[trigger] paths[j], one);
            assert(f@ == paths[k]);
        } else {
            assert(f@ == paths[0]);
        }
    }
}

} // verus!
