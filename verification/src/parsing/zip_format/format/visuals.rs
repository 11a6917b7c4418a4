//! Picks the visible-light images out of an is2 archive: the JPEGs under
//! `Images/Main`.

use vstd::prelude::*;

use crate::parsing::zip_format::files::{Files, entries_map, entries_view, paths_unique};
use crate::text::{chars_of, ends_with, has_prefix, has_suffix, starts_with};

verus! {

pub const VISUALS_DIR: &'static str = "Images/Main";
pub const JPG_SUFFIX: &'static str = ".jpg";

/// What `str::to_lowercase` makes of these characters (Unicode lowercase
/// mapping).
pub uninterp spec fn lowercase(s: Seq<char>) -> Seq<char>;

/// Lowercases `s` with `str::to_lowercase`.
///
/// Claims: the result is `lowercase` of the characters; what the Unicode
/// mapping does to each character is left to the name.
#[verifier::external_body]
fn to_lowercase(s: &str) -> (r: String)
    ensures
        r@ == lowercase(s@),
{
    s.to_lowercase()
}

/// A path of a visible-light image: under `Images/Main`, ending in `.jpg`
/// in any case.
pub open spec fn is_visual_path(path: Seq<char>) -> bool {
    starts_with(path, VISUALS_DIR@) && ends_with(lowercase(path), JPG_SUFFIX@)
}

/// The set of visible-light image paths.
pub open spec fn visual_paths() -> Set<Seq<char>> {
    Set::new(|path: Seq<char>| is_visual_path(path))
}

/// Whether `path` is that of a visible-light image.
fn is_visual(path: &String) -> (r: bool)
    ensures
        r == is_visual_path(path@),
{
    let chars = chars_of(path.as_str());
    let dir = chars_of(VISUALS_DIR);
    if !has_prefix(&chars, &dir) {
        return false;
    }
    let lower = to_lowercase(path.as_str());
    let lower_chars = chars_of(lower.as_str());
    let suffix = chars_of(JPG_SUFFIX);
    has_suffix(&lower_chars, &suffix)
}

/// Moves the visible-light images out of `files` into a map of their own.
pub fn extract_visuals(files: &mut Files) -> (visuals: Files)
    ensures
        visuals@ == old(files)@.restrict(visual_paths()),
        final(files)@ == old(files)@.remove_keys(visual_paths()),
{
    let mut entries = files.take_entries();
    let ghost all = entries_view(entries@);
    let mut visuals = Files::new();
    let mut rest = Files::new();
    let n = entries.len();
    let mut i: usize = 0;
    proof {
        assert(all.take(0) =~= Seq::<(Seq<char>, Seq<u8>)>::empty());
        assert(all.skip(0) =~= all);
        assert(entries_map(all.take(0)).restrict(visual_paths()) =~= visuals@);
        assert(entries_map(all.take(0)).remove_keys(visual_paths()) =~= rest@);
    }
    while i < n
        invariant
            n == all.len(),
            i <= n,
            entries_view(entries@) == all.skip(i as int),
            entries@.len() == n - i,
            visuals@ == entries_map(all.take(i as int)).restrict(visual_paths()),
            rest@ == entries_map(all.take(i as int)).remove_keys(visual_paths()),
        decreases n - i,
    {
        let ghost remaining = entries@;
        assert(entries_view(remaining)[0] == all[i as int]);
        let (path, content) = entries.remove(0);
        proof {
            assert(entries@ =~= remaining.subrange(1, remaining.len() as int));
            assert forall|j: int| 0 <= j < entries@.len() implies #[trigger] entries_view(entries@)[j]
                == all.skip(i + 1)[j] by {
                assert(entries@[j] == remaining[j + 1]);
                assert(entries_view(remaining)[j + 1] == all.skip(i as int)[j + 1]);
            }
            assert(entries_view(entries@) =~= all.skip(i + 1));
            assert(all.take(i + 1).drop_last() =~= all.take(i as int));
            assert(all.take(i + 1).last() == (path@, content@));
        }
        let ghost before = entries_map(all.take(i as int));
        if is_visual(&path) {
            visuals.insert(path, content);
            proof {
                assert(visuals@ =~= before.insert(all[i as int].0, all[i as int].1).restrict(visual_paths()));
                assert(rest@ =~= before.insert(all[i as int].0, all[i as int].1).remove_keys(visual_paths()));
            }
        } else {
            rest.insert(path, content);
            proof {
                assert(visuals@ =~= before.insert(all[i as int].0, all[i as int].1).restrict(visual_paths()));
                assert(rest@ =~= before.insert(all[i as int].0, all[i as int].1).remove_keys(visual_paths()));
            }
        }
        i += 1;
    }
    proof {
        assert(all.take(n as int) =~= all);
    }
    *files = rest;
    visuals
}

/// The visible-light images and the files left behind split the files
/// between them: no path is in both, and together they are all the files,
/// each with its content.
pub proof fn lemma_visuals_partition(files: Map<Seq<char>, Seq<u8>>)
    ensures
        forall|path: Seq<char>|
            !(#[trigger] files.restrict(visual_paths()).contains_key(path) && files.remove_keys(
                visual_paths(),
            ).contains_key(path)),
        files.restrict(visual_paths()).union_prefer_right(files.remove_keys(visual_paths())) == files,
{
    assert(files.restrict(visual_paths()).union_prefer_right(files.remove_keys(visual_paths())) =~= files);
}

} // verus!
