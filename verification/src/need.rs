//! Need analysis: which shortcuts require a provider search.
//!
//! A shortcut needs a search when its name is non-empty (a malformed-entry
//! guard) and at least one of its three canonical image files is absent from
//! the user's known images.  When the result is empty the caller has nothing
//! to do, and in particular no provider call is owed.

use vstd::prelude::*;
use crate::images::{spec_file_name, ImageType};
use crate::shortcut::{Shortcut, ShortcutModel};
use crate::text::{seq_has, vec_has_string};

verus! {

/// Whether a shortcut must be searched for: non-empty name, and at least
/// one of the three canonical images is absent.
pub open spec fn needs_search(s: ShortcutModel, known: Seq<Seq<char>>) -> bool {
    s.app_name.len() > 0 && (!seq_has(known, spec_file_name(ImageType::Hero, s.app_id))
        || !seq_has(known, spec_file_name(ImageType::Grid, s.app_id))
        || !seq_has(known, spec_file_name(ImageType::Logo, s.app_id)))
}

/// The search-needed subset of `shortcuts`, in input order.
pub open spec fn spec_needing(shortcuts: Seq<ShortcutModel>, known: Seq<Seq<char>>) -> Seq<
    ShortcutModel,
>
    decreases shortcuts.len(),
{
    if shortcuts.len() == 0 {
        Seq::empty()
    } else {
        let rest = spec_needing(shortcuts.drop_last(), known);
        if needs_search(shortcuts.last(), known) {
            rest.push(shortcuts.last())
        } else {
            rest
        }
    }
}

/// Every member of the search-needed subset needs a search and comes
/// from the input.
pub proof fn lemma_needing_members(shortcuts: Seq<ShortcutModel>, known: Seq<Seq<char>>)
    ensures
        forall|i: int|
            0 <= i < spec_needing(shortcuts, known).len() ==> needs_search(
                #[trigger] spec_needing(shortcuts, known)[i],
                known,
            ) && shortcuts.contains(spec_needing(shortcuts, known)[i]),
    decreases shortcuts.len(),
{
    if shortcuts.len() > 0 {
        lemma_needing_members(shortcuts.drop_last(), known);
        let rest = spec_needing(shortcuts.drop_last(), known);
        assert forall|i: int|
            0 <= i < spec_needing(shortcuts, known).len() implies needs_search(
            #[trigger] spec_needing(shortcuts, known)[i],
            known,
        ) && shortcuts.contains(spec_needing(shortcuts, known)[i]) by {
            if i < rest.len() {
                assert(spec_needing(shortcuts, known)[i] == rest[i]);
                let j = choose|j: int|
                    0 <= j < shortcuts.drop_last().len() && shortcuts.drop_last()[j] == rest[i];
                assert(shortcuts[j] == rest[i]);
            } else {
                assert(spec_needing(shortcuts, known)[i] == shortcuts.last());
                assert(shortcuts[shortcuts.len() - 1] == shortcuts.last());
            }
        }
    }
}

/// Every input shortcut that needs a search is kept.
pub proof fn lemma_needing_keeps(shortcuts: Seq<ShortcutModel>, known: Seq<Seq<char>>, j: int)
    requires
        0 <= j < shortcuts.len(),
        needs_search(shortcuts[j], known),
    ensures
        spec_needing(shortcuts, known).contains(shortcuts[j]),
    decreases shortcuts.len(),
{
    let out = spec_needing(shortcuts, known);
    if j == shortcuts.len() - 1 {
        assert(out[out.len() - 1] == shortcuts[j]);
    } else {
        assert(shortcuts.drop_last()[j] == shortcuts[j]);
        lemma_needing_keeps(shortcuts.drop_last(), known, j);
        let rest = spec_needing(shortcuts.drop_last(), known);
        let i = choose|i: int| 0 <= i < rest.len() && rest[i] == shortcuts[j];
        assert(out[i] == shortcuts[j]);
    }
}

/// Law: a shortcut all three of whose canonical filenames are already
/// among the known images is excluded from the search-needed set.
pub proof fn lemma_covered_shortcut_excluded(
    shortcuts: Seq<ShortcutModel>,
    known: Seq<Seq<char>>,
    s: ShortcutModel,
)
    requires
        seq_has(known, spec_file_name(ImageType::Hero, s.app_id)),
        seq_has(known, spec_file_name(ImageType::Grid, s.app_id)),
        seq_has(known, spec_file_name(ImageType::Logo, s.app_id)),
    ensures
        !spec_needing(shortcuts, known).contains(s),
{
    lemma_needing_members(shortcuts, known);
}

/// Law: a shortcut with an empty name is excluded from the search-needed
/// set, whatever the known images hold.
pub proof fn lemma_empty_name_excluded(
    shortcuts: Seq<ShortcutModel>,
    known: Seq<Seq<char>>,
    s: ShortcutModel,
)
    requires
        s.app_name.len() == 0,
    ensures
        !spec_needing(shortcuts, known).contains(s),
{
    lemma_needing_members(shortcuts, known);
}

/// Law: the search plan is empty exactly when no shortcut needs a search.
/// The orchestrator issues one provider call per plan entry, so an empty
/// plan means zero provider search calls.
pub proof fn lemma_empty_plan_no_calls(shortcuts: Seq<ShortcutModel>, known: Seq<Seq<char>>)
    ensures
        spec_needing(shortcuts, known).len() == 0 <==> forall|j: int|
            0 <= j < shortcuts.len() ==> !needs_search(#[trigger] shortcuts[j], known),
    decreases shortcuts.len(),
{
    if spec_needing(shortcuts, known).len() == 0 {
        assert forall|j: int| 0 <= j < shortcuts.len() implies !needs_search(
            #[trigger] shortcuts[j],
            known,
        ) by {
            if needs_search(shortcuts[j], known) {
                lemma_needing_keeps(shortcuts, known, j);
            }
        }
    } else {
        lemma_needing_members(shortcuts, known);
        let out = spec_needing(shortcuts, known);
        assert(needs_search(out[0], known) && shortcuts.contains(out[0]));
        let j = choose|j: int| 0 <= j < shortcuts.len() && shortcuts[j] == out[0];
        assert(needs_search(shortcuts[j], known));
    }
}

/// Decides whether one shortcut must be searched for.
pub fn shortcut_needs_search(s: &Shortcut, known: &Vec<String>) -> (b: bool)
    ensures
        b == needs_search(s@, known.deep_view()),
{
    if s.app_name.as_str().is_empty() {
        return false;
    }
    let hero = ImageType::Hero.file_name(s.app_id);
    let grid = ImageType::Grid.file_name(s.app_id);
    let logo = ImageType::Logo.file_name(s.app_id);
    let all_known = vec_has_string(known, &hero) && vec_has_string(known, &grid)
        && vec_has_string(known, &logo);
    !all_known
}

/// The subset of shortcuts that require a provider search, in input order:
/// non-empty name and at least one canonical image missing.  An empty
/// result means the user's sync is already complete and no provider call
/// is owed.
pub fn shortcuts_needing_search(shortcuts: &Vec<Shortcut>, known: &Vec<String>) -> (r: Vec<
    Shortcut,
>)
    ensures
        r.deep_view() == spec_needing(shortcuts.deep_view(), known.deep_view()),
{
    let mut r: Vec<Shortcut> = Vec::new();
    let n = shortcuts.len();
    for i in 0..n
        invariant
            n == shortcuts@.len(),
            r.deep_view() == spec_needing(
                shortcuts.deep_view().subrange(0, i as int),
                known.deep_view(),
            ),
    {
        let ghost pre = shortcuts.deep_view().subrange(0, i as int);
        let ghost post = shortcuts.deep_view().subrange(0, i + 1);
        if shortcut_needs_search(&shortcuts[i], known) {
            let ghost old_r = r.deep_view();
            r.push(shortcuts[i].clone());
            proof {
                assert(r.deep_view() =~= old_r.push(shortcuts.deep_view()[i as int]));
            }
        }
        proof {
            assert(post.drop_last() =~= pre);
            assert(post.last() == shortcuts.deep_view()[i as int]);
        }
    }
    proof {
        assert(shortcuts.deep_view().subrange(0, n as int) =~= shortcuts.deep_view());
    }
    r
}

} // verus!
