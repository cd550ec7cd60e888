//! The image query batcher.
//!
//! For one image kind at a time: pick the shortcuts that have a resolved
//! search id and still miss that kind's canonical file, collect their search
//! ids in the same order for one bulk provider call, and pair the provider's
//! positional response list back with the request list in lock-step.  A
//! response entry that failed or is empty consumes its request entry and
//! yields nothing, so one bad entry never shifts its siblings.

use vstd::prelude::*;
use vstd::string::*;
use crate::cache::SearchCache;
use crate::images::{spec_file_name, ImageType};
use crate::shortcut::{Shortcut, ShortcutModel};
use crate::text::{join_path, join_path_spec, seq_has, vec_has_string};

verus! {

/// A resolved transfer, consumed exactly once by the download phase:
/// the destination file and the source URL.
pub struct ToDownload {
    pub path: String,
    pub url: String,
}

/// The mathematical content of a [`ToDownload`].
pub struct ToDownloadModel {
    pub path: Seq<char>,
    pub url: Seq<char>,
}

impl View for ToDownload {
    type V = ToDownloadModel;

    open spec fn view(&self) -> ToDownloadModel {
        ToDownloadModel { path: self.path@, url: self.url@ }
    }
}

impl DeepView for ToDownload {
    type V = ToDownloadModel;

    open spec fn deep_view(&self) -> ToDownloadModel {
        self.view()
    }
}

impl Clone for ToDownload {
    fn clone(&self) -> (r: Self)
        ensures
            r@ == self@,
    {
        ToDownload { path: self.path.clone(), url: self.url.clone() }
    }
}

/// Whether this shortcut wants an image of kind `t`: its search id is
/// resolved and the kind's canonical file is absent.
pub open spec fn wants_image(
    s: ShortcutModel,
    resolved: Map<u32, usize>,
    known: Seq<Seq<char>>,
    t: ImageType,
) -> bool {
    resolved.contains_key(s.app_id) && !seq_has(known, spec_file_name(t, s.app_id))
}

/// The shortcuts that want an image of kind `t`, in input order.
pub open spec fn spec_images_needed(
    shortcuts: Seq<ShortcutModel>,
    resolved: Map<u32, usize>,
    known: Seq<Seq<char>>,
    t: ImageType,
) -> Seq<ShortcutModel>
    decreases shortcuts.len(),
{
    if shortcuts.len() == 0 {
        Seq::empty()
    } else {
        let rest = spec_images_needed(shortcuts.drop_last(), resolved, known, t);
        if wants_image(shortcuts.last(), resolved, known, t) {
            rest.push(shortcuts.last())
        } else {
            rest
        }
    }
}

/// Every member of the needed subset wants the image.
pub proof fn lemma_images_needed_members(
    shortcuts: Seq<ShortcutModel>,
    resolved: Map<u32, usize>,
    known: Seq<Seq<char>>,
    t: ImageType,
)
    ensures
        forall|i: int|
            0 <= i < spec_images_needed(shortcuts, resolved, known, t).len() ==> wants_image(
                #[trigger] spec_images_needed(shortcuts, resolved, known, t)[i],
                resolved,
                known,
                t,
            ),
    decreases shortcuts.len(),
{
    if shortcuts.len() > 0 {
        lemma_images_needed_members(shortcuts.drop_last(), resolved, known, t);
        let rest = spec_images_needed(shortcuts.drop_last(), resolved, known, t);
        assert forall|i: int|
            0 <= i < spec_images_needed(shortcuts, resolved, known, t).len() implies wants_image(
            #[trigger] spec_images_needed(shortcuts, resolved, known, t)[i],
            resolved,
            known,
            t,
        ) by {
            if i < rest.len() {
                assert(spec_images_needed(shortcuts, resolved, known, t)[i] == rest[i]);
            } else {
                assert(spec_images_needed(shortcuts, resolved, known, t)[i] == shortcuts.last());
            }
        }
    }
}

/// The shortcuts that want an image of kind `t`: resolved search id and
/// missing canonical file, in stable input order.
pub fn images_needed(
    shortcuts: &Vec<Shortcut>,
    resolved: &SearchCache,
    known: &Vec<String>,
    t: ImageType,
) -> (r: Vec<Shortcut>)
    requires
        resolved.wf(),
    ensures
        r.deep_view() == spec_images_needed(shortcuts.deep_view(), resolved@, known.deep_view(), t),
{
    let mut r: Vec<Shortcut> = Vec::new();
    let n = shortcuts.len();
    for i in 0..n
        invariant
            resolved.wf(),
            n == shortcuts@.len(),
            r.deep_view() == spec_images_needed(
                shortcuts.deep_view().subrange(0, i as int),
                resolved@,
                known.deep_view(),
                t,
            ),
    {
        let ghost pre = shortcuts.deep_view().subrange(0, i as int);
        let ghost post = shortcuts.deep_view().subrange(0, i + 1);
        let s = &shortcuts[i];
        let name = t.file_name(s.app_id);
        if resolved.lookup(s.app_id).is_some() && !vec_has_string(known, &name) {
            let ghost old_r = r.deep_view();
            r.push(s.clone());
            proof {
                assert(r.deep_view() =~= old_r.push(shortcuts.deep_view()[i as int]));
            }
        }
        proof {
            assert(post.drop_last() =~= pre);
            assert(post.last() == shortcuts.deep_view()[i as int]);
        }
    }
    proof {
        assert(shortcuts.deep_view().subrange(0, n as int) =~= shortcuts.deep_view());
    }
    r
}

/// The search ids of the needed shortcuts, in the same order; together the
/// two lists form the bulk provider request.
pub fn search_ids(needed: &Vec<Shortcut>, resolved: &SearchCache) -> (r: Vec<usize>)
    requires
        resolved.wf(),
        forall|i: int|
            0 <= i < needed.deep_view().len() ==> resolved@.contains_key(
                (#[trigger] needed.deep_view()[i]).app_id,
            ),
    ensures
        r@.len() == needed@.len(),
        forall|i: int|
            0 <= i < r@.len() ==> r@[i] == resolved@[(#[trigger] needed.deep_view()[i]).app_id],
{
    let mut r: Vec<usize> = Vec::new();
    let n = needed.len();
    for i in 0..n
        invariant
            resolved.wf(),
            n == needed@.len(),
            forall|j: int|
                0 <= j < needed.deep_view().len() ==> resolved@.contains_key(
                    (#[trigger] needed.deep_view()[j]).app_id,
                ),
            r@.len() == i,
            forall|j: int|
                0 <= j < i ==> r@[j] == resolved@[(#[trigger] needed.deep_view()[j]).app_id],
    {
        assert(needed.deep_view()[i as int].app_id == needed@[i as int].app_id);
        let id = match resolved.lookup(needed[i].app_id) {
            Some(id) => id,
            None => unreached(),
        };
        r.push(id);
    }
    r
}

/// Plans one bulk provider query for image kind `t`: the shortcuts that
/// want the image, and their search ids in the same order.  The two lists
/// are the ordered request the provider must echo positionally.
pub fn plan_image_query(
    shortcuts: &Vec<Shortcut>,
    resolved: &SearchCache,
    known: &Vec<String>,
    t: ImageType,
) -> (p: (Vec<Shortcut>, Vec<usize>))
    requires
        resolved.wf(),
    ensures
        p.0.deep_view() == spec_images_needed(
            shortcuts.deep_view(),
            resolved@,
            known.deep_view(),
            t,
        ),
        p.1@.len() == p.0@.len(),
        forall|i: int|
            0 <= i < p.1@.len() ==> p.1@[i] == resolved@[(#[trigger] p.0.deep_view()[i]).app_id],
{
    let needed = images_needed(shortcuts, resolved, known, t);
    proof {
        lemma_images_needed_members(shortcuts.deep_view(), resolved@, known.deep_view(), t);
    }
    let ids = search_ids(&needed, resolved);
    (needed, ids)
}

/// The number of response entries consumed: request and response walk in
/// lock-step, so pairing stops at the shorter list.
pub open spec fn pair_len(n: int, m: int) -> int {
    if n <= m {
        n
    } else {
        m
    }
}

/// The transfers emitted by walking request and response positionally up
/// to index `k`: a successful response entry yields the destination for
/// its paired shortcut; a failed or empty entry yields nothing.
pub open spec fn spec_paired(
    needed: Seq<ShortcutModel>,
    resp: Seq<Option<Seq<char>>>,
    t: ImageType,
    grid: Seq<char>,
    k: int,
) -> Seq<ToDownloadModel>
    decreases k,
{
    if k <= 0 {
        Seq::empty()
    } else {
        let rest = spec_paired(needed, resp, t, grid, k - 1);
        match resp[k - 1] {
            Some(url) => rest.push(
                ToDownloadModel {
                    path: join_path_spec(grid, spec_file_name(t, needed[k - 1].app_id)),
                    url: url,
                },
            ),
            None => rest,
        }
    }
}

/// The transfer built for request position `j`: the paired shortcut's
/// destination, and the successful response's URL.
pub open spec fn spec_paired_entry(
    needed: Seq<ShortcutModel>,
    resp: Seq<Option<Seq<char>>>,
    t: ImageType,
    grid: Seq<char>,
    j: int,
) -> ToDownloadModel {
    ToDownloadModel {
        path: join_path_spec(grid, spec_file_name(t, needed[j].app_id)),
        url: resp[j]->0,
    }
}

/// Whether transfer `d` comes from request position `j`: the response
/// there succeeded and `d` targets that position's shortcut.
pub open spec fn from_position(
    needed: Seq<ShortcutModel>,
    resp: Seq<Option<Seq<char>>>,
    t: ImageType,
    grid: Seq<char>,
    k: int,
    j: int,
    d: ToDownloadModel,
) -> bool {
    0 <= j < k && resp[j] is Some && d == spec_paired_entry(needed, resp, t, grid, j)
}

/// Every emitted transfer comes from some request position whose response
/// succeeded, and targets that position's shortcut.
pub proof fn lemma_paired_members(
    needed: Seq<ShortcutModel>,
    resp: Seq<Option<Seq<char>>>,
    t: ImageType,
    grid: Seq<char>,
    k: int,
    i: int,
)
    requires
        k <= needed.len(),
        k <= resp.len(),
        0 <= i < spec_paired(needed, resp, t, grid, k).len(),
    ensures
        (exists|j: int|
            from_position(needed, resp, t, grid, k, j, spec_paired(needed, resp, t, grid, k)[i])),
    decreases k,
{
    let out = spec_paired(needed, resp, t, grid, k);
    let rest = spec_paired(needed, resp, t, grid, k - 1);
    if i < rest.len() {
        lemma_paired_members(needed, resp, t, grid, k - 1, i);
        assert(out[i] == rest[i]);
        let j = choose|j: int| #[trigger] from_position(needed, resp, t, grid, k - 1, j, rest[i]);
        assert(from_position(needed, resp, t, grid, k, j, out[i]));
    } else {
        assert(resp[k - 1] is Some);
        assert(out[i] == spec_paired_entry(needed, resp, t, grid, k - 1));
        assert(from_position(needed, resp, t, grid, k, k - 1, out[i]));
    }
}

/// Whether transfer `d` targets a shortcut that genuinely misses the image
/// of kind `t`: its search id is resolved and the canonical file absent.
pub open spec fn targets_missing_image(
    needed: Seq<ShortcutModel>,
    resolved: Map<u32, usize>,
    known: Seq<Seq<char>>,
    t: ImageType,
    grid: Seq<char>,
    j: int,
    d: ToDownloadModel,
) -> bool {
    0 <= j < needed.len() && resolved.contains_key(needed[j].app_id) && !seq_has(
        known,
        spec_file_name(t, needed[j].app_id),
    ) && d.path == join_path_spec(grid, spec_file_name(t, needed[j].app_id))
}

/// Law: a transfer is produced for an app id and image kind only if that
/// kind's canonical filename was absent from the known images and the app
/// id's search was resolved — never for an image already on disk.
pub proof fn lemma_download_only_when_missing(
    shortcuts: Seq<ShortcutModel>,
    resolved: Map<u32, usize>,
    known: Seq<Seq<char>>,
    t: ImageType,
    resp: Seq<Option<Seq<char>>>,
    grid: Seq<char>,
    k: int,
    i: int,
)
    requires
        k <= spec_images_needed(shortcuts, resolved, known, t).len(),
        k <= resp.len(),
        0 <= i
            < spec_paired(spec_images_needed(shortcuts, resolved, known, t), resp, t, grid, k).len(),
    ensures
        (exists|j: int|
            targets_missing_image(
                spec_images_needed(shortcuts, resolved, known, t),
                resolved,
                known,
                t,
                grid,
                j,
                spec_paired(spec_images_needed(shortcuts, resolved, known, t), resp, t, grid, k)[i],
            )),
{
    let needed = spec_images_needed(shortcuts, resolved, known, t);
    lemma_paired_members(needed, resp, t, grid, k, i);
    lemma_images_needed_members(shortcuts, resolved, known, t);
    let j = choose|j: int|
        #[trigger] from_position(
            needed,
            resp,
            t,
            grid,
            k,
            j,
            spec_paired(needed, resp, t, grid, k)[i],
        );
    assert(wants_image(needed[j], resolved, known, t));
    assert(targets_missing_image(
        needed,
        resolved,
        known,
        t,
        grid,
        j,
        spec_paired(needed, resp, t, grid, k)[i],
    ));
}

/// Pairs the provider's positional response list with the request list in
/// lock-step and emits one transfer per successful entry.  The destination
/// is the paired shortcut's canonical filename inside `grid_folder`.
pub fn pair_responses(
    needed: &Vec<Shortcut>,
    responses: &Vec<Option<String>>,
    t: ImageType,
    grid_folder: &str,
) -> (r: Vec<ToDownload>)
    ensures
        r.deep_view() == spec_paired(
            needed.deep_view(),
            responses.deep_view(),
            t,
            grid_folder@,
            pair_len(needed@.len() as int, responses@.len() as int),
        ),
{
    let mut r: Vec<ToDownload> = Vec::new();
    let m = if needed.len() <= responses.len() {
        needed.len()
    } else {
        responses.len()
    };
    for i in 0..m
        invariant
            m == pair_len(needed@.len() as int, responses@.len() as int),
            m <= needed@.len(),
            m <= responses@.len(),
            r.deep_view() == spec_paired(
                needed.deep_view(),
                responses.deep_view(),
                t,
                grid_folder@,
                i as int,
            ),
    {
        match &responses[i] {
            Some(url) => {
                let name = t.file_name(needed[i].app_id);
                let path = join_path(grid_folder, name.as_str());
                let ghost old_r = r.deep_view();
                r.push(ToDownload { path, url: url.clone() });
                proof {
                    assert(responses@[i as int] == Some(*url));
                    assert(responses.deep_view()[i as int] == Some(url@));
                    assert(needed.deep_view()[i as int].app_id == needed@[i as int].app_id);
                    assert(r.deep_view() =~= old_r.push(
                        ToDownloadModel {
                            path: join_path_spec(
                                grid_folder@,
                                spec_file_name(t, needed.deep_view()[i as int].app_id),
                            ),
                            url: url@,
                        },
                    ));
                }
            },
            None => {
                proof {
                    assert(responses@[i as int] is None);
                    assert(responses.deep_view()[i as int] is None);
                }
            },
        }
    }
    r
}

} // verus!
