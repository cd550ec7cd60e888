//! The pipeline coordinator's aggregation step.
//!
//! Each user's run yields a list of transfers; the download phase runs over
//! the concatenation of all of them, in user order, after every resolution
//! has finished and the cache has been saved.  A user whose processing
//! failed contributes an empty list and disturbs nobody else.

use vstd::prelude::*;
use crate::batch::ToDownload;

verus! {

/// Whether the pipeline may run at all: without a provider credential the
/// whole run is a no-op that yields an empty result, not an error.
pub fn credential_present(auth_key: &Option<String>) -> (b: bool)
    ensures
        b == (auth_key is Some),
{
    auth_key.is_some()
}

/// Concatenates every user's transfer list into the aggregate the download
/// phase consumes, keeping user order and each list's own order.
pub fn flatten_downloads(lists: &Vec<Vec<ToDownload>>) -> (r: Vec<ToDownload>)
    ensures
        r.deep_view() == lists.deep_view().flatten(),
{
    let mut r: Vec<ToDownload> = Vec::new();
    let n = lists.len();
    for i in 0..n
        invariant
            n == lists@.len(),
            r.deep_view() == lists.deep_view().subrange(0, i as int).flatten_alt(),
    {
        let inner = &lists[i];
        let m = inner.len();
        let ghost prefix_flat = lists.deep_view().subrange(0, i as int).flatten_alt();
        for j in 0..m
            invariant
                n == lists@.len(),
                i < n,
                m == inner@.len(),
                inner == &lists[i as int],
                r.deep_view() == prefix_flat + lists.deep_view()[i as int].subrange(0, j as int),
        {
            let ghost old_r = r.deep_view();
            r.push(inner[j].clone());
            proof {
                assert(lists.deep_view()[i as int][j as int] == inner@[j as int]@);
                assert(r.deep_view() =~= old_r.push(lists.deep_view()[i as int][j as int]));
                assert(lists.deep_view()[i as int].subrange(0, j + 1) =~= lists.deep_view()[
                    i as int
                ].subrange(0, j as int).push(lists.deep_view()[i as int][j as int]));
                assert(r.deep_view() =~= prefix_flat + lists.deep_view()[i as int].subrange(
                    0,
                    j + 1,
                ));
            }
        }
        proof {
            let pre = lists.deep_view().subrange(0, i as int);
            let post = lists.deep_view().subrange(0, i + 1);
            assert(post.drop_last() =~= pre);
            assert(post.last() == lists.deep_view()[i as int]);
            assert(lists.deep_view()[i as int].subrange(
                0,
                lists.deep_view()[i as int].len() as int,
            ) =~= lists.deep_view()[i as int]);
            assert(r.deep_view() =~= post.flatten_alt());
        }
    }
    proof {
        assert(lists.deep_view().subrange(0, n as int) =~= lists.deep_view());
        lists.deep_view().lemma_flatten_and_flatten_alt_are_equivalent();
    }
    r
}

} // verus!
