//! Properties of the loop edits that hold for every loop.
use crate::config::{
    first_index, has_path, lemma_first_index, new_paths, reordered, without_id, VideoItem,
};
use vstd::prelude::*;

verus! {

/// The first video with id `id`, if any.
pub open spec fn first_with_id(videos: Seq<VideoItem>, id: Seq<char>) -> Option<VideoItem> {
    match first_index(videos, id) {
        Some(i) => Some(videos[i]),
        None => None,
    }
}

/// Adding never re-adds a path the loop already holds: every path added is
/// one of the offered paths and was not in the loop.
pub proof fn lemma_added_paths_are_new(videos: Seq<VideoItem>, paths: Seq<String>)
    ensures
        forall|i: int|
            0 <= i < new_paths(videos, paths).len() ==> !has_path(
                videos,
                (#[trigger] new_paths(videos, paths)[i])@,
            ) && paths.contains(new_paths(videos, paths)[i]),
    decreases paths.len(),
{
    if paths.len() > 0 {
        let t = paths.drop_last();
        lemma_added_paths_are_new(videos, t);
        let r = new_paths(videos, t);
        assert forall|i: int| 0 <= i < new_paths(videos, paths).len() implies !has_path(
            videos,
            (#[trigger] new_paths(videos, paths)[i])@,
        ) && paths.contains(new_paths(videos, paths)[i]) by {
            if i < r.len() {
                assert(new_paths(videos, paths)[i] == r[i]);
                let j = choose|j: int| 0 <= j < t.len() && t[j] == r[i];
                assert(paths[j] == t[j]);
            } else {
                assert(paths[paths.len() - 1] == paths.last());
            }
        }
    }
}

/// Every offered path not in the loop is added.
pub proof fn lemma_new_paths_complete(videos: Seq<VideoItem>, paths: Seq<String>, p: String)
    requires
        paths.contains(p),
        !has_path(videos, p@),
    ensures
        new_paths(videos, paths).contains(p),
    decreases paths.len(),
{
    let t = paths.drop_last();
    if paths.last() == p {
        assert(new_paths(videos, paths).last() == p);
    } else {
        let j = choose|j: int| 0 <= j < paths.len() && paths[j] == p;
        assert(t[j] == p);
        lemma_new_paths_complete(videos, t, p);
        let k = choose|k: int| 0 <= k < new_paths(videos, t).len() && new_paths(videos, t)[k] == p;
        assert(new_paths(videos, paths)[k] == p);
    }
}

/// Removing by id keeps exactly the videos with other ids, in order.
pub proof fn lemma_remove_keeps_others(videos: Seq<VideoItem>, id: Seq<char>)
    ensures
        forall|i: int|
            0 <= i < without_id(videos, id).len() ==> (#[trigger] without_id(videos, id)[i]).id@
                != id && videos.contains(without_id(videos, id)[i]),
        forall|i: int|
            0 <= i < videos.len() && (#[trigger] videos[i]).id@ != id ==> without_id(
                videos,
                id,
            ).contains(videos[i]),
    decreases videos.len(),
{
    if videos.len() > 0 {
        let t = videos.drop_last();
        lemma_remove_keeps_others(t, id);
        let r = without_id(t, id);
        let w = without_id(videos, id);
        assert forall|i: int| 0 <= i < w.len() implies (#[trigger] w[i]).id@ != id
            && videos.contains(w[i]) by {
            if i < r.len() {
                assert(w[i] == r[i]);
                let j = choose|j: int| 0 <= j < t.len() && t[j] == r[i];
                assert(videos[j] == t[j]);
            } else {
                assert(videos[videos.len() - 1] == videos.last());
            }
        }
        assert forall|i: int| 0 <= i < videos.len() && (#[trigger] videos[i]).id@ != id implies w.contains(
            videos[i],
        ) by {
            if i < videos.len() - 1 {
                assert(t[i] == videos[i]);
                let k = choose|k: int| 0 <= k < r.len() && r[k] == t[i];
                assert(w[k] == r[k]);
            } else {
                assert(w.last() == videos[i]);
            }
        }
    }
}

/// Playback resumes at the same video after another video is removed:
/// removing id `x` leaves the first video with any other id `id`
/// unchanged.
pub proof fn lemma_resume_survives_removal(videos: Seq<VideoItem>, x: Seq<char>, id: Seq<char>)
    requires
        x != id,
    ensures
        first_with_id(without_id(videos, x), id) == first_with_id(videos, id),
    decreases videos.len(),
{
    lemma_first_index(videos, id);
    lemma_first_index(without_id(videos, x), id);
    if videos.len() > 0 {
        let t = videos.drop_last();
        lemma_resume_survives_removal(t, x, id);
        lemma_first_index(t, id);
        let r = without_id(t, x);
        lemma_first_index(r, id);
        let w = without_id(videos, x);
        // The first match in a sequence extended at its end is the old first
        // match, or the new last element when there was none.
        lemma_first_after_push(t, videos.last(), id);
        if videos.last().id@ != x {
            lemma_first_after_push(r, videos.last(), id);
            assert(w == r.push(videos.last()));
            assert(t.push(videos.last()) =~= videos);
        } else {
            assert(t.push(videos.last()) =~= videos);
        }
    }
}

/// First match after appending one video at the end.
pub proof fn lemma_first_after_push(s: Seq<VideoItem>, v: VideoItem, id: Seq<char>)
    ensures
        first_with_id(s.push(v), id) == match first_with_id(s, id) {
            Some(x) => Some(x),
            None => if v.id@ == id {
                Some(v)
            } else {
                None
            },
        },
{
    let u = s.push(v);
    lemma_first_index(s, id);
    lemma_first_index(u, id);
    match first_index(s, id) {
        Some(i) => {
            assert(u[i] == s[i]);
            match first_index(u, id) {
                Some(k) => {
                    if k < i {
                        assert(u[k] == s[k]);
                    }
                    if k > i {
                        assert(u[i].id@ != id);
                    }
                },
                None => {
                    assert(u[i].id@ != id);
                },
            }
        },
        None => {
            match first_index(u, id) {
                Some(k) => {
                    if k < s.len() {
                        assert(u[k] == s[k]);
                    }
                },
                None => {
                    assert(u[s.len() as int] == v);
                },
            }
        },
    }
}

/// Playback resumes at the same video after reordering: when the last
/// played id is among the ids of the new order, the first video with that
/// id after reordering is the first one with it before.
pub proof fn lemma_resume_survives_reorder(videos: Seq<VideoItem>, ids: Seq<String>, id: Seq<char>)
    requires
        exists|j: int| 0 <= j < ids.len() && (#[trigger] ids[j])@ == id,
        first_index(videos, id) is Some,
    ensures
        first_with_id(reordered(videos, ids), id) == first_with_id(videos, id),
    decreases ids.len(),
{
    let t = ids.drop_last();
    lemma_first_index(videos, id);
    let r = reordered(videos, t);
    if exists|j: int| 0 <= j < t.len() && (#[trigger] t[j])@ == id {
        let j = choose|j: int| 0 <= j < t.len() && (#[trigger] t[j])@ == id;
        lemma_resume_survives_reorder(videos, t, id);
        match first_index(videos, ids.last()@) {
            Some(i) => {
                lemma_first_after_push(r, videos[i], id);
            },
            None => {},
        }
    } else {
        assert(ids.last()@ == id) by {
            let j = choose|j: int| 0 <= j < ids.len() && (#[trigger] ids[j])@ == id;
            if j < ids.len() - 1 {
                assert(t[j] == ids[j]);
            }
        }
        lemma_no_match_without_id(videos, t, id);
        let i = first_index(videos, id)->0;
        lemma_first_after_push(r, videos[i], id);
    }
}

/// Reordering by ids that do not include `id` keeps no video with id `id`.
pub proof fn lemma_no_match_without_id(videos: Seq<VideoItem>, ids: Seq<String>, id: Seq<char>)
    requires
        forall|j: int| 0 <= j < ids.len() ==> (#[trigger] ids[j])@ != id,
    ensures
        first_with_id(reordered(videos, ids), id) is None,
    decreases ids.len(),
{
    if ids.len() > 0 {
        let t = ids.drop_last();
        assert forall|j: int| 0 <= j < t.len() implies (#[trigger] t[j])@ != id by {
            assert(t[j] == ids[j]);
        }
        lemma_no_match_without_id(videos, t, id);
        lemma_first_index(videos, ids.last()@);
        match first_index(videos, ids.last()@) {
            Some(i) => {
                assert(ids[ids.len() - 1] == ids.last());
                lemma_first_after_push(reordered(videos, t), videos[i], id);
            },
            None => {},
        }
    }
}

} // verus!
