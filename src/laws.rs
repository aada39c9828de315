//! Properties that relate several operations of the post store.
use vstd::prelude::*;

use crate::error::{status_of, ErrorKind};
use crate::model::PostDetail;
use crate::store::{
    has_tag_named, has_usage, is_unknown_post, lemma_names_of_one_id, lemma_synced_tag_names,
    names_tag, post_tag_names, saved, shows_post, views, wf, PostStore,
};

verus! {

/// What a fetch shows after a save is the rendered content that the save
/// stored.
pub proof fn lemma_fetch_shows_saved_content(
    old: PostStore,
    new: PostStore,
    id: i64,
    title: Seq<char>,
    markdown: Seq<char>,
    rendered: Seq<char>,
    tags: Option<Seq<Seq<char>>>,
    now: i64,
    d: PostDetail,
)
    requires
        saved(old, new, id, title, markdown, rendered, tags, now),
        shows_post(new, id, d),
    ensures
        d.id == id,
        d.title@ == title,
        d.content@ == rendered,
        d.updated_at == Some(now),
{
    let i = choose|i: int| 0 <= i < old.posts@.len() && old.posts@[i].id == id;
    assert(new.posts@[i].id == id);
}

/// The same post observed in two stores: same ids, titles, sources,
/// renderings and timestamps at every position.
pub open spec fn same_posts(a: PostStore, b: PostStore) -> bool {
    &&& a.posts@.len() == b.posts@.len()
    &&& forall|i: int|
        0 <= i < a.posts@.len() ==> {
            &&& (#[trigger] a.posts@[i]).id == b.posts@[i].id
            &&& a.posts@[i].title@ == b.posts@[i].title@
            &&& a.posts@[i].markdown_content@ == b.posts@[i].markdown_content@
            &&& a.posts@[i].rendered_content@ == b.posts@[i].rendered_content@
            &&& a.posts@[i].created_at == b.posts@[i].created_at
            &&& a.posts@[i].updated_at == b.posts@[i].updated_at
        }
}

/// Saving the same arguments twice in a row leaves the store as the first
/// save left it: the same posts, the same tag vocabulary (no tag created
/// twice) and the same usages.
pub proof fn lemma_save_idempotent(
    s0: PostStore,
    s1: PostStore,
    s2: PostStore,
    id: i64,
    title: Seq<char>,
    markdown: Seq<char>,
    rendered: Seq<char>,
    tags: Option<Seq<Seq<char>>>,
    now: i64,
)
    requires
        wf(s0),
        wf(s1),
        wf(s2),
        saved(s0, s1, id, title, markdown, rendered, tags, now),
        saved(s1, s2, id, title, markdown, rendered, tags, now),
    ensures
        same_posts(s1, s2),
        s2.tags@ == s1.tags@,
        forall|p: i64, t: i64| #[trigger] has_usage(s2, p, t) <==> has_usage(s1, p, t),
{
    assert forall|i: int| 0 <= i < s1.posts@.len() implies {
        &&& (#[trigger] s1.posts@[i]).id == s2.posts@[i].id
        &&& s1.posts@[i].title@ == s2.posts@[i].title@
        &&& s1.posts@[i].markdown_content@ == s2.posts@[i].markdown_content@
        &&& s1.posts@[i].rendered_content@ == s2.posts@[i].rendered_content@
        &&& s1.posts@[i].created_at == s2.posts@[i].created_at
        &&& s1.posts@[i].updated_at == s2.posts@[i].updated_at
    } by {
        if s0.posts@[i].id == id {
            assert(s1.posts@[i].id == id);
        } else {
            assert(s1.posts@[i] == s0.posts@[i]);
        }
    }
    if let Some(list) = tags {
        assert(s2.tags@.len() == s1.tags@.len()) by {
            if s2.tags@.len() > s1.tags@.len() {
                let j = s1.tags@.len() as int;
                let n = s2.tags@[j].name@;
                assert(list.contains(n) && !has_tag_named(s1, n));
                let k = choose|k: int| 0 <= k < list.len() && list[k] == n;
                assert(has_tag_named(s1, list[k]));
            }
        }
        assert(s2.tags@ =~= s1.tags@) by {
            assert(s2.tags@.subrange(0, s1.tags@.len() as int) == s1.tags@);
        }
        assert forall|p: i64, t: i64| #[trigger] has_usage(s2, p, t) <==> has_usage(s1, p, t) by {
            if p == id {
                assert(has_usage(s2, id, t) <==> exists|k: int|
                    0 <= k < list.len() && names_tag(s2, list[k], t));
                assert(has_usage(s1, id, t) <==> exists|k: int|
                    0 <= k < list.len() && names_tag(s1, list[k], t));
            }
        }
    }
}

/// After a save with a list of tags, a fetch of the post lists exactly the
/// names of that list.
pub proof fn lemma_fetched_tags_after_save(
    old: PostStore,
    new: PostStore,
    id: i64,
    title: Seq<char>,
    markdown: Seq<char>,
    rendered: Seq<char>,
    list: Seq<Seq<char>>,
    now: i64,
    d: PostDetail,
)
    requires
        wf(new),
        saved(old, new, id, title, markdown, rendered, Some(list), now),
        shows_post(new, id, d),
    ensures
        d.tags is Some,
        views(d.tags.unwrap()@).to_set() == list.to_set(),
{
    lemma_synced_tag_names(old, new, id, list);
    let v = views(d.tags.unwrap()@);
    assert(v.to_set() =~= list.to_set()) by {
        assert forall|n: Seq<char>| v.to_set().contains(n) <==> list.to_set().contains(n) by {
            assert(v.contains(n) <==> post_tag_names(new, id).contains(n));
        }
    }
}

/// A name dropped from a post's tags by a second save no longer tags that
/// post, while every other post keeps its usages and the tag itself stays in
/// the vocabulary.
pub proof fn lemma_tag_removal_isolated(
    s0: PostStore,
    s1: PostStore,
    s2: PostStore,
    id: i64,
    title1: Seq<char>,
    markdown1: Seq<char>,
    rendered1: Seq<char>,
    list1: Seq<Seq<char>>,
    now1: i64,
    title2: Seq<char>,
    markdown2: Seq<char>,
    rendered2: Seq<char>,
    list2: Seq<Seq<char>>,
    now2: i64,
    n: Seq<char>,
)
    requires
        wf(s0),
        wf(s1),
        wf(s2),
        saved(s0, s1, id, title1, markdown1, rendered1, Some(list1), now1),
        saved(s1, s2, id, title2, markdown2, rendered2, Some(list2), now2),
        list1.contains(n),
        !list2.contains(n),
    ensures
        forall|t: i64| names_tag(s2, n, t) ==> !has_usage(s2, id, t),
        !post_tag_names(s2, id).contains(n),
        forall|p: i64, t: i64|
            #![trigger has_usage(s2, p, t)]
            p != id ==> (has_usage(s2, p, t) <==> has_usage(s1, p, t)),
        has_tag_named(s2, n),
{
    let k = choose|k: int| 0 <= k < list1.len() && list1[k] == n;
    assert(has_tag_named(s1, list1[k]));
    let j = choose|j: int| 0 <= j < s1.tags@.len() && s1.tags@[j].name@ == n;
    assert(s2.tags@.subrange(0, s1.tags@.len() as int) == s1.tags@);
    assert(s2.tags@[j] == s1.tags@[j]);
    assert forall|t: i64| names_tag(s2, n, t) implies !has_usage(s2, id, t) by {
        if has_usage(s2, id, t) {
            let q = choose|q: int| 0 <= q < list2.len() && names_tag(s2, list2[q], t);
            lemma_names_of_one_id(s2, n, list2[q], t);
        }
    }
    lemma_synced_tag_names(s1, s2, id, list2);
}

/// A save of an unknown post is reported as a bad request (400).
pub proof fn lemma_unknown_post_status<T>(r: Result<T, ErrorKind>)
    requires
        is_unknown_post(r),
    ensures
        r matches Err(e) && e is BusinessException && status_of(e) == 400,
{
}

} // verus!
