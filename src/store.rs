use vstd::prelude::*;
use vstd::string::*;

use crate::error::ErrorKind;
use crate::model::{Post, PostDetail, Tag, TagUsage};

verus! {

/// The posts, the tag vocabulary and the tag usages, with the next free id of
/// each table. Every operation requires and preserves `wf`.
pub struct PostStore {
    pub posts: Vec<Post>,
    pub tags: Vec<Tag>,
    pub usages: Vec<TagUsage>,
    pub next_post_id: i64,
    pub next_tag_id: i64,
    pub next_usage_id: i64,
}

/// Some row of `us` joins post `p` to tag `t`.
pub open spec fn pair_in(us: Seq<TagUsage>, p: i64, t: i64) -> bool {
    exists|i: int| 0 <= i < us.len() && us[i].post_id == p && us[i].tag_id == t
}

/// The store holds a post with id `id`.
pub open spec fn has_post(s: PostStore, id: i64) -> bool {
    exists|i: int| 0 <= i < s.posts@.len() && s.posts@[i].id == id
}

/// The vocabulary holds a tag with id `t`.
pub open spec fn has_tag_id(s: PostStore, t: i64) -> bool {
    exists|j: int| 0 <= j < s.tags@.len() && s.tags@[j].id == t
}

/// The vocabulary holds a tag named `name`.
pub open spec fn has_tag_named(s: PostStore, name: Seq<char>) -> bool {
    exists|j: int| 0 <= j < s.tags@.len() && s.tags@[j].name@ == name
}

/// The tag named `name` has id `t`.
pub open spec fn names_tag(s: PostStore, name: Seq<char>, t: i64) -> bool {
    exists|j: int| 0 <= j < s.tags@.len() && s.tags@[j].name@ == name && s.tags@[j].id == t
}

/// Post `p` is tagged with tag `t`.
pub open spec fn has_usage(s: PostStore, p: i64, t: i64) -> bool {
    pair_in(s.usages@, p, t)
}

/// The names of the tags of post `p`.
pub open spec fn post_tag_names(s: PostStore, p: i64) -> Set<Seq<char>> {
    Set::new(|n: Seq<char>| exists|t: i64| names_tag(s, n, t) && has_usage(s, p, t))
}

/// The characters of each string of a list.
pub open spec fn views(v: Seq<String>) -> Seq<Seq<char>> {
    v.map_values(|x: String| x@)
}

/// Ids below the next free id and unique in each table, tag names unique,
/// at most one usage per post and tag, and every usage joining an existing
/// post to an existing tag.
pub open spec fn wf(s: PostStore) -> bool {
    &&& 0 < s.next_post_id
    &&& 0 < s.next_tag_id
    &&& 0 < s.next_usage_id
    &&& forall|i: int| 0 <= i < s.posts@.len() ==> 0 < #[trigger] s.posts@[i].id < s.next_post_id
    &&& forall|i: int, j: int|
        0 <= i < s.posts@.len() && 0 <= j < s.posts@.len() && #[trigger] s.posts@[i].id
            == #[trigger] s.posts@[j].id ==> i == j
    &&& forall|i: int| 0 <= i < s.tags@.len() ==> 0 < #[trigger] s.tags@[i].id < s.next_tag_id
    &&& forall|i: int, j: int|
        0 <= i < s.tags@.len() && 0 <= j < s.tags@.len() && #[trigger] s.tags@[i].id
            == #[trigger] s.tags@[j].id ==> i == j
    &&& forall|i: int, j: int|
        0 <= i < s.tags@.len() && 0 <= j < s.tags@.len() && #[trigger] s.tags@[i].name@
            == #[trigger] s.tags@[j].name@ ==> i == j
    &&& usages_wf(s.usages@, s.next_usage_id)
    &&& forall|i: int|
        0 <= i < s.usages@.len() ==> has_post(s, #[trigger] s.usages@[i].post_id) && has_tag_id(
            s,
            s.usages@[i].tag_id,
        )
}

/// Usage ids positive, below `next` and unique; no two rows for the same
/// post and tag.
pub open spec fn usages_wf(us: Seq<TagUsage>, next: i64) -> bool {
    &&& forall|i: int| 0 <= i < us.len() ==> 0 < #[trigger] us[i].id < next
    &&& forall|i: int, j: int|
        0 <= i < us.len() && 0 <= j < us.len() && #[trigger] us[i].id == #[trigger] us[j].id ==> i
            == j
    &&& forall|i: int, j: int|
        0 <= i < us.len() && 0 <= j < us.len() && #[trigger] us[i].post_id == #[trigger] us[j].post_id
            && us[i].tag_id == us[j].tag_id ==> i == j
}

/// A save of `list` as the tags of post `id` turned `old` into `new`: the
/// vocabulary only grew, by tags for names of the list that were missing;
/// every name of the list names a tag; the other posts keep their usages; and
/// post `id` is tagged with exactly the tags the list names.
pub open spec fn tags_synced(old: PostStore, new: PostStore, id: i64, list: Seq<Seq<char>>) -> bool {
    &&& old.tags@.len() <= new.tags@.len()
    &&& new.tags@.subrange(0, old.tags@.len() as int) == old.tags@
    &&& forall|j: int|
        old.tags@.len() <= j < new.tags@.len() ==> list.contains(#[trigger] new.tags@[j].name@)
            && !has_tag_named(old, new.tags@[j].name@)
    &&& forall|k: int| 0 <= k < list.len() ==> has_tag_named(new, #[trigger] list[k])
    &&& forall|p: i64, t: i64|
        #![trigger has_usage(new, p, t)]
        #![trigger has_usage(old, p, t)]
        p != id ==> (has_usage(new, p, t) <==> has_usage(old, p, t))
    &&& forall|t: i64|
        #![trigger has_usage(new, id, t)]
        has_usage(new, id, t) <==> exists|k: int| 0 <= k < list.len() && names_tag(new, list[k], t)
}

/// `save(id, title, markdown, rendered, tags, now)` turned `old` into `new`:
/// the post's title and content are replaced and it is marked updated at
/// `now`; the other posts are unchanged; tags are synchronised when a list is
/// given and left alone otherwise.
pub open spec fn saved(
    old: PostStore,
    new: PostStore,
    id: i64,
    title: Seq<char>,
    markdown: Seq<char>,
    rendered: Seq<char>,
    tags: Option<Seq<Seq<char>>>,
    now: i64,
) -> bool {
    &&& has_post(old, id)
    &&& new.posts@.len() == old.posts@.len()
    &&& forall|i: int|
        0 <= i < old.posts@.len() && old.posts@[i].id != id ==> #[trigger] new.posts@[i]
            == old.posts@[i]
    &&& forall|i: int|
        0 <= i < old.posts@.len() && #[trigger] old.posts@[i].id == id ==> {
            &&& new.posts@[i].id == id
            &&& new.posts@[i].title@ == title
            &&& new.posts@[i].markdown_content@ == markdown
            &&& new.posts@[i].rendered_content@ == rendered
            &&& new.posts@[i].created_at == old.posts@[i].created_at
            &&& new.posts@[i].updated_at == Some(now)
        }
    &&& match tags {
        None => new.tags@ == old.tags@ && new.usages@ == old.usages@,
        Some(list) => tags_synced(old, new, id, list),
    }
}

/// Two ids that the same name gives are equal.
pub proof fn lemma_name_gives_one_id(s: PostStore, n: Seq<char>, t1: i64, t2: i64)
    requires
        wf(s),
        names_tag(s, n, t1),
        names_tag(s, n, t2),
    ensures
        t1 == t2,
{
}

impl PostStore {
    /// The index of the post with id `id`, if any.
    fn find_post(&self, id: i64) -> (r: Option<usize>)
        ensures
            match r {
                Some(k) => k < self.posts@.len() && self.posts@[k as int].id == id,
                None => !has_post(*self, id),
            },
    {
        let mut i: usize = 0;
        while i < self.posts.len()
            invariant
                i <= self.posts@.len(),
                forall|j: int| 0 <= j < i ==> self.posts@[j].id != id,
            decreases self.posts@.len() - i,
        {
            if self.posts[i].id == id {
                return Some(i);
            }
            i = i + 1;
        }
        None
    }

    /// The index of the tag named `name`, if any.
    fn find_tag(&self, name: &String) -> (r: Option<usize>)
        ensures
            match r {
                Some(j) => j < self.tags@.len() && self.tags@[j as int].name@ == name@,
                None => !has_tag_named(*self, name@),
            },
    {
        let mut i: usize = 0;
        while i < self.tags.len()
            invariant
                i <= self.tags@.len(),
                forall|j: int| 0 <= j < i ==> self.tags@[j].name@ != name@,
            decreases self.tags@.len() - i,
        {
            if self.tags[i].name == *name {
                return Some(i);
            }
            i = i + 1;
        }
        None
    }

    /// Finds the tag of each name of `list`, creating the missing ones, and
    /// returns their ids in the order of the list.
    fn resolve_tags(&mut self, list: &Vec<String>) -> (desired: Vec<i64>)
        requires
            wf(*old(self)),
            old(self).next_tag_id + list@.len() <= i64::MAX,
        ensures
            wf(*final(self)),
            final(self).posts@ == old(self).posts@,
            final(self).usages@ == old(self).usages@,
            final(self).next_post_id == old(self).next_post_id,
            final(self).next_usage_id == old(self).next_usage_id,
            old(self).next_tag_id <= final(self).next_tag_id <= old(self).next_tag_id + list@.len(),
            old(self).tags@.len() <= final(self).tags@.len(),
            final(self).tags@.subrange(0, old(self).tags@.len() as int) == old(self).tags@,
            forall|j: int|
                old(self).tags@.len() <= j < final(self).tags@.len() ==> views(list@).contains(
                    #[trigger] final(self).tags@[j].name@,
                ) && !has_tag_named(*old(self), final(self).tags@[j].name@),
            desired@.len() == list@.len(),
            forall|k: int|
                0 <= k < list@.len() ==> names_tag(*final(self), #[trigger] list@[k]@, desired@[k]),
    {
        let ghost s0 = *self;
        let mut desired: Vec<i64> = Vec::new();
        let mut k: usize = 0;
        while k < list.len()
            invariant
                k <= list@.len(),
                wf(*self),
                self.posts@ == s0.posts@,
                self.usages@ == s0.usages@,
                self.next_post_id == s0.next_post_id,
                self.next_usage_id == s0.next_usage_id,
                s0.next_tag_id <= self.next_tag_id <= s0.next_tag_id + k,
                s0.next_tag_id + list@.len() <= i64::MAX,
                s0.tags@.len() <= self.tags@.len(),
                self.tags@.subrange(0, s0.tags@.len() as int) == s0.tags@,
                forall|j: int|
                    s0.tags@.len() <= j < self.tags@.len() ==> views(list@).contains(
                        #[trigger] self.tags@[j].name@,
                    ) && !has_tag_named(s0, self.tags@[j].name@),
                desired@.len() == k,
                forall|m: int| 0 <= m < k ==> names_tag(*self, #[trigger] list@[m]@, desired@[m]),
            decreases list@.len() - k,
        {
            let ghost before = *self;
            match self.find_tag(&list[k]) {
                Some(j) => {
                    desired.push(self.tags[j].id);
                    assert(names_tag(*self, list@[k as int]@, desired@[k as int]));
                },
                None => {
                    let t = self.next_tag_id;
                    self.tags.push(Tag { id: t, name: list[k].clone() });
                    self.next_tag_id = t + 1;
                    desired.push(t);
                    let ghost n = self.tags@.len() - 1;
                    assert(self.tags@[n].name@ == list@[k as int]@);
                    assert(names_tag(*self, list@[k as int]@, desired@[k as int]));
                    assert(views(list@)[k as int] == list@[k as int]@);
                    assert forall|j: int| 0 <= j < before.tags@.len() implies self.tags@[j] == before.tags@[j] by {}
                    assert forall|j: int| s0.tags@.len() <= j < self.tags@.len() implies views(list@).contains(
                        #[trigger] self.tags@[j].name@,
                    ) && !has_tag_named(s0, self.tags@[j].name@) by {
                        if j < n {
                            assert(self.tags@[j] == before.tags@[j]);
                        } else {
                            if has_tag_named(s0, self.tags@[j].name@) {
                                let w = choose|w: int| 0 <= w < s0.tags@.len() && s0.tags@[w].name@ == self.tags@[j].name@;
                                assert(before.tags@[w] == s0.tags@[w]);
                            }
                        }
                    }
                    assert forall|m: int| 0 <= m < k implies names_tag(*self, #[trigger] list@[m]@, desired@[m]) by {
                        assert(names_tag(before, list@[m]@, desired@[m]));
                        let w = choose|w: int| 0 <= w < before.tags@.len() && before.tags@[w].name@ == list@[m]@ && before.tags@[w].id == desired@[m];
                        assert(self.tags@[w] == before.tags@[w]);
                    }
                    assert(self.tags@.subrange(0, s0.tags@.len() as int) =~= s0.tags@) by {
                        assert(before.tags@.subrange(0, s0.tags@.len() as int) == s0.tags@);
                    }
                },
            }
            k = k + 1;
        }
        desired
    }
}

/// Whether some row of `us` joins post `p` to tag `t`.
fn has_pair(us: &Vec<TagUsage>, p: i64, t: i64) -> (r: bool)
    ensures
        r == pair_in(us@, p, t),
{
    let mut i: usize = 0;
    while i < us.len()
        invariant
            i <= us@.len(),
            forall|j: int| 0 <= j < i ==> !(us@[j].post_id == p && us@[j].tag_id == t),
        decreases us@.len() - i,
    {
        if us[i].post_id == p && us[i].tag_id == t {
            return true;
        }
        i = i + 1;
    }
    false
}

/// Whether `v` holds `t`.
fn contains_id(v: &Vec<i64>, t: i64) -> (r: bool)
    ensures
        r == v@.contains(t),
{
    let mut i: usize = 0;
    while i < v.len()
        invariant
            i <= v@.len(),
            forall|j: int| 0 <= j < i ==> v@[j] != t,
        decreases v@.len() - i,
    {
        if v[i] == t {
            return true;
        }
        i = i + 1;
    }
    false
}

/// A usage row survives a sync of post `id` to the tags `desired`.
pub open spec fn keeps(u: TagUsage, id: i64, desired: Seq<i64>) -> bool {
    u.post_id != id || desired.contains(u.tag_id)
}

impl PostStore {
    /// Makes the tags of post `id` exactly `desired`: removes its usages of
    /// other tags, keeps those of tags in `desired`, and adds the missing ones.
    fn sync_usages(&mut self, id: i64, desired: &Vec<i64>)
        requires
            wf(*old(self)),
            has_post(*old(self), id),
            forall|m: int| 0 <= m < desired@.len() ==> has_tag_id(*old(self), #[trigger] desired@[m]),
            old(self).next_usage_id + desired@.len() <= i64::MAX,
        ensures
            wf(*final(self)),
            final(self).posts@ == old(self).posts@,
            final(self).tags@ == old(self).tags@,
            final(self).next_post_id == old(self).next_post_id,
            final(self).next_tag_id == old(self).next_tag_id,
            old(self).next_usage_id <= final(self).next_usage_id <= old(self).next_usage_id
                + desired@.len(),
            forall|p: i64, t: i64|
                #![trigger has_usage(*final(self), p, t)]
                #![trigger has_usage(*old(self), p, t)]
                p != id ==> (has_usage(*final(self), p, t) <==> has_usage(*old(self), p, t)),
            forall|t: i64|
                #![trigger has_usage(*final(self), id, t)]
                has_usage(*final(self), id, t) <==> desired@.contains(t),
    {
        let ghost s0 = *self;
        let ghost us = s0.usages@;
        let mut kept: Vec<TagUsage> = Vec::new();
        let ghost mut src: Seq<int> = Seq::empty();
        let mut i: usize = 0;
        while i < self.usages.len()
            invariant
                *self == s0,
                us == s0.usages@,
                wf(s0),
                i <= us.len(),
                src.len() == kept@.len(),
                forall|x: int|
                    0 <= x < kept@.len() ==> 0 <= #[trigger] src[x] < i && kept@[x] == us[src[x]],
                forall|x: int, y: int| 0 <= x < y < kept@.len() ==> #[trigger] src[x] < #[trigger] src[y],
                forall|j: int|
                    0 <= j < i && keeps(#[trigger] us[j], id, desired@) ==> pair_in(
                        kept@,
                        us[j].post_id,
                        us[j].tag_id,
                    ),
                forall|x: int| 0 <= x < kept@.len() ==> keeps(#[trigger] kept@[x], id, desired@),
            decreases us.len() - i,
        {
            let u = self.usages[i];
            if u.post_id != id || contains_id(desired, u.tag_id) {
                let ghost before = kept@;
                kept.push(u);
                proof {
                    src = src.push(i as int);
                    assert(kept@[kept@.len() - 1] == us[i as int]);
                    assert forall|j: int|
                        0 <= j < i + 1 && keeps(#[trigger] us[j], id, desired@) implies pair_in(
                        kept@,
                        us[j].post_id,
                        us[j].tag_id,
                    ) by {
                        if j < i {
                            let w = choose|w: int|
                                0 <= w < before.len() && before[w].post_id == us[j].post_id
                                    && before[w].tag_id == us[j].tag_id;
                            assert(kept@[w] == before[w]);
                        } else {
                            assert(kept@[kept@.len() - 1] == us[j]);
                        }
                    }
                }
            }
            i = i + 1;
        }
        proof {
            assert forall|x: int, y: int|
                0 <= x < kept@.len() && 0 <= y < kept@.len() && #[trigger] kept@[x].id
                    == #[trigger] kept@[y].id implies x == y by {
                if x < y {
                    assert(src[x] < src[y]);
                } else if y < x {
                    assert(src[y] < src[x]);
                }
            }
            assert forall|x: int, y: int|
                0 <= x < kept@.len() && 0 <= y < kept@.len() && #[trigger] kept@[x].post_id
                    == #[trigger] kept@[y].post_id && kept@[x].tag_id == kept@[y].tag_id implies x
                == y by {
                if x < y {
                    assert(src[x] < src[y]);
                } else if y < x {
                    assert(src[y] < src[x]);
                }
            }
            assert forall|x: int| 0 <= x < kept@.len() implies 0 < #[trigger] kept@[x].id
                < s0.next_usage_id by {
                assert(kept@[x] == us[src[x]]);
            }
        }
        let ghost k1 = kept@;
        let ghost src1 = src;
        let base: usize = kept.len();
        let mut next: i64 = self.next_usage_id;
        let mut m: usize = 0;
        while m < desired.len()
            invariant
                *self == s0,
                us == s0.usages@,
                wf(s0),
                has_post(s0, id),
                forall|m: int| 0 <= m < desired@.len() ==> has_tag_id(s0, #[trigger] desired@[m]),
                s0.next_usage_id + desired@.len() <= i64::MAX,
                m <= desired@.len(),
                base == k1.len(),
                src1.len() == k1.len(),
                base <= kept@.len(),
                kept@.len() - base <= m,
                forall|x: int| 0 <= x < base ==> #[trigger] kept@[x] == k1[x],
                forall|x: int|
                    base <= x < kept@.len() ==> (#[trigger] kept@[x]).post_id == id
                        && desired@.contains(kept@[x].tag_id),
                next == s0.next_usage_id + (kept@.len() - base),
                usages_wf(kept@, next),
                forall|x: int| 0 <= x < kept@.len() ==> keeps(#[trigger] kept@[x], id, desired@),
                forall|x: int| 0 <= x < k1.len() ==> 0 <= #[trigger] src1[x] < us.len() && k1[x] == us[src1[x]],
                forall|j: int|
                    0 <= j < us.len() && keeps(#[trigger] us[j], id, desired@) ==> pair_in(
                        k1,
                        us[j].post_id,
                        us[j].tag_id,
                    ),
                forall|q: int| 0 <= q < m ==> pair_in(kept@, id, #[trigger] desired@[q]),
            decreases desired@.len() - m,
        {
            let t = desired[m];
            let ghost before = kept@;
            if !has_pair(&kept, id, t) {
                kept.push(TagUsage { id: next, post_id: id, tag_id: t });
                next = next + 1;
                proof {
                    let l = kept@.len() - 1;
                    assert(kept@[l].tag_id == t);
                    assert(desired@.contains(t)) by {
                        assert(desired@[m as int] == t);
                    }
                    assert forall|x: int| 0 <= x < before.len() implies kept@[x] == before[x] by {}
                    assert(pair_in(kept@, id, t));
                    assert forall|q: int| 0 <= q < m + 1 implies pair_in(kept@, id, #[trigger] desired@[q]) by {
                        if q < m {
                            let w = choose|w: int|
                                0 <= w < before.len() && before[w].post_id == id
                                    && before[w].tag_id == desired@[q];
                            assert(kept@[w] == before[w]);
                        }
                    }
                    assert forall|x: int, y: int|
                        0 <= x < kept@.len() && 0 <= y < kept@.len() && #[trigger] kept@[x].post_id
                            == #[trigger] kept@[y].post_id && kept@[x].tag_id == kept@[y].tag_id implies x
                        == y by {
                        if x == l && y != l {
                            assert(before[y] == kept@[y]);
                        } else if y == l && x != l {
                            assert(before[x] == kept@[x]);
                        }
                    }
                }
            }
            m = m + 1;
        }
        proof {
            assert forall|x: int| 0 <= x < kept@.len() implies has_post(s0, #[trigger] kept@[x].post_id)
                && has_tag_id(s0, kept@[x].tag_id) by {
                if x < base {
                    assert(kept@[x] == us[src1[x]]);
                } else {
                    let q = choose|q: int| 0 <= q < desired@.len() && desired@[q] == kept@[x].tag_id;
                    assert(has_tag_id(s0, desired@[q]));
                }
            }
        }
        self.usages = kept;
        self.next_usage_id = next;
        proof {
            let s1 = *self;
            assert(usages_wf(s1.usages@, s1.next_usage_id));
            assert forall|x: int| 0 <= x < s1.usages@.len() implies has_post(s1, #[trigger] s1.usages@[x].post_id)
                && has_tag_id(s1, s1.usages@[x].tag_id) by {
                assert(has_post(s0, kept@[x].post_id));
                assert(has_tag_id(s0, kept@[x].tag_id));
                assert(s1.posts@ == s0.posts@);
                assert(s1.tags@ == s0.tags@);
                let w = choose|w: int| 0 <= w < s0.posts@.len() && s0.posts@[w].id == kept@[x].post_id;
                assert(s1.posts@[w].id == s1.usages@[x].post_id);
                let v = choose|v: int| 0 <= v < s0.tags@.len() && s0.tags@[v].id == kept@[x].tag_id;
                assert(s1.tags@[v].id == s1.usages@[x].tag_id);
            }
            assert(wf(s1));
            assert forall|p: i64, t: i64|
                p != id implies (has_usage(s1, p, t) <==> has_usage(s0, p, t)) by {
                if has_usage(s1, p, t) {
                    let x = choose|x: int|
                        0 <= x < s1.usages@.len() && s1.usages@[x].post_id == p
                            && s1.usages@[x].tag_id == t;
                    assert(x < base);
                    assert(kept@[x] == us[src1[x]]);
                }
                if has_usage(s0, p, t) {
                    let j = choose|j: int| 0 <= j < us.len() && us[j].post_id == p && us[j].tag_id == t;
                    assert(keeps(us[j], id, desired@));
                    let w = choose|w: int| 0 <= w < k1.len() && k1[w].post_id == p && k1[w].tag_id == t;
                    assert(kept@[w] == k1[w]);
                }
            }
            assert forall|t: i64| has_usage(s1, id, t) <==> desired@.contains(t) by {
                if has_usage(s1, id, t) {
                    let x = choose|x: int|
                        0 <= x < s1.usages@.len() && s1.usages@[x].post_id == id
                            && s1.usages@[x].tag_id == t;
                    assert(keeps(kept@[x], id, desired@));
                }
                if desired@.contains(t) {
                    let q = choose|q: int| 0 <= q < desired@.len() && desired@[q] == t;
                    assert(pair_in(kept@, id, desired@[q]));
                }
            }
        }
    }
}

/// The characters of each tag name of an optional list.
pub open spec fn opt_views(tags: Option<Vec<String>>) -> Option<Seq<Seq<char>>> {
    match tags {
        Some(l) => Some(views(l@)),
        None => None,
    }
}

/// The tag and usage counters of `old` grew by at most `n` each.
pub open spec fn counters_grew(old: PostStore, new: PostStore, n: nat) -> bool {
    &&& old.next_tag_id <= new.next_tag_id <= old.next_tag_id + n
    &&& old.next_usage_id <= new.next_usage_id <= old.next_usage_id + n
}

/// `n` more tags and `n` more usages can be given ids.
pub open spec fn has_room(s: PostStore, n: nat) -> bool {
    s.next_tag_id + n <= i64::MAX && s.next_usage_id + n <= i64::MAX
}

/// The name of the tag with id `t`.
pub open spec fn tag_name_of(s: PostStore, t: i64) -> Seq<char> {
    choose|n: Seq<char>| names_tag(s, n, t)
}

/// The names of the tags of post `id` that the first `n` usage rows give, in
/// the order of the rows.
pub open spec fn usage_names(s: PostStore, id: i64, n: int) -> Seq<Seq<char>>
    decreases n,
{
    if n <= 0 {
        Seq::empty()
    } else if s.usages@[n - 1].post_id == id {
        usage_names(s, id, n - 1).push(tag_name_of(s, s.usages@[n - 1].tag_id))
    } else {
        usage_names(s, id, n - 1)
    }
}

/// `names` holds exactly the names of the tags of post `id`.
pub open spec fn lists_tags_of(s: PostStore, id: i64, names: Seq<String>) -> bool {
    forall|n: Seq<char>| #[trigger] views(names).contains(n) <==> post_tag_names(s, id).contains(n)
}

/// `d` shows post `id` of `s` with the tag names `s` gives it.
pub open spec fn shows_post(s: PostStore, id: i64, d: PostDetail) -> bool {
    &&& forall|i: int|
        0 <= i < s.posts@.len() && #[trigger] s.posts@[i].id == id ==> {
            &&& d.id == id
            &&& d.title@ == s.posts@[i].title@
            &&& d.content@ == s.posts@[i].rendered_content@
            &&& d.created_at == s.posts@[i].created_at
            &&& d.updated_at == s.posts@[i].updated_at
        }
    &&& d.tags matches Some(v) && lists_tags_of(s, id, v@)
}

/// The message of the failure reported for an unknown post.
pub open spec fn is_unknown_post<T>(r: Result<T, ErrorKind>) -> bool {
    r matches Err(ErrorKind::BusinessException(m)) && m@ == "post not found"@
}

fn unknown_post() -> (e: ErrorKind)
    ensures
        is_unknown_post::<()>(Err(e)),
{
    ErrorKind::BusinessException(String::from_str("post not found"))
}

impl PostStore {
    /// An empty store whose first post will get id 1.
    pub fn new() -> (s: PostStore)
        ensures
            wf(s),
            s.posts@.len() == 0,
            s.tags@.len() == 0,
            s.usages@.len() == 0,
            s.next_post_id == 1,
            s.next_tag_id == 1,
            s.next_usage_id == 1,
    {
        PostStore {
            posts: Vec::new(),
            tags: Vec::new(),
            usages: Vec::new(),
            next_post_id: 1,
            next_tag_id: 1,
            next_usage_id: 1,
        }
    }

    /// An empty store whose first post will get id `first_post_id`, as when
    /// the post table's counter already stands there.
    pub fn with_next_post_id(first_post_id: i64) -> (s: PostStore)
        requires
            0 < first_post_id,
        ensures
            wf(s),
            s.posts@.len() == 0,
            s.tags@.len() == 0,
            s.usages@.len() == 0,
            s.next_post_id == first_post_id,
            s.next_tag_id == 1,
            s.next_usage_id == 1,
    {
        PostStore {
            posts: Vec::new(),
            tags: Vec::new(),
            usages: Vec::new(),
            next_post_id: first_post_id,
            next_tag_id: 1,
            next_usage_id: 1,
        }
    }

    /// Creates an empty draft created at `now` and returns its id. Fails with
    /// an internal error, changing nothing, when no post id is left.
    pub fn create_draft(&mut self, now: i64) -> (r: Result<i64, ErrorKind>)
        requires
            wf(*old(self)),
        ensures
            wf(*final(self)),
            r is Ok <==> old(self).next_post_id < i64::MAX,
            r is Err ==> r == Err::<i64, ErrorKind>(ErrorKind::InternalServerError) && *final(self)
                == *old(self),
            r matches Ok(id) ==> {
                &&& id == old(self).next_post_id
                &&& !has_post(*old(self), id)
                &&& final(self).posts@.len() == old(self).posts@.len() + 1
                &&& final(self).posts@.subrange(0, old(self).posts@.len() as int) == old(self).posts@
                &&& final(self).posts@.last().id == id
                &&& final(self).posts@.last().title@ == Seq::<char>::empty()
                &&& final(self).posts@.last().markdown_content@ == Seq::<char>::empty()
                &&& final(self).posts@.last().rendered_content@ == Seq::<char>::empty()
                &&& final(self).posts@.last().created_at == now
                &&& final(self).posts@.last().updated_at is None
                &&& final(self).tags@ == old(self).tags@
                &&& final(self).usages@ == old(self).usages@
                &&& final(self).next_post_id == id + 1
                &&& final(self).next_tag_id == old(self).next_tag_id
                &&& final(self).next_usage_id == old(self).next_usage_id
            },
    {
        if self.next_post_id == i64::MAX {
            return Err(ErrorKind::InternalServerError);
        }
        let id = self.next_post_id;
        let ghost s0 = *self;
        self.posts.push(
            Post {
                id,
                title: String::new(),
                markdown_content: String::new(),
                rendered_content: String::new(),
                created_at: now,
                updated_at: None,
            },
        );
        self.next_post_id = id + 1;
        proof {
            assert(self.posts@.subrange(0, s0.posts@.len() as int) =~= s0.posts@);
            assert forall|i: int| 0 <= i < s0.posts@.len() implies self.posts@[i] == s0.posts@[i] by {}
            let l = s0.posts@.len() as int;
            assert(self.posts@[l].id == id);
            assert forall|i: int| 0 <= i < self.posts@.len() implies 0 < #[trigger] self.posts@[i].id
                < self.next_post_id by {
                if i < l {
                    assert(self.posts@[i] == s0.posts@[i]);
                }
            }
            assert forall|i: int, j: int|
                0 <= i < self.posts@.len() && 0 <= j < self.posts@.len() && #[trigger] self.posts@[i].id
                    == #[trigger] self.posts@[j].id implies i == j by {
                if i < l {
                    assert(self.posts@[i] == s0.posts@[i]);
                }
                if j < l {
                    assert(self.posts@[j] == s0.posts@[j]);
                }
            }
            assert forall|i: int| 0 <= i < self.usages@.len() implies has_tag_id(*self, self.usages@[i].tag_id) by {
                assert(has_post(s0, s0.usages@[i].post_id));
                assert(has_tag_id(s0, self.usages@[i].tag_id));
                let v = choose|v: int| 0 <= v < s0.tags@.len() && s0.tags@[v].id == s0.usages@[i].tag_id;
                assert(self.tags@[v].id == self.usages@[i].tag_id);
            }
            assert forall|i: int| 0 <= i < self.usages@.len() implies has_post(*self, #[trigger] self.usages@[i].post_id) by {
                assert(has_post(s0, self.usages@[i].post_id));
                let w = choose|w: int| 0 <= w < s0.posts@.len() && s0.posts@[w].id == self.usages@[i].post_id;
                assert(self.posts@[w] == s0.posts@[w]);
            }
        }
        Ok(id)
    }

    /// The name of the tag with id `t`.
    fn tag_name(&self, t: i64) -> (r: String)
        requires
            has_tag_id(*self, t),
        ensures
            names_tag(*self, r@, t),
    {
        let mut i: usize = 0;
        while i < self.tags.len()
            invariant
                i <= self.tags@.len(),
                has_tag_id(*self, t),
                forall|j: int| 0 <= j < i ==> self.tags@[j].id != t,
            decreases self.tags@.len() - i,
        {
            if self.tags[i].id == t {
                return self.tags[i].name.clone();
            }
            i = i + 1;
        }
        proof {
            let w = choose|w: int| 0 <= w < self.tags@.len() && self.tags@[w].id == t;
            assert(false);
        }
        String::new()
    }

    /// The names of the tags of post `id`, in the order of its usage rows.
    fn tag_names_of(&self, id: i64) -> (v: Vec<String>)
        requires
            wf(*self),
        ensures
            lists_tags_of(*self, id, v@),
            views(v@) == usage_names(*self, id, self.usages@.len() as int),
    {
        let mut v: Vec<String> = Vec::new();
        let mut i: usize = 0;
        while i < self.usages.len()
            invariant
                wf(*self),
                i <= self.usages@.len(),
                views(v@) == usage_names(*self, id, i as int),
                forall|n: Seq<char>|
                    #[trigger] views(v@).contains(n) <==> exists|j: int|
                        0 <= j < i && self.usages@[j].post_id == id && names_tag(
                            *self,
                            n,
                            self.usages@[j].tag_id,
                        ),
            decreases self.usages@.len() - i,
        {
            let u = self.usages[i];
            if u.post_id == id {
                assert(has_tag_id(*self, self.usages@[i as int].tag_id));
                let name = self.tag_name(u.tag_id);
                let ghost before = v@;
                v.push(name);
                proof {
                    assert(views(v@) =~= views(before).push(name@));
                    assert(names_tag(*self, tag_name_of(*self, u.tag_id), u.tag_id));
                    lemma_names_of_one_id(*self, name@, tag_name_of(*self, u.tag_id), u.tag_id);
                    assert(views(v@) == usage_names(*self, id, i + 1));
                    assert forall|n: Seq<char>|
                        #[trigger] views(v@).contains(n) <==> exists|j: int|
                            0 <= j < i + 1 && self.usages@[j].post_id == id && names_tag(
                                *self,
                                n,
                                self.usages@[j].tag_id,
                            ) by {
                        if views(v@).contains(n) {
                            if n != name@ {
                                let q = choose|q: int| 0 <= q < views(v@).len() && views(v@)[q] == n;
                                assert(views(before)[q] == n);
                                assert(views(before).contains(n));
                            }
                        }
                        if exists|j: int|
                            0 <= j < i + 1 && self.usages@[j].post_id == id && names_tag(
                                *self,
                                n,
                                self.usages@[j].tag_id,
                            ) {
                            let j = choose|j: int|
                                0 <= j < i + 1 && self.usages@[j].post_id == id && names_tag(
                                    *self,
                                    n,
                                    self.usages@[j].tag_id,
                                );
                            if j == i {
                                lemma_names_of_one_id(*self, n, name@, u.tag_id);
                                assert(views(v@)[views(v@).len() - 1] == n);
                            } else {
                                assert(views(before).contains(n));
                                let q = choose|q: int| 0 <= q < views(before).len() && views(before)[q] == n;
                                assert(views(v@)[q] == n);
                            }
                        }
                    }
                }
            } else {
                proof {
                    assert forall|n: Seq<char>|
                        #[trigger] views(v@).contains(n) <==> exists|j: int|
                            0 <= j < i + 1 && self.usages@[j].post_id == id && names_tag(
                                *self,
                                n,
                                self.usages@[j].tag_id,
                            ) by {
                        if exists|j: int|
                            0 <= j < i + 1 && self.usages@[j].post_id == id && names_tag(
                                *self,
                                n,
                                self.usages@[j].tag_id,
                            ) {
                            let j = choose|j: int|
                                0 <= j < i + 1 && self.usages@[j].post_id == id && names_tag(
                                    *self,
                                    n,
                                    self.usages@[j].tag_id,
                                );
                            assert(j < i);
                        }
                    }
                }
            }
            i = i + 1;
        }
        proof {
            assert forall|n: Seq<char>|
                #[trigger] views(v@).contains(n) <==> post_tag_names(*self, id).contains(n) by {
                if views(v@).contains(n) {
                    let j = choose|j: int|
                        0 <= j < self.usages@.len() && self.usages@[j].post_id == id && names_tag(
                            *self,
                            n,
                            self.usages@[j].tag_id,
                        );
                    assert(has_usage(*self, id, self.usages@[j].tag_id));
                }
                if post_tag_names(*self, id).contains(n) {
                    let t = choose|t: i64| names_tag(*self, n, t) && has_usage(*self, id, t);
                    let j = choose|j: int|
                        0 <= j < self.usages@.len() && self.usages@[j].post_id == id
                            && self.usages@[j].tag_id == t;
                    assert(names_tag(*self, n, self.usages@[j].tag_id));
                }
            }
        }
        v
    }

    /// The detail of post `id` with the names of its tags. Fails with a
    /// business exception when no such post exists.
    pub fn fetch_detail(&self, id: i64) -> (r: Result<PostDetail, ErrorKind>)
        requires
            wf(*self),
        ensures
            r is Ok <==> has_post(*self, id),
            r is Err ==> is_unknown_post(r),
            r matches Ok(d) ==> shows_post(*self, id, d) && (d.tags matches Some(v) && views(v@)
                == usage_names(*self, id, self.usages@.len() as int)),
    {
        match self.find_post(id) {
            None => Err(unknown_post()),
            Some(k) => {
                let mut d = self.posts[k].to_detail();
                d.tags = Some(self.tag_names_of(id));
                Ok(d)
            },
        }
    }
}

/// Two names of one tag id are equal.
pub proof fn lemma_names_of_one_id(s: PostStore, n1: Seq<char>, n2: Seq<char>, t: i64)
    requires
        wf(s),
        names_tag(s, n1, t),
        names_tag(s, n2, t),
    ensures
        n1 == n2,
{
}

/// After a save with a list of tags, the names of the post's tags are exactly
/// the names of the list.
pub proof fn lemma_synced_tag_names(old: PostStore, new: PostStore, id: i64, list: Seq<Seq<char>>)
    requires
        wf(new),
        tags_synced(old, new, id, list),
    ensures
        forall|n: Seq<char>| #[trigger] list.contains(n) <==> post_tag_names(new, id).contains(n),
        post_tag_names(new, id) == list.to_set(),
{
    assert forall|n: Seq<char>| #[trigger] list.contains(n) <==> post_tag_names(new, id).contains(n) by {
        if list.contains(n) {
            let k = choose|k: int| 0 <= k < list.len() && list[k] == n;
            assert(has_tag_named(new, list[k]));
            let j = choose|j: int| 0 <= j < new.tags@.len() && new.tags@[j].name@ == list[k];
            let t = new.tags@[j].id;
            assert(names_tag(new, list[k], t));
            assert(has_usage(new, id, t));
            assert(names_tag(new, n, t) && has_usage(new, id, t));
        }
        if post_tag_names(new, id).contains(n) {
            let t = choose|t: i64| names_tag(new, n, t) && has_usage(new, id, t);
            assert(has_usage(new, id, t));
            let k = choose|k: int| 0 <= k < list.len() && names_tag(new, list[k], t);
            lemma_names_of_one_id(new, n, list[k], t);
        }
    }
    assert(post_tag_names(new, id) =~= list.to_set());
}

impl PostStore {
    /// Saves post `id`: replaces its title and markdown source, stores
    /// `rendered_content` (the rendering of that source) and marks it updated
    /// at `now`. When `tags` is given, the post's tags become exactly the
    /// named ones, tags missing from the vocabulary being created; otherwise
    /// its tags are left alone. Returns the post's detail, with the given tag
    /// list or, without one, the post's current tags.
    ///
    /// Fails with a business exception when the post does not exist, and
    /// with an internal error when ids for the new tags or usages could run
    /// out; a failed save changes nothing.
    pub fn save(
        &mut self,
        id: i64,
        title: String,
        markdown_content: String,
        rendered_content: String,
        tags: Option<Vec<String>>,
        now: i64,
    ) -> (r: Result<PostDetail, ErrorKind>)
        requires
            wf(*old(self)),
        ensures
            wf(*final(self)),
            r is Ok <==> has_post(*old(self), id) && match tags {
                Some(l) => has_room(*old(self), l@.len()),
                None => true,
            },
            !has_post(*old(self), id) ==> is_unknown_post(r),
            has_post(*old(self), id) && r is Err ==> r == Err::<PostDetail, ErrorKind>(
                ErrorKind::InternalServerError,
            ),
            r is Err ==> *final(self) == *old(self),
            r is Ok ==> saved(
                *old(self),
                *final(self),
                id,
                title@,
                markdown_content@,
                rendered_content@,
                opt_views(tags),
                now,
            ),
            r matches Ok(d) ==> shows_post(*final(self), id, d) && (tags is Some ==> d.tags == tags),
            r is Ok ==> final(self).next_post_id == old(self).next_post_id && counters_grew(
                *old(self),
                *final(self),
                match tags {
                    Some(l) => l@.len(),
                    None => 0,
                },
            ),
    {
        let k = match self.find_post(id) {
            None => return Err(unknown_post()),
            Some(k) => k,
        };
        if let Some(list) = &tags {
            let n = list.len() as u64;
            if n > (i64::MAX - self.next_tag_id) as u64 || n > (i64::MAX - self.next_usage_id) as u64 {
                return Err(ErrorKind::InternalServerError);
            }
        }
        let ghost s0 = *self;
        let created_at = self.posts[k].created_at;
        let post = Post {
            id,
            title: title.clone(),
            markdown_content,
            rendered_content: rendered_content.clone(),
            created_at,
            updated_at: Some(now),
        };
        self.posts.set(k, post);
        proof {
            assert forall|i: int| 0 <= i < s0.posts@.len() && i != k implies self.posts@[i] == s0.posts@[i] by {}
            assert forall|i: int| 0 <= i < self.posts@.len() implies #[trigger] self.posts@[i].id == s0.posts@[i].id by {}
            assert forall|i: int, j: int|
                0 <= i < self.posts@.len() && 0 <= j < self.posts@.len() && #[trigger] self.posts@[i].id
                    == #[trigger] self.posts@[j].id implies i == j by {
                assert(s0.posts@[i].id == s0.posts@[j].id);
            }
            assert forall|i: int| 0 <= i < self.usages@.len() implies has_post(*self, #[trigger] self.usages@[i].post_id)
                && has_tag_id(*self, self.usages@[i].tag_id) by {
                assert(has_post(s0, s0.usages@[i].post_id));
                let w = choose|w: int| 0 <= w < s0.posts@.len() && s0.posts@[w].id == s0.usages@[i].post_id;
                assert(self.posts@[w].id == s0.posts@[w].id);
                let v = choose|v: int| 0 <= v < s0.tags@.len() && s0.tags@[v].id == s0.usages@[i].tag_id;
                assert(self.tags@[v].id == self.usages@[i].tag_id);
            }
            assert(wf(*self));
            assert forall|i: int| 0 <= i < s0.posts@.len() && #[trigger] s0.posts@[i].id == id implies i == k by {
                assert(s0.posts@[k as int].id == id);
            }
        }
        let ghost s1 = *self;
        let detail_tags = match tags {
            Some(list) => {
                let desired = self.resolve_tags(&list);
                let ghost s2 = *self;
                proof {
                    assert forall|m: int| 0 <= m < desired@.len() implies has_tag_id(s2, #[trigger] desired@[m]) by {
                        assert(names_tag(s2, list@[m]@, desired@[m]));
                    }
                }
                self.sync_usages(id, &desired);
                proof {
                    let lv = views(list@);
                    let s3 = *self;
                    assert(has_post(s2, id)) by {
                        assert(s2.posts@[k as int].id == id);
                    }
                    assert forall|j: int| s1.tags@.len() <= j < s3.tags@.len() implies lv.contains(#[trigger] s3.tags@[j].name@)
                        && !has_tag_named(s0, s3.tags@[j].name@) by {
                        assert(s3.tags@[j] == s2.tags@[j]);
                        if has_tag_named(s0, s3.tags@[j].name@) {
                            let w = choose|w: int| 0 <= w < s0.tags@.len() && s0.tags@[w].name@ == s3.tags@[j].name@;
                            assert(s1.tags@[w] == s0.tags@[w]);
                        }
                    }
                    assert forall|q: int| 0 <= q < lv.len() implies has_tag_named(s3, #[trigger] lv[q]) by {
                        assert(lv[q] == list@[q]@);
                        assert(names_tag(s2, list@[q]@, desired@[q]));
                    }
                    assert forall|p: i64, t: i64|
                        #![trigger has_usage(s3, p, t)]
                        #![trigger has_usage(s0, p, t)]
                        p != id implies (has_usage(s3, p, t) <==> has_usage(s0, p, t)) by {
                        assert(has_usage(s3, p, t) <==> has_usage(s2, p, t));
                        assert(s2.usages@ == s0.usages@);
                    }
                    assert forall|t: i64|
                        #![trigger has_usage(s3, id, t)]
                        has_usage(s3, id, t) <==> exists|q: int| 0 <= q < lv.len() && names_tag(s3, lv[q], t) by {
                        if has_usage(s3, id, t) {
                            assert(desired@.contains(t));
                            let q = choose|q: int| 0 <= q < desired@.len() && desired@[q] == t;
                            assert(names_tag(s2, list@[q]@, desired@[q]));
                            assert(lv[q] == list@[q]@);
                            assert(names_tag(s3, lv[q], t));
                        }
                        if exists|q: int| 0 <= q < lv.len() && names_tag(s3, lv[q], t) {
                            let q = choose|q: int| 0 <= q < lv.len() && names_tag(s3, lv[q], t);
                            assert(lv[q] == list@[q]@);
                            assert(names_tag(s2, list@[q]@, desired@[q]));
                            lemma_name_gives_one_id(s3, lv[q], t, desired@[q]);
                            assert(desired@.contains(t));
                        }
                    }
                    assert(s3.tags@.subrange(0, s0.tags@.len() as int) == s0.tags@);
                    assert(tags_synced(s0, s3, id, lv));
                    lemma_synced_tag_names(s0, s3, id, lv);
                    assert forall|n: Seq<char>| #[trigger] views(list@).contains(n) <==> post_tag_names(s3, id).contains(n) by {
                        assert(lv.contains(n) <==> post_tag_names(s3, id).contains(n));
                    }
                }
                Some(list)
            },
            None => Some(self.tag_names_of(id)),
        };
        proof {
            assert(self.posts@ == s1.posts@);
        }
        Ok(
            PostDetail {
                id,
                title,
                content: rendered_content,
                tags: detail_tags,
                created_at,
                updated_at: Some(now),
            },
        )
    }
}

} // verus!
