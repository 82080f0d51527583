//! Resolution of wanted tag paths, for one owner, into tags: the tags that
//! are stored already and new tags for the paths that are missing.

use crate::model::tag::{Tag, TagView};
use crate::text::copy_text;
use crate::util::{new_ids, uid_len, Timestamp};
use vstd::prelude::*;

verus! {

/// The views of a sequence of tags.
pub open spec fn tag_views(tags: Seq<Tag>) -> Seq<TagView> {
    tags.map_values(|tag: Tag| tag@)
}

/// Index of the first tag in `tags` at `path`, or the length of `tags` where
/// there is none.
pub open spec fn path_position(tags: Seq<TagView>, path: Seq<char>) -> int
    decreases tags.len(),
{
    if tags.len() == 0 {
        0
    } else {
        let before = path_position(tags.drop_last(), path);
        if before < tags.len() - 1 {
            before
        } else if tags.last().path == path {
            tags.len() - 1
        } else {
            tags.len() as int
        }
    }
}

/// Whether some tag in `tags` is at `path`.
pub open spec fn names_path(tags: Seq<TagView>, path: Seq<char>) -> bool {
    path_position(tags, path) < tags.len()
}

/// Index of the first tag in `tags` that `owner` has at `path`, or the length
/// of `tags` where there is none.
pub open spec fn owned_position(tags: Seq<TagView>, owner: Seq<char>, path: Seq<char>) -> int
    decreases tags.len(),
{
    if tags.len() == 0 {
        0
    } else {
        let before = owned_position(tags.drop_last(), owner, path);
        if before < tags.len() - 1 {
            before
        } else if tags.last().user_id == owner && tags.last().path == path {
            tags.len() - 1
        } else {
            tags.len() as int
        }
    }
}

/// Whether `owner` has a tag at `path` among `tags`.
pub open spec fn owns(tags: Seq<TagView>, owner: Seq<char>, path: Seq<char>) -> bool {
    owned_position(tags, owner, path) < tags.len()
}

/// The tag that `owner` has at `path` among `tags`: the first such tag.
pub open spec fn owned(tags: Seq<TagView>, owner: Seq<char>, path: Seq<char>) -> TagView
    recommends
        owns(tags, owner, path),
{
    tags[owned_position(tags, owner, path)]
}

/// The wanted tags that are missing: each wanted path at which the owner has
/// no stored tag, once, in the order in which the caller first named it.
pub open spec fn missing(owner: Seq<char>, existing: Seq<TagView>, desired: Seq<TagView>) -> Seq<
    TagView,
>
    decreases desired.len(),
{
    if desired.len() == 0 {
        Seq::empty()
    } else {
        let before = desired.drop_last();
        let wanted = desired.last();
        if names_path(before, wanted.path) || owns(existing, owner, wanted.path) {
            missing(owner, existing, before)
        } else {
            missing(owner, existing, before).push(wanted)
        }
    }
}

/// The tags of the wanted paths: for each wanted path at which the owner has
/// a tag in `pool`, once and in the order in which the caller first named
/// it, that tag.
pub open spec fn resolved(owner: Seq<char>, pool: Seq<TagView>, desired: Seq<TagView>) -> Seq<
    TagView,
>
    decreases desired.len(),
{
    if desired.len() == 0 {
        Seq::empty()
    } else {
        let before = desired.drop_last();
        let wanted = desired.last();
        if names_path(before, wanted.path) || !owns(pool, owner, wanted.path) {
            resolved(owner, pool, before)
        } else {
            resolved(owner, pool, before).push(owned(pool, owner, wanted.path))
        }
    }
}

/// A wanted tag as it is created: under the identifier `id`, owned by
/// `owner`, created and last updated at `now`, everything else as wanted.
pub open spec fn planted(wanted: TagView, owner: Seq<char>, id: Seq<char>, now: Timestamp) -> TagView {
    TagView {
        id,
        path: wanted.path,
        prefix: wanted.prefix,
        name: wanted.name,
        label: wanted.label,
        parent_id: wanted.parent_id,
        depth: wanted.depth,
        value_type: wanted.value_type,
        user_id: owner,
        created_at: Some(now),
        updated_at: Some(now),
    }
}

/// The wanted tags `wanted` as they are created under the identifiers `ids`.
pub open spec fn planted_with(
    wanted: Seq<TagView>,
    owner: Seq<char>,
    ids: Seq<Seq<char>>,
    now: Timestamp,
) -> Seq<TagView>
    recommends
        ids.len() == wanted.len(),
{
    Seq::new(wanted.len(), |i: int| planted(wanted[i], owner, ids[i], now))
}

/// Whether `made` is `wanted` as created for `owner` at `now`, each tag under
/// an identifier of the length that new identifiers have.
pub open spec fn newly_planted(
    made: Seq<TagView>,
    wanted: Seq<TagView>,
    owner: Seq<char>,
    now: Timestamp,
) -> bool {
    &&& made.len() == wanted.len()
    &&& forall|i: int|
        0 <= i < made.len() ==> {
            &&& #[trigger] made[i] == planted(wanted[i], owner, made[i].id, now)
            &&& made[i].id.len() == uid_len()
        }
}

/// What resolving wanted tags comes to.
#[derive(Debug, Clone, PartialEq, Eq)]
pub struct Resolution {
    /// The tags to insert: one for each wanted path that was missing.
    pub create: Vec<Tag>,
    /// One tag for each distinct wanted path: the stored tag where there is
    /// one, the new tag otherwise.
    pub tags: Vec<Tag>,
}

impl Resolution {
    /// Whether this is what resolving `desired` for `owner` against the
    /// stored tags `existing` at `now` comes to.
    pub open spec fn resolves(
        self,
        owner: Seq<char>,
        existing: Seq<TagView>,
        desired: Seq<TagView>,
        now: Timestamp,
    ) -> bool {
        &&& newly_planted(tag_views(self.create@), missing(owner, existing, desired), owner, now)
        &&& tag_views(self.tags@) == resolved(owner, existing + tag_views(self.create@), desired)
    }
}

/// What `path_position` finds: an index within bounds or the length, the
/// path at the index, and no such path before it.
pub proof fn lemma_path_position(tags: Seq<TagView>, path: Seq<char>)
    ensures
        0 <= path_position(tags, path) <= tags.len(),
        names_path(tags, path) ==> tags[path_position(tags, path)].path == path,
        forall|i: int| 0 <= i < path_position(tags, path) ==> (#[trigger] tags[i]).path != path,
    decreases tags.len(),
{
    if tags.len() > 0 {
        let before = tags.drop_last();
        lemma_path_position(before, path);
        assert forall|i: int| 0 <= i < path_position(tags, path) implies (#[trigger] tags[i]).path
            != path by {
            if i < before.len() {
                assert(tags[i] == before[i]);
            }
        }
    }
}

/// An index that holds the path, with no such path before it, is what
/// `path_position` finds.
pub proof fn lemma_path_position_is(tags: Seq<TagView>, path: Seq<char>, at: int)
    requires
        0 <= at <= tags.len(),
        at < tags.len() ==> tags[at].path == path,
        forall|i: int| 0 <= i < at ==> (#[trigger] tags[i]).path != path,
    ensures
        path_position(tags, path) == at,
{
    lemma_path_position(tags, path);
}

/// What `owned_position` finds: an index within bounds or the length, the
/// owner and the path at the index, and no such tag before it.
pub proof fn lemma_owned_position(tags: Seq<TagView>, owner: Seq<char>, path: Seq<char>)
    ensures
        0 <= owned_position(tags, owner, path) <= tags.len(),
        owns(tags, owner, path) ==> owned(tags, owner, path).user_id == owner && owned(
            tags,
            owner,
            path,
        ).path == path,
        forall|i: int|
            0 <= i < owned_position(tags, owner, path) ==> !((#[trigger] tags[i]).user_id == owner
                && tags[i].path == path),
    decreases tags.len(),
{
    if tags.len() > 0 {
        let before = tags.drop_last();
        lemma_owned_position(before, owner, path);
        assert forall|i: int| 0 <= i < owned_position(tags, owner, path) implies !((
        #[trigger] tags[i]).user_id == owner && tags[i].path == path) by {
            if i < before.len() {
                assert(tags[i] == before[i]);
            }
        }
    }
}

/// An index that holds a tag of the owner at the path, with no such tag
/// before it, is what `owned_position` finds.
pub proof fn lemma_owned_position_is(
    tags: Seq<TagView>,
    owner: Seq<char>,
    path: Seq<char>,
    at: int,
)
    requires
        0 <= at <= tags.len(),
        at < tags.len() ==> tags[at].user_id == owner && tags[at].path == path,
        forall|i: int|
            0 <= i < at ==> !((#[trigger] tags[i]).user_id == owner && tags[i].path == path),
    ensures
        owned_position(tags, owner, path) == at,
{
    lemma_owned_position(tags, owner, path);
}

/// Index within the first `upto` tags of the first one at `path`, or `upto`
/// where there is none.
fn find_path(tags: &Vec<Tag>, upto: usize, path: &String) -> (at: usize)
    requires
        upto <= tags.len(),
    ensures
        at == path_position(tag_views(tags@).take(upto as int), path@),
        at <= upto,
{
    let ghost head = tag_views(tags@).take(upto as int);
    let mut at: usize = 0;
    while at < upto
        invariant
            at <= upto <= tags.len(),
            head == tag_views(tags@).take(upto as int),
            forall|i: int| 0 <= i < at ==> (#[trigger] head[i]).path != path@,
        decreases upto - at,
    {
        proof {
            assert(head[at as int] == tags@[at as int]@);
        }
        if tags[at].path == *path {
            proof {
                lemma_path_position_is(head, path@, at as int);
            }
            return at;
        }
        at = at + 1;
    }
    proof {
        lemma_path_position_is(head, path@, upto as int);
    }
    at
}

/// Index of the first tag that `owner` has at `path`, or the number of tags
/// where there is none.
fn find_owned(tags: &Vec<Tag>, owner: &String, path: &String) -> (at: usize)
    ensures
        at == owned_position(tag_views(tags@), owner@, path@),
        at <= tags.len(),
{
    let ghost all = tag_views(tags@);
    let mut at: usize = 0;
    while at < tags.len()
        invariant
            at <= tags.len(),
            all == tag_views(tags@),
            forall|i: int|
                0 <= i < at ==> !((#[trigger] all[i]).user_id == owner@ && all[i].path == path@),
        decreases tags.len() - at,
    {
        proof {
            assert(all[at as int] == tags@[at as int]@);
        }
        if tags[at].user_id == *owner && tags[at].path == *path {
            proof {
                lemma_owned_position_is(all, owner@, path@, at as int);
            }
            return at;
        }
        at = at + 1;
    }
    proof {
        lemma_owned_position_is(all, owner@, path@, tags.len() as int);
    }
    at
}

/// The wanted tags that are missing among the stored tags `existing` of
/// `owner`: one for each wanted path at which the owner has no tag.
pub fn missing_tags(owner: &String, existing: &Vec<Tag>, desired: &Vec<Tag>) -> (wanted: Vec<Tag>)
    ensures
        tag_views(wanted@) == missing(owner@, tag_views(existing@), tag_views(desired@)),
{
    let ghost stored_views = tag_views(existing@);
    let ghost wanted_views = tag_views(desired@);
    let mut wanted: Vec<Tag> = Vec::new();
    let mut i: usize = 0;
    while i < desired.len()
        invariant
            i <= desired.len(),
            stored_views == tag_views(existing@),
            wanted_views == tag_views(desired@),
            tag_views(wanted@) == missing(owner@, stored_views, wanted_views.take(i as int)),
        decreases desired.len() - i,
    {
        let earlier = find_path(desired, i, &desired[i].path);
        let at = find_owned(existing, owner, &desired[i].path);
        proof {
            let next = wanted_views.take(i + 1);
            assert(next.drop_last() == wanted_views.take(i as int));
            assert(next.last() == desired@[i as int]@);
        }
        if earlier == i && at == existing.len() {
            let template = desired[i].duplicate();
            proof {
                assert(tag_views(wanted@.push(template)) == tag_views(wanted@).push(template@));
            }
            wanted.push(template);
        }
        i = i + 1;
    }
    proof {
        assert(wanted_views.take(desired.len() as int) == wanted_views);
    }
    wanted
}

/// The wanted tags as they are created for `owner` at `now`, under the
/// identifiers `ids` in order.
pub fn plant(wanted: &Vec<Tag>, owner: &String, ids: &Vec<String>, now: Timestamp) -> (made: Vec<
    Tag,
>)
    requires
        ids.len() == wanted.len(),
    ensures
        tag_views(made@) == planted_with(
            tag_views(wanted@),
            owner@,
            ids@.map_values(|id: String| id@),
            now,
        ),
{
    let mut made: Vec<Tag> = Vec::new();
    let mut i: usize = 0;
    while i < wanted.len()
        invariant
            i <= wanted.len(),
            ids.len() == wanted.len(),
            made.len() == i,
            forall|k: int|
                0 <= k < i ==> (#[trigger] made@[k])@ == planted(
                    wanted@[k]@,
                    owner@,
                    ids@[k]@,
                    now,
                ),
        decreases wanted.len() - i,
    {
        let tag = Tag {
            id: ids[i].clone(),
            path: wanted[i].path.clone(),
            prefix: wanted[i].prefix.clone(),
            name: wanted[i].name.clone(),
            label: copy_text(&wanted[i].label),
            parent_id: copy_text(&wanted[i].parent_id),
            depth: wanted[i].depth,
            value_type: copy_text(&wanted[i].value_type),
            user_id: owner.clone(),
            created_at: Some(now),
            updated_at: Some(now),
        };
        made.push(tag);
        i = i + 1;
    }
    proof {
        assert(tag_views(made@) =~= planted_with(
            tag_views(wanted@),
            owner@,
            ids@.map_values(|id: String| id@),
            now,
        ));
    }
    made
}

/// The tags of the wanted paths among `first` followed by `second`: for each
/// distinct wanted path at which `owner` has a tag there, that tag.
pub fn lookup(owner: &String, first: &Vec<Tag>, second: &Vec<Tag>, desired: &Vec<Tag>) -> (tags:
    Vec<Tag>)
    ensures
        tag_views(tags@) == resolved(
            owner@,
            tag_views(first@) + tag_views(second@),
            tag_views(desired@),
        ),
{
    let ghost pool = tag_views(first@) + tag_views(second@);
    let ghost wanted_views = tag_views(desired@);
    let mut tags: Vec<Tag> = Vec::new();
    let mut i: usize = 0;
    while i < desired.len()
        invariant
            i <= desired.len(),
            pool == tag_views(first@) + tag_views(second@),
            wanted_views == tag_views(desired@),
            tag_views(tags@) == resolved(owner@, pool, wanted_views.take(i as int)),
        decreases desired.len() - i,
    {
        let earlier = find_path(desired, i, &desired[i].path);
        let at = find_owned(first, owner, &desired[i].path);
        let behind = find_owned(second, owner, &desired[i].path);
        proof {
            let next = wanted_views.take(i + 1);
            assert(next.drop_last() == wanted_views.take(i as int));
            assert(next.last() == desired@[i as int]@);
            lemma_owned_position_concat(
                tag_views(first@),
                tag_views(second@),
                owner@,
                desired@[i as int]@.path,
            );
        }
        if earlier == i {
            if at < first.len() {
                let found = first[at].duplicate();
                proof {
                    assert(tag_views(tags@.push(found)) == tag_views(tags@).push(found@));
                    assert(pool[at as int] == first@[at as int]@);
                }
                tags.push(found);
            } else if behind < second.len() {
                let found = second[behind].duplicate();
                proof {
                    assert(tag_views(tags@.push(found)) == tag_views(tags@).push(found@));
                    assert(pool[first.len() + behind] == second@[behind as int]@);
                }
                tags.push(found);
            }
        }
        i = i + 1;
    }
    proof {
        assert(wanted_views.take(desired.len() as int) == wanted_views);
    }
    tags
}

/// The first tag of an owner at a path in a concatenation is the first one in
/// the front part or, where the front part has none, the first one in the
/// back part.
pub proof fn lemma_owned_position_concat(
    a: Seq<TagView>,
    b: Seq<TagView>,
    owner: Seq<char>,
    path: Seq<char>,
)
    ensures
        owned_position(a + b, owner, path) == if owns(a, owner, path) {
            owned_position(a, owner, path)
        } else {
            a.len() + owned_position(b, owner, path)
        },
{
    lemma_owned_position(a, owner, path);
    lemma_owned_position(b, owner, path);
    let all = a + b;
    let at = if owns(a, owner, path) {
        owned_position(a, owner, path)
    } else {
        a.len() + owned_position(b, owner, path)
    };
    assert forall|i: int| 0 <= i < at implies !((#[trigger] all[i]).user_id == owner && all[i].path
        == path) by {
        if i < a.len() {
            assert(all[i] == a[i]);
        } else {
            assert(all[i] == b[i - a.len()]);
        }
    }
    if at < all.len() {
        if owns(a, owner, path) {
            assert(all[at] == a[at]);
        } else {
            assert(all[at] == b[at - a.len()]);
        }
    }
    lemma_owned_position_is(all, owner, path, at);
}

/// Resolves the wanted tags `desired` for `owner` against the stored tags
/// `existing`: a new tag, under a new identifier and stamped `now`, for each
/// wanted path at which the owner has no stored tag, and one tag for each
/// distinct wanted path, in the caller's order.
pub fn resolve(owner: &String, existing: &Vec<Tag>, desired: &Vec<Tag>, now: Timestamp) -> (found:
    Resolution)
    ensures
        found.resolves(owner@, tag_views(existing@), tag_views(desired@), now),
{
    let wanted = missing_tags(owner, existing, desired);
    let ids = new_ids(wanted.len());
    let create = plant(&wanted, owner, &ids, now);
    let tags = lookup(owner, existing, &create, desired);
    Resolution { create, tags }
}

/// The wanted paths, each once, in the order in which the caller first
/// named it.
pub open spec fn distinct_paths(desired: Seq<TagView>) -> Seq<Seq<char>>
    decreases desired.len(),
{
    if desired.len() == 0 {
        Seq::empty()
    } else {
        let before = desired.drop_last();
        if names_path(before, desired.last().path) {
            distinct_paths(before)
        } else {
            distinct_paths(before).push(desired.last().path)
        }
    }
}

/// The paths of a sequence of tags.
pub open spec fn paths_of(tags: Seq<TagView>) -> Seq<Seq<char>> {
    tags.map_values(|tag: TagView| tag.path)
}

/// A path is named in a sequence exactly when some index holds it.
pub proof fn lemma_names_path(tags: Seq<TagView>, path: Seq<char>)
    ensures
        names_path(tags, path) <==> exists|i: int|
            0 <= i < tags.len() && (#[trigger] tags[i]).path == path,
{
    lemma_path_position(tags, path);
    if names_path(tags, path) {
        assert(tags[path_position(tags, path)].path == path);
    }
}

/// An owner has a tag at a path exactly when some index holds such a tag.
pub proof fn lemma_owns(tags: Seq<TagView>, owner: Seq<char>, path: Seq<char>)
    ensures
        owns(tags, owner, path) <==> exists|i: int|
            0 <= i < tags.len() && (#[trigger] tags[i]).user_id == owner && tags[i].path == path,
{
    lemma_owned_position(tags, owner, path);
    if owns(tags, owner, path) {
        let at = owned_position(tags, owner, path);
        assert(tags[at].user_id == owner && tags[at].path == path);
    }
}

/// The missing tags are at exactly the wanted paths at which the owner has
/// no stored tag.
pub proof fn missing_paths_are_wanted_not_stored(
    owner: Seq<char>,
    existing: Seq<TagView>,
    desired: Seq<TagView>,
    path: Seq<char>,
)
    ensures
        names_path(missing(owner, existing, desired), path) <==> names_path(desired, path)
            && !owns(existing, owner, path),
    decreases desired.len(),
{
    if desired.len() > 0 {
        let before = desired.drop_last();
        let wanted = desired.last();
        missing_paths_are_wanted_not_stored(owner, existing, before, path);
        if !(names_path(before, wanted.path) || owns(existing, owner, wanted.path)) {
            assert(missing(owner, existing, before).push(wanted).drop_last() == missing(
                owner,
                existing,
                before,
            ));
        }
    }
}

/// Once the missing tags are created, the owner has a tag at every wanted
/// path.
pub proof fn every_wanted_path_is_owned(
    owner: Seq<char>,
    existing: Seq<TagView>,
    desired: Seq<TagView>,
    created: Seq<TagView>,
    now: Timestamp,
    path: Seq<char>,
)
    requires
        newly_planted(created, missing(owner, existing, desired), owner, now),
        names_path(desired, path),
    ensures
        owns(existing + created, owner, path),
{
    let wanted = missing(owner, existing, desired);
    lemma_owned_position_concat(existing, created, owner, path);
    lemma_owned_position(created, owner, path);
    if !owns(existing, owner, path) {
        missing_paths_are_wanted_not_stored(owner, existing, desired, path);
        lemma_names_path(wanted, path);
        let at = choose|at: int| 0 <= at < wanted.len() && (#[trigger] wanted[at]).path == path;
        assert(created[at] == planted(wanted[at], owner, created[at].id, now));
        lemma_owns(created, owner, path);
    }
}

/// Resolving gives exactly one tag for each distinct wanted path, whatever
/// paths the caller named twice: the paths of the resolved tags are the
/// wanted paths, each once, in the caller's order, and each resolved tag
/// belongs to the owner.
pub proof fn one_tag_per_wanted_path(
    owner: Seq<char>,
    existing: Seq<TagView>,
    desired: Seq<TagView>,
    created: Seq<TagView>,
    now: Timestamp,
)
    requires
        newly_planted(created, missing(owner, existing, desired), owner, now),
    ensures
        paths_of(resolved(owner, existing + created, desired)) == distinct_paths(desired),
        forall|i: int|
            0 <= i < resolved(owner, existing + created, desired).len() ==> (#[trigger] resolved(
                owner,
                existing + created,
                desired,
            )[i]).user_id == owner,
{
    let pool = existing + created;
    assert forall|i: int| 0 <= i < desired.len() implies owns(
        pool,
        owner,
        (#[trigger] desired[i]).path,
    ) by {
        lemma_names_path(desired, desired[i].path);
        every_wanted_path_is_owned(owner, existing, desired, created, now, desired[i].path);
    }
    lemma_resolved_paths(owner, pool, desired);
}

/// Where the owner has a tag at every wanted path, the resolved tags are at
/// the distinct wanted paths and belong to the owner.
proof fn lemma_resolved_paths(owner: Seq<char>, pool: Seq<TagView>, desired: Seq<TagView>)
    requires
        forall|i: int| 0 <= i < desired.len() ==> owns(pool, owner, (#[trigger] desired[i]).path),
    ensures
        paths_of(resolved(owner, pool, desired)) == distinct_paths(desired),
        forall|i: int|
            0 <= i < resolved(owner, pool, desired).len() ==> (#[trigger] resolved(
                owner,
                pool,
                desired,
            )[i]).user_id == owner,
    decreases desired.len(),
{
    if desired.len() > 0 {
        let before = desired.drop_last();
        let wanted = desired.last();
        assert forall|i: int| 0 <= i < before.len() implies owns(
            pool,
            owner,
            (#[trigger] before[i]).path,
        ) by {
            assert(before[i] == desired[i]);
        }
        lemma_resolved_paths(owner, pool, before);
        assert(owns(pool, owner, desired[desired.len() - 1].path));
        lemma_owned_position(pool, owner, wanted.path);
        let rest = resolved(owner, pool, before);
        if !names_path(before, wanted.path) {
            let found = owned(pool, owner, wanted.path);
            assert(paths_of(rest.push(found)) == paths_of(rest).push(found.path));
            assert forall|i: int| 0 <= i < rest.push(found).len() implies (
            #[trigger] rest.push(found)[i]).user_id == owner by {
                if i < rest.len() {
                    assert(rest.push(found)[i] == rest[i]);
                }
            }
        }
    } else {
        assert(paths_of(Seq::<TagView>::empty()) == Seq::<Seq<char>>::empty());
    }
}

/// A tag that is stored keeps its identity: where the owner has a stored tag
/// at a wanted path, that stored tag, under its stored identifier, is the
/// one resolved, whatever tags were created beside it.
pub proof fn stored_tags_are_kept(
    owner: Seq<char>,
    existing: Seq<TagView>,
    created: Seq<TagView>,
    path: Seq<char>,
)
    requires
        owns(existing, owner, path),
    ensures
        owns(existing + created, owner, path),
        owned(existing + created, owner, path) == owned(existing, owner, path),
{
    lemma_owned_position_concat(existing, created, owner, path);
    lemma_owned_position(existing, owner, path);
}

/// Resolving again finds the same tags: once the tags created by a first
/// resolution are stored, a second resolution of the same wanted paths for
/// the same owner finds nothing missing.
pub proof fn nothing_missing_after_resolution(
    owner: Seq<char>,
    existing: Seq<TagView>,
    desired: Seq<TagView>,
    created: Seq<TagView>,
    now: Timestamp,
)
    requires
        newly_planted(created, missing(owner, existing, desired), owner, now),
    ensures
        missing(owner, existing + created, desired) == Seq::<TagView>::empty(),
{
    let pool = existing + created;
    assert forall|i: int| 0 <= i < desired.len() implies owns(
        pool,
        owner,
        (#[trigger] desired[i]).path,
    ) by {
        lemma_names_path(desired, desired[i].path);
        every_wanted_path_is_owned(owner, existing, desired, created, now, desired[i].path);
    }
    lemma_nothing_missing(owner, pool, desired);
}

/// Where the owner has a tag at every wanted path, nothing is missing.
proof fn lemma_nothing_missing(owner: Seq<char>, pool: Seq<TagView>, desired: Seq<TagView>)
    requires
        forall|i: int| 0 <= i < desired.len() ==> owns(pool, owner, (#[trigger] desired[i]).path),
    ensures
        missing(owner, pool, desired) == Seq::<TagView>::empty(),
    decreases desired.len(),
{
    if desired.len() > 0 {
        let before = desired.drop_last();
        assert forall|i: int| 0 <= i < before.len() implies owns(
            pool,
            owner,
            (#[trigger] before[i]).path,
        ) by {
            assert(before[i] == desired[i]);
        }
        lemma_nothing_missing(owner, pool, before);
        assert(owns(pool, owner, desired[desired.len() - 1].path));
    }
}

/// Repeated resolution is stable: a second resolution, made at any later
/// time `later` against the stored tags together with those that the first
/// one created, creates nothing and resolves to the same tags, each under
/// the identifier it had.
pub proof fn resolving_again_gives_the_same_tags(
    owner: Seq<char>,
    existing: Seq<TagView>,
    desired: Seq<TagView>,
    first: Resolution,
    second: Resolution,
    now: Timestamp,
    later: Timestamp,
)
    requires
        first.resolves(owner, existing, desired, now),
        second.resolves(owner, existing + tag_views(first.create@), desired, later),
    ensures
        second.create@.len() == 0,
        tag_views(second.tags@) == tag_views(first.tags@),
{
    let created = tag_views(first.create@);
    nothing_missing_after_resolution(owner, existing, desired, created, now);
    assert(tag_views(second.create@).len() == 0);
    assert((existing + created) + tag_views(second.create@) == existing + created);
}

} // verus!
