//! Tags in requests and responses, and tags together with the associations
//! that attach them to an entity.

use crate::database::query::{Query, Row};
use crate::error::Error;
use crate::model::tag::{tag_at, Tag, TagView, TaggedItem, TaggedItemView, TaggedType};
use crate::repo::tagged::{
    all_decode, referenced, row_views, select_statement, stored_items, sync_tagged_items,
    sync_tagged_items_query, TaggedSync,
};
use crate::path::depth_of;
use crate::reconcile::item_views;
use crate::resolve::{lemma_owned_position_is, owned, owns, tag_views};
use crate::text::{copy_text, text_of};
use crate::util::Timestamp;
use vstd::prelude::*;

verus! {

/// A tag as it is sent in a response.
#[derive(Debug, Clone, PartialEq, Eq)]
pub struct TagResponse {
    pub id: String,
    pub path: String,
    pub prefix: String,
    pub name: String,
    pub label: Option<String>,
    pub parent_id: Option<String>,
    pub depth: u32,
    pub value_type: Option<String>,
    pub user_id: String,
    pub created_at: Option<Timestamp>,
    pub updated_at: Option<Timestamp>,
}

impl View for TagResponse {
    type V = TagView;

    open spec fn view(&self) -> TagView {
        TagView {
            id: self.id@,
            path: self.path@,
            prefix: self.prefix@,
            name: self.name@,
            label: text_of(self.label),
            parent_id: text_of(self.parent_id),
            depth: self.depth,
            value_type: text_of(self.value_type),
            user_id: self.user_id@,
            created_at: self.created_at,
            updated_at: self.updated_at,
        }
    }
}

impl TagResponse {
    /// The response that shows `tag`: every field as it is in the tag.
    pub fn from_tag(tag: Tag) -> (response: TagResponse)
        ensures
            response@ == tag@,
    {
        TagResponse {
            id: tag.id,
            path: tag.path,
            prefix: tag.prefix,
            name: tag.name,
            label: tag.label,
            parent_id: tag.parent_id,
            depth: tag.depth,
            value_type: tag.value_type,
            user_id: tag.user_id,
            created_at: tag.created_at,
            updated_at: tag.updated_at,
        }
    }
}

/// The request to create a tag.
#[derive(Debug, Clone, PartialEq, Eq)]
pub struct CreateTagRequest {
    pub path: String,
    pub label: Option<String>,
    pub value_type: Option<String>,
}

/// The request to change a tag. A field that is `None` is left as it is.
#[derive(Debug, Clone, PartialEq, Eq)]
pub struct UpdatedTagRequest {
    pub path: Option<String>,
    pub label: Option<String>,
    pub value_type: Option<String>,
}

/// The tag that a request to create one asks for: the tag at the path of the
/// request, owned by `owner`, with the label and the value type of the
/// request.
pub open spec fn requested_tag(
    owner: Seq<char>,
    path: Seq<char>,
    label: Option<Seq<char>>,
    value_type: Option<Seq<char>>,
) -> TagView {
    TagView {
        id: tag_at(path).id,
        path: tag_at(path).path,
        prefix: tag_at(path).prefix,
        name: tag_at(path).name,
        label,
        parent_id: None,
        depth: tag_at(path).depth,
        value_type,
        user_id: owner,
        created_at: None,
        updated_at: None,
    }
}

/// `wanted` where it is given, `kept` otherwise.
pub open spec fn replaced(kept: Option<Seq<char>>, wanted: Option<Seq<char>>) -> Option<Seq<char>> {
    match wanted {
        Some(w) => Some(w),
        None => kept,
    }
}

/// `tag` as a request to change it leaves it: the label and the value type
/// are those of the request where it gives them.
pub open spec fn amended_tag(
    tag: TagView,
    label: Option<Seq<char>>,
    value_type: Option<Seq<char>>,
) -> TagView {
    TagView {
        id: tag.id,
        path: tag.path,
        prefix: tag.prefix,
        name: tag.name,
        label: replaced(tag.label, label),
        parent_id: tag.parent_id,
        depth: tag.depth,
        value_type: replaced(tag.value_type, value_type),
        user_id: tag.user_id,
        created_at: tag.created_at,
        updated_at: tag.updated_at,
    }
}

/// `wanted` where it is given, `kept` otherwise.
pub fn replace_text(kept: Option<String>, wanted: &Option<String>) -> (text: Option<String>)
    ensures
        text_of(text) == replaced(text_of(kept), text_of(*wanted)),
{
    match wanted {
        Some(w) => Some(w.clone()),
        None => kept,
    }
}

impl CreateTagRequest {
    /// The tag that this request asks for, owned by `owner`. `None` exactly
    /// where the path has more segments than the depth of a tag can count.
    pub fn tag(&self, owner: String) -> (tag: Option<Tag>)
        ensures
            tag is Some <==> depth_of(self.path@) <= u32::MAX,
            tag is Some ==> tag->0@ == requested_tag(
                owner@,
                self.path@,
                text_of(self.label),
                text_of(self.value_type),
            ),
    {
        match Tag::checked_from_path(self.path.clone()) {
            Some(made) => Some(
                Tag {
                    id: made.id,
                    path: made.path,
                    prefix: made.prefix,
                    name: made.name,
                    label: copy_text(&self.label),
                    parent_id: None,
                    depth: made.depth,
                    value_type: copy_text(&self.value_type),
                    user_id: owner,
                    created_at: None,
                    updated_at: None,
                },
            ),
            None => None,
        }
    }
}

impl UpdatedTagRequest {
    /// `tag` as this request leaves it.
    pub fn amend(&self, tag: Tag) -> (amended: Tag)
        ensures
            amended@ == amended_tag(tag@, text_of(self.label), text_of(self.value_type)),
    {
        Tag {
            id: tag.id,
            path: tag.path,
            prefix: tag.prefix,
            name: tag.name,
            label: replace_text(tag.label, &self.label),
            parent_id: tag.parent_id,
            depth: tag.depth,
            value_type: replace_text(tag.value_type, &self.value_type),
            user_id: tag.user_id,
            created_at: tag.created_at,
            updated_at: tag.updated_at,
        }
    }
}

/// A tag together with the association that attaches it to an entity.
#[derive(Debug, Clone, PartialEq, Eq)]
pub struct TaggedData(pub Tag, pub TaggedItem);

/// What a tag with its association holds: the tag, then the association.
pub type TaggedDataView = (TagView, TaggedItemView);

impl View for TaggedData {
    type V = TaggedDataView;

    open spec fn view(&self) -> TaggedDataView {
        (self.0@, self.1@)
    }
}

impl TaggedData {
    /// A copy of this tag and its association.
    pub fn duplicate(&self) -> (copy: TaggedData)
        ensures
            copy@ == self@,
    {
        TaggedData(self.0.duplicate(), self.1.duplicate())
    }
}

/// The views of a sequence of tags with their associations.
pub open spec fn data_views(data: Seq<TaggedData>) -> Seq<TaggedDataView> {
    data.map_values(|entry: TaggedData| entry@)
}

/// The tags of a sequence of tags with their associations.
pub open spec fn tags_of(data: Seq<TaggedDataView>) -> Seq<TagView> {
    data.map_values(|entry: TaggedDataView| entry.0)
}

/// The entries of `data` whose association refers to `ref_id`, in order.
pub open spec fn attached_to(data: Seq<TaggedDataView>, ref_id: Seq<char>) -> Seq<TaggedDataView> {
    data.filter(|entry: TaggedDataView| entry.1.ref_id == ref_id)
}

/// Tags with their associations, as found or committed for a number of
/// entities.
#[derive(Debug, Clone, PartialEq, Eq)]
pub struct TaggedResult {
    pub data: Vec<TaggedData>,
}

impl View for TaggedResult {
    type V = Seq<TaggedDataView>;

    open spec fn view(&self) -> Seq<TaggedDataView> {
        data_views(self.data@)
    }
}

impl TaggedResult {
    /// The tags attached to the entity `ref_id`, each with its association,
    /// in order.
    pub fn find_tags(&self, ref_id: String) -> (found: Vec<TaggedData>)
        ensures
            data_views(found@) == attached_to(self@, ref_id@),
    {
        let ghost all = data_views(self.data@);
        let ghost wanted = |entry: TaggedDataView| entry.1.ref_id == ref_id@;
        let mut found: Vec<TaggedData> = Vec::new();
        let mut i: usize = 0;
        proof {
            assert(all.take(0).filter(wanted) =~= Seq::<TaggedDataView>::empty());
        }
        while i < self.data.len()
            invariant
                i <= self.data.len(),
                all == data_views(self.data@),
                wanted == |entry: TaggedDataView| entry.1.ref_id == ref_id@,
                data_views(found@) == all.take(i as int).filter(wanted),
            decreases self.data.len() - i,
        {
            proof {
                assert(all.take(i + 1).drop_last() == all.take(i as int));
                assert(all.take(i + 1).last() == self.data@[i as int]@);
                reveal(Seq::filter);
            }
            if self.data[i].1.ref_id == ref_id {
                let entry = self.data[i].duplicate();
                proof {
                    assert(data_views(found@.push(entry)) == data_views(found@).push(entry@));
                }
                found.push(entry);
            }
            i = i + 1;
        }
        proof {
            assert(all.take(self.data.len() as int) == all);
        }
        found
    }
}

/// The association that attaches the tag `owner` has at the path of a wanted
/// tag to the entity `ref_id`: the identifier of the resolved tag is the tag
/// of the association, the value is the wanted one.
pub open spec fn attachment(
    owner: Seq<char>,
    ref_id: Seq<char>,
    resolved: Seq<TagView>,
    wanted: TaggedDataView,
) -> TaggedItemView {
    TaggedItemView {
        id: wanted.1.id,
        ref_id,
        tag_id: owned(resolved, owner, wanted.0.path).id,
        value: wanted.1.value,
    }
}

/// The associations that attach the resolved tags to the entity `ref_id`:
/// one for each wanted entry whose tag was resolved, in order.
pub open spec fn attachments(
    owner: Seq<char>,
    ref_id: Seq<char>,
    resolved: Seq<TagView>,
    data: Seq<TaggedDataView>,
) -> Seq<TaggedItemView>
    decreases data.len(),
{
    if data.len() == 0 {
        Seq::empty()
    } else {
        let before = attachments(owner, ref_id, resolved, data.drop_last());
        if owns(resolved, owner, data.last().0.path) {
            before.push(attachment(owner, ref_id, resolved, data.last()))
        } else {
            before
        }
    }
}

/// Index of the first tag in `tags` under the identifier `id`, or the length
/// of `tags` where there is none.
pub open spec fn id_position(tags: Seq<TagView>, id: Seq<char>) -> int
    decreases tags.len(),
{
    if tags.len() == 0 {
        0
    } else {
        let before = id_position(tags.drop_last(), id);
        if before < tags.len() - 1 {
            before
        } else if tags.last().id == id {
            tags.len() - 1
        } else {
            tags.len() as int
        }
    }
}

/// Each association together with its tag: for each of `items` whose tag is
/// among `tags`, in order, the first tag under that identifier and the
/// association.
pub open spec fn paired(tags: Seq<TagView>, items: Seq<TaggedItemView>) -> Seq<TaggedDataView>
    decreases items.len(),
{
    if items.len() == 0 {
        Seq::empty()
    } else {
        let before = paired(tags, items.drop_last());
        let at = id_position(tags, items.last().tag_id);
        if at < tags.len() {
            before.push((tags[at], items.last()))
        } else {
            before
        }
    }
}

/// What `id_position` finds: an index within bounds or the length, the
/// identifier at the index, and no such identifier before it.
pub proof fn lemma_id_position(tags: Seq<TagView>, id: Seq<char>)
    ensures
        0 <= id_position(tags, id) <= tags.len(),
        id_position(tags, id) < tags.len() ==> tags[id_position(tags, id)].id == id,
        forall|i: int| 0 <= i < id_position(tags, id) ==> (#[trigger] tags[i]).id != id,
    decreases tags.len(),
{
    if tags.len() > 0 {
        let before = tags.drop_last();
        lemma_id_position(before, id);
        assert forall|i: int| 0 <= i < id_position(tags, id) implies (#[trigger] tags[i]).id
            != id by {
            if i < before.len() {
                assert(tags[i] == before[i]);
            }
        }
    }
}

/// The wanted tags of `data`, in order: what is resolved before the tags are
/// attached.
pub fn wanted_tags(data: &Vec<TaggedData>) -> (tags: Vec<Tag>)
    ensures
        tag_views(tags@) == tags_of(data_views(data@)),
{
    let mut tags: Vec<Tag> = Vec::new();
    let mut i: usize = 0;
    while i < data.len()
        invariant
            i <= data.len(),
            tags.len() == i,
            forall|k: int| 0 <= k < i ==> (#[trigger] tags@[k])@ == data@[k]@.0,
        decreases data.len() - i,
    {
        tags.push(data[i].0.duplicate());
        i = i + 1;
    }
    proof {
        assert(tag_views(tags@) =~= tags_of(data_views(data@)));
    }
    tags
}

/// The associations that attach the tags `resolved` for `owner` to the
/// entity `ref_id`, as `data` wants them.
pub fn attach(owner: &String, ref_id: &String, resolved: &Vec<Tag>, data: &Vec<TaggedData>) -> (items:
    Vec<TaggedItem>)
    ensures
        item_views(items@) == attachments(
            owner@,
            ref_id@,
            tag_views(resolved@),
            data_views(data@),
        ),
{
    let ghost pool = tag_views(resolved@);
    let ghost all = data_views(data@);
    let mut items: Vec<TaggedItem> = Vec::new();
    let mut i: usize = 0;
    while i < data.len()
        invariant
            i <= data.len(),
            pool == tag_views(resolved@),
            all == data_views(data@),
            item_views(items@) == attachments(owner@, ref_id@, pool, all.take(i as int)),
        decreases data.len() - i,
    {
        let mut at: usize = 0;
        while at < resolved.len() && !(resolved[at].user_id == *owner && resolved[at].path
            == data[i].0.path)
            invariant
                at <= resolved.len(),
                i < data.len(),
                pool == tag_views(resolved@),
                forall|k: int|
                    0 <= k < at ==> !((#[trigger] pool[k]).user_id == owner@ && pool[k].path
                        == data@[i as int]@.0.path),
            decreases resolved.len() - at,
        {
            proof {
                assert(pool[at as int] == resolved@[at as int]@);
            }
            at = at + 1;
        }
        proof {
            assert(all.take(i + 1).drop_last() == all.take(i as int));
            assert(all.take(i + 1).last() == data@[i as int]@);
            if at < resolved.len() {
                assert(pool[at as int] == resolved@[at as int]@);
            }
            lemma_owned_position_is(
                pool,
                owner@,
                data@[i as int]@.0.path,
                at as int,
            );
        }
        if at < resolved.len() {
            let item = TaggedItem {
                id: data[i].1.id.clone(),
                ref_id: ref_id.clone(),
                tag_id: resolved[at].id.clone(),
                value: copy_text(&data[i].1.value),
            };
            proof {
                assert(item_views(items@.push(item)) == item_views(items@).push(item@));
            }
            items.push(item);
        }
        i = i + 1;
    }
    proof {
        assert(all.take(data.len() as int) == all);
    }
    items
}

/// Each of `items` together with its tag among `tags`.
pub fn pair(tags: &Vec<Tag>, items: &Vec<TaggedItem>) -> (result: TaggedResult)
    ensures
        result@ == paired(tag_views(tags@), item_views(items@)),
{
    let ghost pool = tag_views(tags@);
    let ghost all = item_views(items@);
    let mut data: Vec<TaggedData> = Vec::new();
    let mut i: usize = 0;
    while i < items.len()
        invariant
            i <= items.len(),
            pool == tag_views(tags@),
            all == item_views(items@),
            data_views(data@) == paired(pool, all.take(i as int)),
        decreases items.len() - i,
    {
        let mut at: usize = 0;
        while at < tags.len() && tags[at].id != items[i].tag_id
            invariant
                at <= tags.len(),
                i < items.len(),
                pool == tag_views(tags@),
                forall|k: int| 0 <= k < at ==> (#[trigger] pool[k]).id != items@[i as int]@.tag_id,
            decreases tags.len() - at,
        {
            proof {
                assert(pool[at as int] == tags@[at as int]@);
            }
            at = at + 1;
        }
        proof {
            assert(all.take(i + 1).drop_last() == all.take(i as int));
            assert(all.take(i + 1).last() == items@[i as int]@);
            if at < tags.len() {
                assert(pool[at as int] == tags@[at as int]@);
            }
            lemma_id_position(pool, items@[i as int]@.tag_id);
        }
        if at < tags.len() {
            let entry = TaggedData(tags[at].duplicate(), items[i].duplicate());
            proof {
                assert(data_views(data@.push(entry)) == data_views(data@).push(entry@));
            }
            data.push(entry);
        }
        i = i + 1;
    }
    proof {
        assert(all.take(items.len() as int) == all);
    }
    TaggedResult { data }
}

/// What synchronising the tags wanted on one entity comes to: the
/// associations wanted, and their synchronisation with the stored ones.
#[derive(Debug)]
pub struct TaggedDataSync {
    /// The associations that attach the resolved tags to the entity.
    pub items: Vec<TaggedItem>,
    /// The synchronisation of those associations with the stored ones.
    pub sync: TaggedSync,
}

/// The statement that reads the stored associations of `kind` on the entity
/// `ref_id`, where `data` wants any tag on it that was resolved for `owner`.
pub fn sync_tagged_data_from_ref_query(
    owner: &String,
    kind: TaggedType,
    ref_id: &String,
    resolved: &Vec<Tag>,
    data: &Vec<TaggedData>,
) -> (query: Query)
    ensures
        query@ == select_statement(
            kind,
            referenced(attachments(owner@, ref_id@, tag_views(resolved@), data_views(data@))),
        ),
{
    sync_tagged_items_query(kind, &attach(owner, ref_id, resolved, data))
}

/// Synchronises the tags that `data` wants on the entity `ref_id` with the
/// store, given the tags `resolved` for `owner` and the rows that
/// `sync_tagged_data_from_ref_query` read: the resolved tags are attached to
/// the entity, and the associations that attach them are synchronised with
/// the stored ones. Fails, with a decode failure, exactly where some row
/// holds no association.
pub fn sync_tagged_data_from_ref(
    owner: &String,
    kind: TaggedType,
    ref_id: &String,
    resolved: &Vec<Tag>,
    data: &Vec<TaggedData>,
    rows: &Vec<Row>,
) -> (synced: Result<TaggedDataSync, Error>)
    ensures
        synced is Ok <==> all_decode(row_views(rows@)),
        synced is Ok ==> item_views(synced->Ok_0.items@) == attachments(
            owner@,
            ref_id@,
            tag_views(resolved@),
            data_views(data@),
        ) && synced->Ok_0.sync.synchronises(
            kind,
            stored_items(row_views(rows@)),
            item_views(synced->Ok_0.items@),
        ),
        synced is Err ==> synced->Err_0 == Error::DecodeFailure,
{
    let items = attach(owner, ref_id, resolved, data);
    match sync_tagged_items(kind, &items, rows) {
        Ok(sync) => Ok(TaggedDataSync { items, sync }),
        Err(e) => Err(e),
    }
}

} // verus!
