//! Background tasks, and the maintenance of the tag hierarchy that one of
//! them asks for: linking a tag to the tag one level above it.

use crate::database::query::{Query, QueryView, Row};
use crate::error::Error;
use crate::model::tag::{tag_at, Tag, TagView};
use crate::path::{depth_of, parent_of, parent_path};
use crate::repo::script::{query_views, Script};
use crate::repo::tag::{
    all_decode, create_tags_query, find_statement, insert_statement, owned_at, stored_tags,
    sync_tags, sync_tags_query, update_statement, update_tag_query,
};
use crate::repo::tagged::{row_views, statement_of, unless_empty};
use crate::resolve::{
    distinct_paths, one_tag_per_wanted_path, path_position, paths_of, resolved, tag_views,
    Resolution,
};
use crate::text::copy_text;
use crate::util::Timestamp;
use vstd::prelude::*;

verus! {

/// A task for a worker.
#[derive(Debug, Clone, PartialEq, Eq)]
pub enum Task {
    /// Nothing to do. A worker discards it.
    Empty,
    /// A tag was created or changed: link it to its parent. The task carries
    /// the tag as it was when the task was made.
    TagUpdated(Tag),
}

/// What a task holds.
pub enum TaskView {
    Empty,
    TagUpdated(TagView),
}

impl View for Task {
    type V = TaskView;

    open spec fn view(&self) -> TaskView {
        match *self {
            Task::Empty => TaskView::Empty,
            Task::TagUpdated(tag) => TaskView::TagUpdated(tag@),
        }
    }
}

/// Where a tag stands with respect to its parent.
#[derive(Debug, Clone, Copy, PartialEq, Eq, Structural)]
pub enum Linkage {
    /// The tag is at the top of the hierarchy: it has no parent and never
    /// gets one.
    TopLevel,
    /// The tag is below the top and has not been linked to its parent.
    Unlinked,
    /// The tag has been linked to its parent.
    Linked,
}

/// Where `tag` stands with respect to its parent.
pub open spec fn linkage_of(tag: TagView) -> Linkage {
    if tag.parent_id is Some {
        Linkage::Linked
    } else if tag.depth == 1 {
        Linkage::TopLevel
    } else {
        Linkage::Unlinked
    }
}

/// Whether maintaining the hierarchy has something to do for `tag`: only an
/// unlinked tag below the top is linked.
pub open spec fn needs_parent(tag: TagView) -> bool {
    tag.depth != 1 && tag.parent_id is None
}

/// `child` linked to `parent`: the parent's identifier is the child's parent
/// identifier, everything else is as it was.
pub open spec fn linked_to(child: TagView, parent: TagView) -> TagView {
    TagView {
        id: child.id,
        path: child.path,
        prefix: child.prefix,
        name: child.name,
        label: child.label,
        parent_id: Some(parent.id),
        depth: child.depth,
        value_type: child.value_type,
        user_id: child.user_id,
        created_at: child.created_at,
        updated_at: child.updated_at,
    }
}

/// What linking a tag to its parent needs from the store: the parent,
/// resolved for the owner of the tag.
#[derive(Debug, Clone, PartialEq, Eq)]
pub struct ParentRequest {
    /// The owner of the tag, for whom the parent is resolved.
    pub owner: String,
    /// The parent as wanted: the tag at the path of the child without its
    /// last segment.
    pub parent: Tag,
}

/// What a request holds.
pub struct ParentRequestView {
    pub owner: Seq<char>,
    pub parent: TagView,
}

impl View for ParentRequest {
    type V = ParentRequestView;

    open spec fn view(&self) -> ParentRequestView {
        ParentRequestView { owner: self.owner@, parent: self.parent@ }
    }
}

/// The request that linking `tag` starts with.
pub open spec fn parent_request_of(tag: TagView) -> ParentRequestView {
    ParentRequestView { owner: tag.user_id, parent: tag_at(parent_of(tag.path)) }
}

/// The view of an optional request.
pub open spec fn request_of(request: Option<ParentRequest>) -> Option<ParentRequestView> {
    match request {
        Some(r) => Some(r@),
        None => None,
    }
}

/// The view of an optional tag.
pub open spec fn tag_of(tag: Option<Tag>) -> Option<TagView> {
    match tag {
        Some(t) => Some(t@),
        None => None,
    }
}

impl Tag {
    /// Where this tag stands with respect to its parent.
    pub fn linkage(&self) -> (linkage: Linkage)
        ensures
            linkage == linkage_of(self@),
    {
        if self.parent_id.is_some() {
            Linkage::Linked
        } else if self.depth == 1 {
            Linkage::TopLevel
        } else {
            Linkage::Unlinked
        }
    }

    /// This tag linked to `parent`.
    pub fn link_to(&self, parent: &Tag) -> (linked: Tag)
        ensures
            linked@ == linked_to(self@, parent@),
    {
        Tag {
            id: self.id.clone(),
            path: self.path.clone(),
            prefix: self.prefix.clone(),
            name: self.name.clone(),
            label: copy_text(&self.label),
            parent_id: Some(parent.id.clone()),
            depth: self.depth,
            value_type: copy_text(&self.value_type),
            user_id: self.user_id.clone(),
            created_at: self.created_at,
            updated_at: self.updated_at,
        }
    }
}

impl Task {
    /// What the task starts with. A task that is empty, or whose tag is at
    /// the top of the hierarchy or linked already, asks for nothing: there is
    /// nothing to do. The task of an unlinked tag below the top asks for the
    /// parent of the tag to be resolved for the owner of the tag, the parent
    /// being the tag at the path of the child without its last segment.
    pub fn parent_request(&self) -> (request: Option<ParentRequest>)
        ensures
            match self@ {
                TaskView::Empty => request is None,
                TaskView::TagUpdated(tag) => if needs_parent(tag) && depth_of(parent_of(tag.path))
                    <= u32::MAX {
                    request_of(request) == Some(parent_request_of(tag))
                } else {
                    request is None
                },
            },
    {
        match self {
            Task::Empty => None,
            Task::TagUpdated(tag) => {
                if tag.depth == 1 || tag.parent_id.is_some() {
                    return None;
                }
                match Tag::checked_from_path(parent_path(tag.path.as_str())) {
                    Some(parent) => Some(ParentRequest { owner: tag.user_id.clone(), parent }),
                    None => None,
                }
            },
        }
    }

    /// What the task ends with, once the parent it asked for is resolved:
    /// the tag of the task linked to the first of the resolved tags, to be
    /// written over the stored tag. A task that asks for no parent has
    /// nothing to write, and neither has one whose parent was not resolved.
    pub fn linked(&self, resolved: &Vec<Tag>) -> (linked: Option<Tag>)
        ensures
            match self@ {
                TaskView::Empty => linked is None,
                TaskView::TagUpdated(tag) => if needs_parent(tag) && resolved@.len() > 0 {
                    tag_of(linked) == Some(linked_to(tag, resolved@[0]@))
                } else {
                    linked is None
                },
            },
    {
        match self {
            Task::Empty => None,
            Task::TagUpdated(tag) => {
                if tag.depth == 1 || tag.parent_id.is_some() || resolved.len() == 0 {
                    return None;
                }
                Some(tag.link_to(&resolved[0]))
            },
        }
    }
}

/// What running a task comes to: what is resolved, what is linked, and the
/// script that writes both.
#[derive(Debug)]
pub struct Maintenance {
    /// The parent as resolved, and the parent to create where it was not
    /// stored. Empty where the task has nothing to do.
    pub found: Resolution,
    /// The tag of the task, linked to its parent. `None` where the task has
    /// nothing to do.
    pub linked: Option<Tag>,
    /// The statements that create the parent, where it is missing, and write
    /// the linked tag over the stored one; the linked tag is what they
    /// return.
    pub script: Script<Option<Tag>>,
}

/// The wanted tags of the task of `tag`: its parent, alone.
pub open spec fn wanted_parent(tag: TagView) -> Seq<TagView> {
    seq![parent_request_of(tag).parent]
}

/// Whether the task of `tag` has something to do: the tag needs a parent,
/// and the path of the parent has no more segments than a depth can count.
pub open spec fn maintains(tag: TagView) -> bool {
    needs_parent(tag) && depth_of(parent_of(tag.path)) <= u32::MAX
}

impl Maintenance {
    /// Whether nothing is read, written or returned.
    pub open spec fn idle(self) -> bool {
        &&& self.found.create@.len() == 0
        &&& self.found.tags@.len() == 0
        &&& self.linked is None
        &&& self.script.pending().len() == 0
        &&& self.script.outcome() is None
    }

    /// Whether this is the maintenance of the hierarchy above `tag`, given
    /// the stored tags `existing`, at `now`: the parent of the tag is
    /// resolved for the owner of the tag and created where it is missing,
    /// the tag is linked to it, and the script first inserts the parent,
    /// where it was created, and then writes the linked tag.
    pub open spec fn links(self, tag: TagView, existing: Seq<TagView>, now: Timestamp) -> bool {
        &&& self.found.resolves(tag.user_id, existing, wanted_parent(tag), now)
        &&& self.found.tags@.len() == 1
        &&& self.found.tags@[0]@.path == parent_request_of(tag).parent.path
        &&& self.found.tags@[0]@.user_id == tag.user_id
        &&& tag_of(self.linked) == Some(linked_to(tag, self.found.tags@[0]@))
        &&& self.script.pending() == unless_empty(
            self.found.create@.len(),
            insert_statement(tag_views(self.found.create@)),
        ) + seq![update_statement(linked_to(tag, self.found.tags@[0]@))]
        &&& tag_of(self.script.outcome()) == tag_of(self.linked)
    }
}

impl Task {
    /// The statement that reads what the task needs from the store: the tag
    /// that the owner of the tag of the task has at the path of its parent.
    /// None where the task has nothing to do.
    pub fn read_query(&self) -> (query: Option<Query>)
        ensures
            match self@ {
                TaskView::Empty => query is None,
                TaskView::TagUpdated(tag) => if maintains(tag) {
                    statement_of(query) == Some(
                        find_statement(owned_at(tag.user_id, wanted_parent(tag))),
                    )
                } else {
                    query is None
                },
            },
    {
        match self.parent_request() {
            Some(request) => {
                let owner = request.owner;
                let mut desired: Vec<Tag> = Vec::new();
                desired.push(request.parent);
                proof {
                    assert(tag_views(desired@) =~= seq![desired@[0]@]);
                }
                Some(sync_tags_query(&owner, &desired))
            },
            None => None,
        }
    }

    /// Runs the task, given the rows that its `read_query` read and the
    /// current time. An empty task, and the task of a tag that is at the
    /// top of the hierarchy or linked already, comes to nothing: nothing is
    /// written, whatever the rows hold. The task of any other tag resolves
    /// the parent of the tag, one level up and no further, creates it where
    /// the owner has no tag at its path, and links the tag to it. Fails, with
    /// a decode failure, exactly where the task has something to do and some
    /// row holds no tag.
    pub fn run(&self, rows: &Vec<Row>, now: Timestamp) -> (done: Result<Maintenance, Error>)
        ensures
            match self@ {
                TaskView::Empty => done is Ok && done->Ok_0.idle(),
                TaskView::TagUpdated(tag) => if maintains(tag) {
                    &&& done is Ok <==> all_decode(row_views(rows@))
                    &&& done is Ok ==> done->Ok_0.links(tag, stored_tags(row_views(rows@)), now)
                    &&& done is Err ==> done->Err_0 == Error::DecodeFailure
                } else {
                    done is Ok && done->Ok_0.idle()
                },
            },
    {
        let request = match self.parent_request() {
            Some(request) => request,
            None => {
                let found = Resolution { create: Vec::new(), tags: Vec::new() };
                let script = Script::new(Vec::new(), None);
                proof {
                    assert(query_views(Seq::<Query>::empty()) =~= Seq::<QueryView>::empty());
                }
                return Ok(Maintenance { found, linked: None, script });
            },
        };
        let ghost tag = self->TagUpdated_0@;
        let owner = request.owner;
        let mut desired: Vec<Tag> = Vec::new();
        desired.push(request.parent);
        proof {
            assert(tag_views(desired@) =~= wanted_parent(tag));
        }
        let synced = match sync_tags(&owner, &desired, rows, now) {
            Ok(synced) => synced,
            Err(e) => {
                return Err(e);
            },
        };
        let found = synced.found;
        proof {
            let existing = stored_tags(row_views(rows@));
            let created = tag_views(found.create@);
            one_tag_per_wanted_path(owner@, existing, wanted_parent(tag), created, now);
            let all = resolved(owner@, existing + created, wanted_parent(tag));
            let wanted = wanted_parent(tag);
            let before = wanted.drop_last();
            assert(before.len() == 0);
            assert(path_position(before, wanted.last().path) == 0);
            assert(distinct_paths(before).len() == 0);
            assert(distinct_paths(wanted).len() == 1);
            assert(distinct_paths(wanted)[0] == wanted[0].path);
            assert(paths_of(all).len() == 1);
            assert(paths_of(all)[0] == all[0].path);
            assert(tag_views(found.tags@)[0] == found.tags@[0]@);
        }
        let linked = match self.linked(&found.tags) {
            Some(linked) => linked,
            None => vstd::pervasive::unreached(),
        };
        let mut statements: Vec<Query> = Vec::new();
        match create_tags_query(&found.create) {
            Some(query) => {
                statements.push(query);
            },
            None => {},
        }
        statements.push(update_tag_query(&linked));
        proof {
            assert(query_views(statements@) =~= unless_empty(
                found.create@.len(),
                insert_statement(tag_views(found.create@)),
            ) + seq![update_statement(linked@)]);
        }
        let script = Script::new(statements, Some(linked.duplicate()));
        Ok(Maintenance { found, linked: Some(linked), script })
    }
}

/// A tag at the top of the hierarchy, or one that is linked already, is left
/// alone: its task asks for nothing and writes nothing, whatever the store
/// holds.
pub proof fn settled_tags_are_left_alone(tag: TagView)
    requires
        linkage_of(tag) != Linkage::Unlinked,
    ensures
        !needs_parent(tag),
{
}

/// Linking happens once and is never undone: a linked tag is linked whatever
/// it was before, it keeps every other field, and its own task then has
/// nothing left to do.
pub proof fn linking_happens_once(child: TagView, parent: TagView)
    ensures
        linkage_of(linked_to(child, parent)) == Linkage::Linked,
        linked_to(child, parent).parent_id == Some(parent.id),
        !needs_parent(linked_to(child, parent)),
        linked_to(linked_to(child, parent), parent) == linked_to(child, parent),
{
}

/// Only the child is linked: the parent that a task asks for is wanted
/// without a parent of its own, so resolving it creates it unlinked.
pub proof fn parent_is_wanted_unlinked(tag: TagView)
    ensures
        parent_request_of(tag).parent.parent_id is None,
        parent_request_of(tag).owner == tag.user_id,
{
}

} // verus!
