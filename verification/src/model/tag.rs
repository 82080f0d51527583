//! Tags, tag associations and the kinds of entity a tag can be attached to.

use crate::path::{
    canonical, depth_of, derive_fields, derive_is_idempotent, is_canonical,
    lemma_canonical_is_canonical, name_of, prefix_of,
};
use crate::database::query::{
    optional_instant_column, optional_text_column, text_column, unsigned_column, ColumnView, Row,
};
use crate::error::Error;
use crate::text::{copy_text, text_of};
use crate::util::Timestamp;
use vstd::prelude::*;

verus! {

/// Name of the table that holds the tags.
pub const TAG_TABLE: &'static str = "tag";

/// A tag: a node of the hierarchy, addressed by its path and owned by one
/// user.
#[derive(Debug, Clone, PartialEq, Eq)]
pub struct Tag {
    pub id: String,
    pub path: String,
    pub prefix: String,
    pub name: String,
    pub label: Option<String>,
    pub parent_id: Option<String>,
    pub depth: u32,
    pub value_type: Option<String>,
    pub user_id: String,
    pub created_at: Option<Timestamp>,
    pub updated_at: Option<Timestamp>,
}

/// What a tag holds, with its texts as sequences of characters.
pub struct TagView {
    pub id: Seq<char>,
    pub path: Seq<char>,
    pub prefix: Seq<char>,
    pub name: Seq<char>,
    pub label: Option<Seq<char>>,
    pub parent_id: Option<Seq<char>>,
    pub depth: u32,
    pub value_type: Option<Seq<char>>,
    pub user_id: Seq<char>,
    pub created_at: Option<Timestamp>,
    pub updated_at: Option<Timestamp>,
}

impl View for Tag {
    type V = TagView;

    open spec fn view(&self) -> TagView {
        TagView {
            id: self.id@,
            path: self.path@,
            prefix: self.prefix@,
            name: self.name@,
            label: text_of(self.label),
            parent_id: text_of(self.parent_id),
            depth: self.depth,
            value_type: text_of(self.value_type),
            user_id: self.user_id@,
            created_at: self.created_at,
            updated_at: self.updated_at,
        }
    }
}

/// The tag that a raw path alone determines: its structural fields derived
/// from the path, everything else empty.
pub open spec fn tag_at(raw: Seq<char>) -> TagView {
    TagView {
        id: Seq::empty(),
        path: canonical(raw),
        prefix: prefix_of(raw),
        name: name_of(raw),
        label: None,
        parent_id: None,
        depth: depth_of(raw) as u32,
        value_type: None,
        user_id: Seq::empty(),
        created_at: None,
        updated_at: None,
    }
}

impl TagView {
    /// Whether the structural fields are those of the tag's own path.
    pub open spec fn well_formed(self) -> bool {
        &&& is_canonical(self.path)
        &&& self.prefix == prefix_of(self.path)
        &&& self.name == name_of(self.path)
        &&& self.depth == depth_of(self.path)
    }
}

impl Default for Tag {
    fn default() -> (tag: Tag)
        ensures
            tag@ == (TagView {
                id: Seq::empty(),
                path: Seq::empty(),
                prefix: Seq::empty(),
                name: Seq::empty(),
                label: None,
                parent_id: None,
                depth: 0,
                value_type: None,
                user_id: Seq::empty(),
                created_at: None,
                updated_at: None,
            }),
    {
        Tag {
            id: String::new(),
            path: String::new(),
            prefix: String::new(),
            name: String::new(),
            label: None,
            parent_id: None,
            depth: 0,
            value_type: None,
            user_id: String::new(),
            created_at: None,
            updated_at: None,
        }
    }
}

impl Tag {
    /// The tag at `path`: path, prefix, name and depth derived from the raw
    /// path, every other field empty. The depth must fit the field that holds
    /// it.
    pub fn from_path(path: String) -> (tag: Tag)
        requires
            depth_of(path@) <= u32::MAX,
        ensures
            tag@ == tag_at(path@),
    {
        let fields = derive_fields(path.as_str());
        Tag {
            id: String::new(),
            path: fields.path,
            prefix: fields.prefix,
            name: fields.name,
            label: None,
            parent_id: None,
            depth: fields.depth as u32,
            value_type: None,
            user_id: String::new(),
            created_at: None,
            updated_at: None,
        }
    }

    /// As `from_path`, for any raw path: `None` exactly where the path has
    /// more segments than the depth field can count.
    pub fn checked_from_path(path: String) -> (made: Option<Tag>)
        ensures
            made is Some <==> depth_of(path@) <= u32::MAX,
            made is Some ==> made->0@ == tag_at(path@),
    {
        let fields = derive_fields(path.as_str());
        if fields.depth > 0xffff_ffff {
            return None;
        }
        Some(
            Tag {
                id: String::new(),
                path: fields.path,
                prefix: fields.prefix,
                name: fields.name,
                label: None,
                parent_id: None,
                depth: fields.depth as u32,
                value_type: None,
                user_id: String::new(),
                created_at: None,
                updated_at: None,
            },
        )
    }

    /// A copy of this tag.
    pub fn duplicate(&self) -> (tag: Tag)
        ensures
            tag@ == self@,
    {
        Tag {
            id: self.id.clone(),
            path: self.path.clone(),
            prefix: self.prefix.clone(),
            name: self.name.clone(),
            label: copy_text(&self.label),
            parent_id: copy_text(&self.parent_id),
            depth: self.depth,
            value_type: copy_text(&self.value_type),
            user_id: self.user_id.clone(),
            created_at: self.created_at,
            updated_at: self.updated_at,
        }
    }
}

/// The kind of entity an association refers to. Each kind has its own
/// association table.
#[derive(Debug, Clone, Copy, PartialEq, Eq, Structural)]
pub enum TaggedType {
    Bookmark,
}

/// Name of the association table of the bookmark kind.
pub open spec fn bookmark_table_name() -> Seq<char> {
    "tagged_bookmark"@
}

impl TaggedType {
    /// Name of the association table of this kind, as a sequence of characters.
    pub open spec fn table_name(self) -> Seq<char> {
        match self {
            TaggedType::Bookmark => bookmark_table_name(),
        }
    }

    /// Name of the association table that holds associations of this kind.
    pub fn table<'a>(&self) -> (name: &'a str)
        ensures
            name@ == self.table_name(),
    {
        match self {
            TaggedType::Bookmark => "tagged_bookmark",
        }
    }
}

/// An association between one tag and one referenced entity, with an optional
/// value that belongs to the association.
#[derive(Debug, Clone, PartialEq, Eq)]
pub struct TaggedItem {
    pub id: String,
    pub ref_id: String,
    pub tag_id: String,
    pub value: Option<String>,
}

/// What an association holds, with its texts as sequences of characters.
pub struct TaggedItemView {
    pub id: Seq<char>,
    pub ref_id: Seq<char>,
    pub tag_id: Seq<char>,
    pub value: Option<Seq<char>>,
}

impl TaggedItemView {
    /// The identity of the association: the tag and the entity it links.
    pub open spec fn key(self) -> (Seq<char>, Seq<char>) {
        (self.tag_id, self.ref_id)
    }
}

impl View for TaggedItem {
    type V = TaggedItemView;

    open spec fn view(&self) -> TaggedItemView {
        TaggedItemView {
            id: self.id@,
            ref_id: self.ref_id@,
            tag_id: self.tag_id@,
            value: text_of(self.value),
        }
    }
}

impl Default for TaggedItem {
    fn default() -> (item: TaggedItem)
        ensures
            item@ == (TaggedItemView {
                id: Seq::empty(),
                ref_id: Seq::empty(),
                tag_id: Seq::empty(),
                value: None,
            }),
    {
        TaggedItem { id: String::new(), ref_id: String::new(), tag_id: String::new(), value: None }
    }
}

impl TaggedItem {
    /// A copy of this association.
    pub fn duplicate(&self) -> (item: TaggedItem)
        ensures
            item@ == self@,
    {
        TaggedItem {
            id: self.id.clone(),
            ref_id: self.ref_id.clone(),
            tag_id: self.tag_id.clone(),
            value: copy_text(&self.value),
        }
    }

    /// Whether two associations link the same tag to the same entity.
    pub fn same_key(&self, other: &TaggedItem) -> (same: bool)
        ensures
            same == (self@.key() == other@.key()),
    {
        self.tag_id == other.tag_id && self.ref_id == other.ref_id
    }
}

/// Whether a row holds every column of a tag, each of the type the tag
/// needs.
pub open spec fn tag_decodes(row: Seq<ColumnView>) -> bool {
    &&& text_column(row, "id"@) is Ok
    &&& text_column(row, "path"@) is Ok
    &&& text_column(row, "prefix"@) is Ok
    &&& text_column(row, "name"@) is Ok
    &&& optional_text_column(row, "label"@) is Ok
    &&& optional_text_column(row, "parent_id"@) is Ok
    &&& unsigned_column(row, "depth"@) is Ok
    &&& optional_text_column(row, "value_type"@) is Ok
    &&& text_column(row, "user_id"@) is Ok
    &&& optional_instant_column(row, "created_at"@) is Ok
    &&& optional_instant_column(row, "updated_at"@) is Ok
}

/// The tag that a row holds, column by column.
pub open spec fn tag_in(row: Seq<ColumnView>) -> TagView
    recommends
        tag_decodes(row),
{
    TagView {
        id: text_column(row, "id"@)->Ok_0,
        path: text_column(row, "path"@)->Ok_0,
        prefix: text_column(row, "prefix"@)->Ok_0,
        name: text_column(row, "name"@)->Ok_0,
        label: optional_text_column(row, "label"@)->Ok_0,
        parent_id: optional_text_column(row, "parent_id"@)->Ok_0,
        depth: unsigned_column(row, "depth"@)->Ok_0,
        value_type: optional_text_column(row, "value_type"@)->Ok_0,
        user_id: text_column(row, "user_id"@)->Ok_0,
        created_at: optional_instant_column(row, "created_at"@)->Ok_0,
        updated_at: optional_instant_column(row, "updated_at"@)->Ok_0,
    }
}

/// Whether a row holds every column of an association, each of the type the
/// association needs.
pub open spec fn tagged_item_decodes(row: Seq<ColumnView>) -> bool {
    &&& text_column(row, "id"@) is Ok
    &&& text_column(row, "ref_id"@) is Ok
    &&& text_column(row, "tag_id"@) is Ok
    &&& optional_text_column(row, "value"@) is Ok
}

/// The association that a row holds, column by column.
pub open spec fn tagged_item_in(row: Seq<ColumnView>) -> TaggedItemView
    recommends
        tagged_item_decodes(row),
{
    TaggedItemView {
        id: text_column(row, "id"@)->Ok_0,
        ref_id: text_column(row, "ref_id"@)->Ok_0,
        tag_id: text_column(row, "tag_id"@)->Ok_0,
        value: optional_text_column(row, "value"@)->Ok_0,
    }
}

impl Tag {
    /// The tag that a stored row holds. Fails, with a decode failure, exactly
    /// where the row lacks a column of a tag or holds one under another type.
    pub fn from_row(row: &Row) -> (made: Result<Tag, Error>)
        ensures
            made is Ok <==> tag_decodes(row@),
            made is Ok ==> made->Ok_0@ == tag_in(row@),
            made is Err ==> made->Err_0 == Error::DecodeFailure,
    {
        let id = row.text("id");
        let path = row.text("path");
        let prefix = row.text("prefix");
        let name = row.text("name");
        let label = row.optional_text("label");
        let parent_id = row.optional_text("parent_id");
        let depth = row.unsigned("depth");
        let value_type = row.optional_text("value_type");
        let user_id = row.text("user_id");
        let created_at = row.optional_instant("created_at");
        let updated_at = row.optional_instant("updated_at");
        match (id, path, prefix, name, label, parent_id, depth, value_type, user_id) {
            (
                Ok(id),
                Ok(path),
                Ok(prefix),
                Ok(name),
                Ok(label),
                Ok(parent_id),
                Ok(depth),
                Ok(value_type),
                Ok(user_id),
            ) => match (created_at, updated_at) {
                (Ok(created_at), Ok(updated_at)) => Ok(
                    Tag {
                        id,
                        path,
                        prefix,
                        name,
                        label,
                        parent_id,
                        depth,
                        value_type,
                        user_id,
                        created_at,
                        updated_at,
                    },
                ),
                _ => Err(Error::DecodeFailure),
            },
            _ => Err(Error::DecodeFailure),
        }
    }
}

impl TaggedItem {
    /// The association that a stored row holds. Fails, with a decode failure,
    /// exactly where the row lacks a column of an association or holds one
    /// under another type.
    pub fn from_row(row: &Row) -> (made: Result<TaggedItem, Error>)
        ensures
            made is Ok <==> tagged_item_decodes(row@),
            made is Ok ==> made->Ok_0@ == tagged_item_in(row@),
            made is Err ==> made->Err_0 == Error::DecodeFailure,
    {
        let id = row.text("id");
        let ref_id = row.text("ref_id");
        let tag_id = row.text("tag_id");
        let value = row.optional_text("value");
        match (id, ref_id, tag_id, value) {
            (Ok(id), Ok(ref_id), Ok(tag_id), Ok(value)) => Ok(
                TaggedItem { id, ref_id, tag_id, value },
            ),
            _ => Err(Error::DecodeFailure),
        }
    }
}

/// The tag at a path is well formed: its path is canonical, and its prefix,
/// its name and its depth are those that its own path derives to.
pub proof fn tag_at_path_is_well_formed(raw: Seq<char>)
    requires
        depth_of(raw) <= u32::MAX,
    ensures
        tag_at(raw).well_formed(),
{
    lemma_canonical_is_canonical(raw);
    derive_is_idempotent(raw);
}

} // verus!
