//! Bookmarks in requests and responses, and the statements that read and
//! write them.

use crate::api::tag::{data_views, replace_text, replaced, TaggedData, TaggedDataView};
use crate::database::query::{
    empty_query, list_of, list_query, ColumnView, Query, QueryView, Row,
};
use crate::database::value::{value_views, Value, ValueView};
use crate::error::Error;
use crate::model::bookmark::{
    bookmark_decodes, bookmark_in, Bookmark, BookmarkView, BOOKMARK_TABLE,
};
use crate::model::tag::{tag_at, Tag, TaggedItem, TaggedItemView};
use crate::path::depth_of;
use crate::repo::tagged::row_views;
use crate::text::{copy_text, text_of, texts_of};
use crate::util::Timestamp;
use vstd::prelude::*;

verus! {

/// What to look for among the stored bookmarks. A field that is `None` does
/// not restrict the search.
#[derive(Debug, Clone, PartialEq, Eq)]
pub struct SearchBookmark {
    pub id: Option<String>,
    pub user_id: Option<String>,
}

impl Default for SearchBookmark {
    fn default() -> (search: SearchBookmark)
        ensures
            search.id is None,
            search.user_id is None,
    {
        SearchBookmark { id: None, user_id: None }
    }
}

/// `conditions` with the condition `piece` on `text`, where there is one.
pub open spec fn conditioned(conditions: QueryView, piece: Seq<char>, text: Option<Seq<char>>) -> QueryView {
    match text {
        Some(t) => conditions.with_piece(piece).with_value(ValueView::String(Some(t))),
        None => conditions,
    }
}

/// The conditions of a search for bookmarks, to be joined by `AND`.
pub open spec fn bookmark_conditions(id: Option<Seq<char>>, user_id: Option<Seq<char>>) -> QueryView {
    conditioned(
        conditioned(empty_query().with_separator(" AND "@), "id = ?"@, id),
        "user_id = ?"@,
        user_id,
    )
}

/// `all` restricted by `conditions`, where there are any.
pub open spec fn filtered(all: QueryView, conditions: QueryView) -> QueryView {
    if conditions.is_empty() {
        all
    } else {
        all.with_piece(" WHERE "@).with_query(conditions)
    }
}

/// The statement that reads the stored bookmarks that a search selects.
pub open spec fn find_statement(id: Option<Seq<char>>, user_id: Option<Seq<char>>) -> QueryView {
    filtered(
        empty_query().with_piece("SELECT * FROM "@).with_piece("bookmark"@),
        bookmark_conditions(id, user_id),
    )
}

/// Adds to `conditions` the condition `piece` on `text`, where there is one.
pub fn condition(conditions: &mut Query, piece: &str, text: &Option<String>)
    ensures
        final(conditions)@ == conditioned(old(conditions)@, piece@, text_of(*text)),
{
    match text {
        Some(t) => {
            conditions.push_str(piece);
            conditions.bind(Value::String(Some(t.clone())));
        },
        None => {},
    }
}

/// Restricts `all` by `conditions`, where there are any.
pub fn filter(all: Query, conditions: Query) -> (query: Query)
    ensures
        query@ == filtered(all@, conditions@),
{
    let mut query = all;
    if !conditions.is_empty() {
        query.push_str(" WHERE ");
        query.append(conditions);
    }
    query
}

/// The statement that reads the stored bookmarks that `search` selects.
pub fn find_bookmarks_query(search: &SearchBookmark) -> (query: Query)
    ensures
        query@ == find_statement(text_of(search.id), text_of(search.user_id)),
{
    let mut conditions = Query::new();
    conditions.set_separator(" AND ");
    condition(&mut conditions, "id = ?", &search.id);
    condition(&mut conditions, "user_id = ?", &search.user_id);
    let mut query = Query::new();
    query.push_str("SELECT * FROM ");
    query.push_str(BOOKMARK_TABLE);
    filter(query, conditions)
}

/// Whether every one of `rows` holds a bookmark.
pub open spec fn all_decode(rows: Seq<Seq<ColumnView>>) -> bool {
    forall|i: int| 0 <= i < rows.len() ==> bookmark_decodes(#[trigger] rows[i])
}

/// The views of a sequence of bookmarks.
pub open spec fn bookmark_views(bookmarks: Seq<Bookmark>) -> Seq<BookmarkView> {
    bookmarks.map_values(|bookmark: Bookmark| bookmark@)
}

/// The bookmarks that `rows` hold, row by row.
pub open spec fn stored_bookmarks(rows: Seq<Seq<ColumnView>>) -> Seq<BookmarkView> {
    rows.map_values(|row: Seq<ColumnView>| bookmark_in(row))
}

/// The bookmarks that the rows hold. Fails, with a decode failure, exactly
/// where some row holds none.
pub fn find_bookmarks(rows: &Vec<Row>) -> (made: Result<Vec<Bookmark>, Error>)
    ensures
        made is Ok <==> all_decode(row_views(rows@)),
        made is Ok ==> bookmark_views(made->Ok_0@) == stored_bookmarks(row_views(rows@)),
        made is Err ==> made->Err_0 == Error::DecodeFailure,
{
    let ghost views = row_views(rows@);
    let mut bookmarks: Vec<Bookmark> = Vec::new();
    let mut i: usize = 0;
    while i < rows.len()
        invariant
            i <= rows.len(),
            views == row_views(rows@),
            bookmarks.len() == i,
            forall|k: int| 0 <= k < i ==> bookmark_decodes(#[trigger] views[k]),
            forall|k: int| 0 <= k < i ==> (#[trigger] bookmarks@[k])@ == bookmark_in(views[k]),
        decreases rows.len() - i,
    {
        proof {
            assert(views[i as int] == rows@[i as int]@);
        }
        match Bookmark::from_row(&rows[i]) {
            Ok(bookmark) => {
                bookmarks.push(bookmark);
            },
            Err(e) => {
                return Err(e);
            },
        }
        i = i + 1;
    }
    proof {
        assert(bookmark_views(bookmarks@) =~= stored_bookmarks(views));
    }
    Ok(bookmarks)
}

/// The one bookmark that the rows hold: the last of them. Fails with a
/// decode failure where some row holds no bookmark, and as not found where
/// there is no row.
pub fn find_bookmark_one(rows: &Vec<Row>) -> (made: Result<Bookmark, Error>)
    ensures
        made is Ok <==> all_decode(row_views(rows@)) && rows@.len() > 0,
        made is Ok ==> made->Ok_0@ == bookmark_in(rows@[rows@.len() - 1]@),
        made is Err ==> made->Err_0 == if all_decode(row_views(rows@)) {
            Error::NotFound
        } else {
            Error::DecodeFailure
        },
{
    let mut bookmarks = match find_bookmarks(rows) {
        Ok(bookmarks) => bookmarks,
        Err(e) => {
            return Err(e);
        },
    };
    proof {
        assert(bookmark_views(bookmarks@).len() == bookmarks@.len());
        assert(stored_bookmarks(row_views(rows@)).len() == rows@.len());
        if rows@.len() > 0 {
            let last = rows@.len() - 1;
            assert(bookmark_views(bookmarks@)[last] == bookmarks@[last]@);
            assert(stored_bookmarks(row_views(rows@))[last] == bookmark_in(rows@[last]@));
        }
    }
    match bookmarks.pop() {
        Some(bookmark) => Ok(bookmark),
        None => Err(Error::NotFound),
    }
}

/// The request to create or to change a bookmark. In a change, a field that
/// is `None` is left as it is.
#[derive(Debug, Clone, PartialEq, Eq)]
pub struct BookmarkRequest {
    pub title: Option<String>,
    pub url: Option<String>,
    pub description: Option<String>,
    /// The paths of the tags to attach to the bookmark.
    pub tags: Option<Vec<String>>,
}

/// A bookmark as it is sent in a response.
#[derive(Debug, Clone, PartialEq, Eq)]
pub struct BookmarkResponse {
    pub id: String,
    pub title: Option<String>,
    pub url: Option<String>,
    pub description: Option<String>,
    /// The paths of the tags attached to the bookmark.
    pub tags: Vec<String>,
    pub created_at: Option<Timestamp>,
    pub updated_at: Option<Timestamp>,
}

/// What a response holds, with its texts as sequences of characters.
pub struct BookmarkResponseView {
    pub id: Seq<char>,
    pub title: Option<Seq<char>>,
    pub url: Option<Seq<char>>,
    pub description: Option<Seq<char>>,
    pub tags: Seq<Seq<char>>,
    pub created_at: Option<Timestamp>,
    pub updated_at: Option<Timestamp>,
}

impl View for BookmarkResponse {
    type V = BookmarkResponseView;

    open spec fn view(&self) -> BookmarkResponseView {
        BookmarkResponseView {
            id: self.id@,
            title: text_of(self.title),
            url: text_of(self.url),
            description: text_of(self.description),
            tags: texts_of(self.tags@),
            created_at: self.created_at,
            updated_at: self.updated_at,
        }
    }
}

/// The response that shows `bookmark` with the tags at `paths`.
pub open spec fn shown(bookmark: BookmarkView, paths: Seq<Seq<char>>) -> BookmarkResponseView {
    BookmarkResponseView {
        id: bookmark.id,
        title: bookmark.title,
        url: bookmark.url,
        description: bookmark.description,
        tags: paths,
        created_at: bookmark.created_at,
        updated_at: bookmark.updated_at,
    }
}

/// The paths of the tags of `data`, in order.
pub open spec fn paths_in(data: Seq<TaggedDataView>) -> Seq<Seq<char>> {
    data.map_values(|entry: TaggedDataView| entry.0.path)
}

impl BookmarkResponse {
    /// The response that shows `bookmark` without tags.
    pub fn from_bookmark(bookmark: Bookmark) -> (response: BookmarkResponse)
        ensures
            response@ == shown(bookmark@, Seq::empty()),
    {
        let response = BookmarkResponse {
            id: bookmark.id,
            title: bookmark.title,
            url: bookmark.url,
            description: bookmark.description,
            tags: Vec::new(),
            created_at: bookmark.created_at,
            updated_at: bookmark.updated_at,
        };
        proof {
            assert(response@.tags =~= Seq::<Seq<char>>::empty());
        }
        response
    }

    /// The response that shows `bookmark` with the paths of the tags of
    /// `tag_data`, in order.
    pub fn with_tags(bookmark: Bookmark, tag_data: Vec<TaggedData>) -> (response: BookmarkResponse)
        ensures
            response@ == shown(bookmark@, paths_in(data_views(tag_data@))),
    {
        let mut tags: Vec<String> = Vec::new();
        let mut i: usize = 0;
        while i < tag_data.len()
            invariant
                i <= tag_data.len(),
                tags.len() == i,
                forall|k: int| 0 <= k < i ==> (#[trigger] tags@[k])@ == tag_data@[k]@.0.path,
            decreases tag_data.len() - i,
        {
            tags.push(tag_data[i].0.path.clone());
            i = i + 1;
        }
        proof {
            assert(texts_of(tags@) =~= paths_in(data_views(tag_data@)));
        }
        BookmarkResponse {
            id: bookmark.id,
            title: bookmark.title,
            url: bookmark.url,
            description: bookmark.description,
            tags,
            created_at: bookmark.created_at,
            updated_at: bookmark.updated_at,
        }
    }
}

/// The bookmark that a request to create one asks for: under the identifier
/// `id`, owned by `owner`, created and last updated at `now`.
pub open spec fn requested_bookmark(
    id: Seq<char>,
    owner: Seq<char>,
    title: Option<Seq<char>>,
    url: Option<Seq<char>>,
    description: Option<Seq<char>>,
    now: Timestamp,
) -> BookmarkView {
    BookmarkView {
        id,
        user_id: owner,
        title,
        url,
        description,
        resource_id: None,
        created_at: Some(now),
        updated_at: Some(now),
    }
}

/// `bookmark` as a request to change it at `now` leaves it.
pub open spec fn amended_bookmark(
    bookmark: BookmarkView,
    title: Option<Seq<char>>,
    url: Option<Seq<char>>,
    description: Option<Seq<char>>,
    now: Timestamp,
) -> BookmarkView {
    BookmarkView {
        id: bookmark.id,
        user_id: bookmark.user_id,
        title: replaced(bookmark.title, title),
        url: replaced(bookmark.url, url),
        description: replaced(bookmark.description, description),
        resource_id: bookmark.resource_id,
        created_at: bookmark.created_at,
        updated_at: Some(now),
    }
}

/// The statement that inserts `bookmark`.
pub open spec fn insert_statement(bookmark: BookmarkView) -> QueryView {
    empty_query().with_piece("INSERT INTO "@).with_piece("bookmark"@).with_piece(
        " (id, user_id, title, url, description, created_at, updated_at) VALUES ("@,
    ).with_query(
        list_query(
            seq![
                ValueView::String(Some(bookmark.id)),
                ValueView::String(Some(bookmark.user_id)),
                ValueView::String(bookmark.title),
                ValueView::String(bookmark.url),
                ValueView::String(bookmark.description),
                ValueView::DateTime(bookmark.created_at),
                ValueView::DateTime(bookmark.updated_at),
            ],
        ),
    ).with_piece(")"@)
}

/// The assignments of a change to a bookmark, to be joined by commas: the
/// time of the change, then the address, the title and the description, each
/// only where the request gives it.
pub open spec fn assignments(
    title: Option<Seq<char>>,
    url: Option<Seq<char>>,
    description: Option<Seq<char>>,
    now: Timestamp,
) -> QueryView {
    conditioned(
        conditioned(
            conditioned(
                empty_query().with_separator(", "@).with_piece("updated_at = ?"@).with_value(
                    ValueView::DateTime(Some(now)),
                ),
                "url = ?"@,
                url,
            ),
            "title = ?"@,
            title,
        ),
        "description = ?"@,
        description,
    )
}

/// The statement that writes a change over the stored bookmark under `id`.
pub open spec fn update_statement(
    id: Seq<char>,
    title: Option<Seq<char>>,
    url: Option<Seq<char>>,
    description: Option<Seq<char>>,
    now: Timestamp,
) -> QueryView {
    empty_query().with_piece("UPDATE "@).with_piece("bookmark"@).with_piece(" SET "@).with_query(
        assignments(title, url, description, now),
    ).with_piece(" WHERE id = ?"@).with_value(ValueView::String(Some(id)))
}

/// The statement that deletes the stored bookmark under `id`.
pub open spec fn delete_statement(id: Seq<char>) -> QueryView {
    empty_query().with_piece("DELETE FROM "@).with_piece("bookmark"@).with_piece(
        " WHERE id = ?"@,
    ).with_value(ValueView::String(Some(id)))
}

/// The tag and the association that a request wants for the path `path` on
/// the entity `ref_id`: the tag at the path, and an association that names
/// the entity and nothing else.
pub open spec fn wanted_entry(ref_id: Seq<char>, path: Seq<char>) -> TaggedDataView {
    (
        tag_at(path),
        TaggedItemView { id: Seq::empty(), ref_id, tag_id: Seq::empty(), value: None },
    )
}

/// Whether each of `paths` has no more segments than the depth of a tag can
/// count.
pub open spec fn all_fit(paths: Seq<Seq<char>>) -> bool {
    forall|i: int| 0 <= i < paths.len() ==> depth_of(#[trigger] paths[i]) <= u32::MAX
}

impl BookmarkRequest {
    /// The bookmark that this request asks to create, under the identifier
    /// `id`, owned by `owner`, at `now`.
    pub fn bookmark(&self, id: String, owner: String, now: Timestamp) -> (bookmark: Bookmark)
        ensures
            bookmark@ == requested_bookmark(
                id@,
                owner@,
                text_of(self.title),
                text_of(self.url),
                text_of(self.description),
                now,
            ),
    {
        Bookmark {
            id,
            user_id: owner,
            title: copy_text(&self.title),
            url: copy_text(&self.url),
            description: copy_text(&self.description),
            resource_id: None,
            created_at: Some(now),
            updated_at: Some(now),
        }
    }

    /// `bookmark` as this request, made at `now`, leaves it.
    pub fn amend(&self, bookmark: Bookmark, now: Timestamp) -> (amended: Bookmark)
        ensures
            amended@ == amended_bookmark(
                bookmark@,
                text_of(self.title),
                text_of(self.url),
                text_of(self.description),
                now,
            ),
    {
        Bookmark {
            id: bookmark.id,
            user_id: bookmark.user_id,
            title: replace_text(bookmark.title, &self.title),
            url: replace_text(bookmark.url, &self.url),
            description: replace_text(bookmark.description, &self.description),
            resource_id: bookmark.resource_id,
            created_at: bookmark.created_at,
            updated_at: Some(now),
        }
    }

    /// The statement that writes this request, made at `now`, over the
    /// stored bookmark under `id`.
    pub fn update_query(&self, id: &String, now: Timestamp) -> (query: Query)
        ensures
            query@ == update_statement(
                id@,
                text_of(self.title),
                text_of(self.url),
                text_of(self.description),
                now,
            ),
    {
        let mut values = Query::new();
        values.set_separator(", ");
        values.push_str("updated_at = ?");
        values.bind(Value::DateTime(Some(now)));
        condition(&mut values, "url = ?", &self.url);
        condition(&mut values, "title = ?", &self.title);
        condition(&mut values, "description = ?", &self.description);
        let mut query = Query::new();
        query.push_str("UPDATE ");
        query.push_str(BOOKMARK_TABLE);
        query.push_str(" SET ");
        query.append(values);
        query.push_str(" WHERE id = ?");
        query.bind(Value::String(Some(id.clone())));
        query
    }

    /// The tags that this request wants attached to the entity `ref_id`, each
    /// with the association that is to attach it: one entry for each path of
    /// the request, in order, none where the request names no tags. `None`
    /// exactly where some path has more segments than the depth of a tag can
    /// count.
    pub fn tagged_data(&self, ref_id: &String) -> (data: Option<Vec<TaggedData>>)
        ensures
            data is Some <==> (self.tags is Some ==> all_fit(texts_of(self.tags->0@))),
            data is Some ==> data_views(data->0@) == match self.tags {
                Some(paths) => texts_of(paths@).map_values(
                    |path: Seq<char>| wanted_entry(ref_id@, path),
                ),
                None => Seq::empty(),
            },
    {
        let mut data: Vec<TaggedData> = Vec::new();
        match &self.tags {
            None => {
                proof {
                    assert(data_views(data@) =~= Seq::<TaggedDataView>::empty());
                }
                Some(data)
            },
            Some(paths) => {
                let ghost texts = texts_of(paths@);
                let mut i: usize = 0;
                while i < paths.len()
                    invariant
                        i <= paths.len(),
                        texts == texts_of(paths@),
                        self.tags is Some,
                        self.tags->0@ == paths@,
                        data.len() == i,
                        forall|k: int| 0 <= k < i ==> depth_of(#[trigger] texts[k]) <= u32::MAX,
                        forall|k: int|
                            0 <= k < i ==> (#[trigger] data@[k])@ == wanted_entry(
                                ref_id@,
                                texts[k],
                            ),
                    decreases paths.len() - i,
                {
                    proof {
                        assert(texts[i as int] == paths@[i as int]@);
                    }
                    match Tag::checked_from_path(paths[i].clone()) {
                        Some(tag) => {
                            let item = TaggedItem {
                                id: String::new(),
                                ref_id: ref_id.clone(),
                                tag_id: String::new(),
                                value: None,
                            };
                            data.push(TaggedData(tag, item));
                        },
                        None => {
                            return None;
                        },
                    }
                    i = i + 1;
                }
                proof {
                    assert(data_views(data@) =~= texts.map_values(
                        |path: Seq<char>| wanted_entry(ref_id@, path),
                    ));
                }
                Some(data)
            },
        }
    }
}

/// The statement that inserts `bookmark`.
pub fn insert_bookmark_query(bookmark: &Bookmark) -> (query: Query)
    ensures
        query@ == insert_statement(bookmark@),
{
    let mut values: Vec<Value> = Vec::new();
    values.push(Value::String(Some(bookmark.id.clone())));
    values.push(Value::String(Some(bookmark.user_id.clone())));
    values.push(Value::String(copy_text(&bookmark.title)));
    values.push(Value::String(copy_text(&bookmark.url)));
    values.push(Value::String(copy_text(&bookmark.description)));
    values.push(Value::DateTime(bookmark.created_at));
    values.push(Value::DateTime(bookmark.updated_at));
    proof {
        assert(value_views(values@) =~= seq![
            ValueView::String(Some(bookmark@.id)),
            ValueView::String(Some(bookmark@.user_id)),
            ValueView::String(bookmark@.title),
            ValueView::String(bookmark@.url),
            ValueView::String(bookmark@.description),
            ValueView::DateTime(bookmark@.created_at),
            ValueView::DateTime(bookmark@.updated_at),
        ]);
    }
    let mut query = Query::new();
    query.push_str("INSERT INTO ");
    query.push_str(BOOKMARK_TABLE);
    query.push_str(" (id, user_id, title, url, description, created_at, updated_at) VALUES (");
    query.append(list_of(values));
    query.push_str(")");
    query
}

/// The statement that deletes the stored bookmark under `id`.
pub fn delete_bookmark_query(id: &String) -> (query: Query)
    ensures
        query@ == delete_statement(id@),
{
    let mut query = Query::new();
    query.push_str("DELETE FROM ");
    query.push_str(BOOKMARK_TABLE);
    query.push_str(" WHERE id = ?");
    query.bind(Value::String(Some(id.clone())));
    query
}

} // verus!
