//! Bookmarks.

use crate::database::query::{optional_instant_column, optional_text_column, text_column, ColumnView, Row};
use crate::error::Error;
use crate::text::{copy_text, text_of};
use crate::util::Timestamp;
use vstd::prelude::*;

verus! {

/// Name of the table that holds the bookmarks.
pub const BOOKMARK_TABLE: &'static str = "bookmark";

/// A bookmark of one user.
#[derive(Debug, Clone, PartialEq, Eq)]
pub struct Bookmark {
    pub id: String,
    pub user_id: String,
    pub title: Option<String>,
    pub url: Option<String>,
    pub description: Option<String>,
    pub resource_id: Option<String>,
    pub created_at: Option<Timestamp>,
    pub updated_at: Option<Timestamp>,
}

/// What a bookmark holds, with its texts as sequences of characters.
pub struct BookmarkView {
    pub id: Seq<char>,
    pub user_id: Seq<char>,
    pub title: Option<Seq<char>>,
    pub url: Option<Seq<char>>,
    pub description: Option<Seq<char>>,
    pub resource_id: Option<Seq<char>>,
    pub created_at: Option<Timestamp>,
    pub updated_at: Option<Timestamp>,
}

impl View for Bookmark {
    type V = BookmarkView;

    open spec fn view(&self) -> BookmarkView {
        BookmarkView {
            id: self.id@,
            user_id: self.user_id@,
            title: text_of(self.title),
            url: text_of(self.url),
            description: text_of(self.description),
            resource_id: text_of(self.resource_id),
            created_at: self.created_at,
            updated_at: self.updated_at,
        }
    }
}

impl Default for Bookmark {
    fn default() -> (bookmark: Bookmark)
        ensures
            bookmark@ == (BookmarkView {
                id: Seq::empty(),
                user_id: Seq::empty(),
                title: None,
                url: None,
                description: None,
                resource_id: None,
                created_at: None,
                updated_at: None,
            }),
    {
        Bookmark {
            id: String::new(),
            user_id: String::new(),
            title: None,
            url: None,
            description: None,
            resource_id: None,
            created_at: None,
            updated_at: None,
        }
    }
}

/// Whether a row holds every column of a bookmark, each of the type the
/// bookmark needs.
pub open spec fn bookmark_decodes(row: Seq<ColumnView>) -> bool {
    &&& text_column(row, "id"@) is Ok
    &&& text_column(row, "user_id"@) is Ok
    &&& optional_text_column(row, "title"@) is Ok
    &&& optional_text_column(row, "url"@) is Ok
    &&& optional_text_column(row, "description"@) is Ok
    &&& optional_text_column(row, "resource_id"@) is Ok
    &&& optional_instant_column(row, "created_at"@) is Ok
    &&& optional_instant_column(row, "updated_at"@) is Ok
}

/// The bookmark that a row holds, column by column.
pub open spec fn bookmark_in(row: Seq<ColumnView>) -> BookmarkView
    recommends
        bookmark_decodes(row),
{
    BookmarkView {
        id: text_column(row, "id"@)->Ok_0,
        user_id: text_column(row, "user_id"@)->Ok_0,
        title: optional_text_column(row, "title"@)->Ok_0,
        url: optional_text_column(row, "url"@)->Ok_0,
        description: optional_text_column(row, "description"@)->Ok_0,
        resource_id: optional_text_column(row, "resource_id"@)->Ok_0,
        created_at: optional_instant_column(row, "created_at"@)->Ok_0,
        updated_at: optional_instant_column(row, "updated_at"@)->Ok_0,
    }
}

impl Bookmark {
    /// A copy of this bookmark.
    pub fn duplicate(&self) -> (bookmark: Bookmark)
        ensures
            bookmark@ == self@,
    {
        Bookmark {
            id: self.id.clone(),
            user_id: self.user_id.clone(),
            title: copy_text(&self.title),
            url: copy_text(&self.url),
            description: copy_text(&self.description),
            resource_id: copy_text(&self.resource_id),
            created_at: self.created_at,
            updated_at: self.updated_at,
        }
    }

    /// The bookmark that a stored row holds. Fails, with a decode failure,
    /// exactly where the row lacks a column of a bookmark or holds one under
    /// another type.
    pub fn from_row(row: &Row) -> (made: Result<Bookmark, Error>)
        ensures
            made is Ok <==> bookmark_decodes(row@),
            made is Ok ==> made->Ok_0@ == bookmark_in(row@),
            made is Err ==> made->Err_0 == Error::DecodeFailure,
    {
        let id = row.text("id");
        let user_id = row.text("user_id");
        let title = row.optional_text("title");
        let url = row.optional_text("url");
        let description = row.optional_text("description");
        let resource_id = row.optional_text("resource_id");
        let created_at = row.optional_instant("created_at");
        let updated_at = row.optional_instant("updated_at");
        match (id, user_id, title, url, description, resource_id, created_at, updated_at) {
            (
                Ok(id),
                Ok(user_id),
                Ok(title),
                Ok(url),
                Ok(description),
                Ok(resource_id),
                Ok(created_at),
                Ok(updated_at),
            ) => Ok(
                Bookmark {
                    id,
                    user_id,
                    title,
                    url,
                    description,
                    resource_id,
                    created_at,
                    updated_at,
                },
            ),
            _ => Err(Error::DecodeFailure),
        }
    }
}

} // verus!
