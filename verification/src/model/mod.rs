//! Domain records.

pub mod bookmark;
pub mod resource;
pub mod tag;
pub mod user;

pub use bookmark::{Bookmark, BOOKMARK_TABLE};
pub use resource::Resource;
pub use tag::{Tag, TaggedItem, TaggedType, TAG_TABLE};
pub use user::{User, USER_TABLE};
