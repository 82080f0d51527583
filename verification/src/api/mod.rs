//! What the request handlers compute: the records they make from requests,
//! the statements they run and the responses they give.

pub mod bookmark;
pub mod metatag;
pub mod router;
pub mod state;
pub mod tag;
pub mod user;
