//! The core of a personal bookmarking service: tags that form a hierarchy by
//! their paths, and the associations that attach tags to bookmarks.
//!
//! The library decides; it neither reads nor writes. What it needs from the
//! store it asks for as a statement, what it wants written it hands out as
//! statements, and its caller runs them.
//!
//! - [`path`] derives the structure of a tag from its path.
//! - [`resolve`] resolves wanted paths into stored and new tags;
//!   [`reconcile`] finds the difference between wanted and stored
//!   associations. [`difference`] and [`store`] state what holds of every
//!   such difference and of the table it is written to.
//! - [`repo`] builds the statements for both and plans their
//!   synchronisation with the store.
//! - [`taskqueue`] holds the queue of background tasks and the maintenance of
//!   the hierarchy that a task asks for.
//! - [`database`] holds statements, values and rows; [`model`] the records;
//!   [`api`] what the request handlers compute; [`hash`] password hashing;
//!   [`util`] identifiers and the clock.

pub mod api;
pub mod database;
pub mod difference;
pub mod error;
pub mod hash;
pub mod model;
pub mod path;
pub mod reconcile;
pub mod repo;
pub mod resolve;
pub mod store;
pub mod taskqueue;
pub mod text;
pub mod util;
