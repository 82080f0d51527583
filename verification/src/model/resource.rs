//! Resources: the pages that bookmarks point at.

use crate::util::Timestamp;
use vstd::prelude::*;

verus! {

/// A page on the web, by the parts of its address.
#[derive(Debug, Clone, PartialEq, Eq)]
pub struct Resource {
    pub id: String,
    pub url: String,
    pub protocol: String,
    pub host: String,
    pub path: Option<String>,
    pub query: Option<String>,
    pub created_at: Option<Timestamp>,
    pub updated_at: Option<Timestamp>,
}

} // verus!
