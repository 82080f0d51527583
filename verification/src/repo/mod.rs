//! What is read from and written to the store: the statements for tags and
//! tag associations, and the synchronisation of wanted tags and wanted
//! associations with what is stored.

pub mod script;
pub mod tagged;
pub mod tag;
