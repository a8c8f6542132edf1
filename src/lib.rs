//! Indexing and cross-reference resolution for a vault of interlinked notes.
//!
//! The index keeps, for every note file, the linkable entities it declares
//! (the file itself, its headings, its tags) and the link occurrences found in
//! its text. Queries resolve the link under a cursor to its target, or collect
//! every link that points at the entity under a cursor.
pub mod position;
pub mod refname;
pub mod vault;
pub mod resolve;
pub mod laws;
pub mod session;

pub use position::{Position, Range};
pub use refname::Referenceable;
pub use resolve::{find_definition, goto_definition, reference_sites, references, search_names_at, Location};
pub use session::{ServerError, Session};
pub use vault::{FileIndex, Reference, Vault, VaultView};
