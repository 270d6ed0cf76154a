//! Named text or binary resources behind one handle, whether their bytes were
//! embedded in the program or are read from a file that may change and be
//! reloaded.
//!
//! The handle keeps the decisions: whether a file-backed resource is stale,
//! when a reload is owed, and how a read is committed. Reading a file and
//! asking for its modification time are left to the caller, who hands the
//! outcome in as plain values.

pub mod batch;
pub mod content;
pub mod listing;
pub mod resource;
pub mod timestamp;

pub use crate::content::ReadFromFile;
pub use crate::resource::InvalidContent;
pub use crate::resource::Resource;
pub use crate::resource::ResourceView;
pub use crate::resource::Snapshot;
pub use crate::timestamp::Timestamp;
