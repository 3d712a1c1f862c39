//! The index store: file, tag and cross-reference records, the rules that
//! keep them consistent, and their persistence in SQLite.

pub mod driver;
pub mod index;
pub mod laws;
pub mod record;
pub mod sqlite;
pub mod store;

pub use index::{FileTimes, IndexView};
pub use sqlite::SqliteClient;
pub use store::IndexStore;
pub use record::{FileInfo, FileView, NewTag, NewTagView, NewXref, Span, TagRecord, TagView, XrefRecord};
