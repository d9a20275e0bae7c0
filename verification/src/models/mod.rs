//! The rows of the store: sources, their records, and the files attached to
//! records. Each row type has a view that holds its texts as characters.

pub mod file;
pub mod record;
pub mod source;

pub use file::{File, FileView, NewFile, NewFileView};
pub use record::{NewRecord, NewRecordView, Record, RecordView};
pub use source::{NewSource, NewSourceView, Source, SourceView};
