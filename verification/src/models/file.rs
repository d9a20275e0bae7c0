//! The files attached to records.

use crate::tools::{clone_opt, opt_text};
use vstd::prelude::*;

verus! {

/// One binary attachment of a record.
#[derive(Debug, PartialEq, Eq)]
pub struct File {
    pub id: i32,
    pub record_id: i32,
    /// The kind of the source that the file came from.
    pub kind: String,
    /// Where the file lies on this machine; none until its download is done.
    pub local_path: Option<String>,
    pub remote_path: String,
    /// The remote system's handle of the file; no two files share one.
    pub remote_id: Option<String>,
    pub file_name: Option<String>,
    pub type_: String,
    pub meta: Option<String>,
}

pub struct FileView {
    pub id: int,
    pub record_id: int,
    pub kind: Seq<char>,
    pub local_path: Option<Seq<char>>,
    pub remote_path: Seq<char>,
    pub remote_id: Option<Seq<char>>,
    pub file_name: Option<Seq<char>>,
    pub type_: Seq<char>,
    pub meta: Option<Seq<char>>,
}

impl View for File {
    type V = FileView;

    open spec fn view(&self) -> FileView {
        FileView {
            id: self.id as int,
            record_id: self.record_id as int,
            kind: self.kind@,
            local_path: opt_text(self.local_path),
            remote_path: self.remote_path@,
            remote_id: opt_text(self.remote_id),
            file_name: opt_text(self.file_name),
            type_: self.type_@,
            meta: opt_text(self.meta),
        }
    }
}

impl Clone for File {
    fn clone(&self) -> (r: File)
        ensures
            r == *self,
    {
        File {
            id: self.id,
            record_id: self.record_id,
            kind: self.kind.clone(),
            local_path: clone_opt(&self.local_path),
            remote_path: self.remote_path.clone(),
            remote_id: clone_opt(&self.remote_id),
            file_name: clone_opt(&self.file_name),
            type_: self.type_.clone(),
            meta: clone_opt(&self.meta),
        }
    }
}

/// A file before the store has seen it.
#[derive(Debug, PartialEq, Eq)]
pub struct NewFile {
    pub record_id: i32,
    pub kind: String,
    pub local_path: Option<String>,
    pub remote_path: String,
    pub remote_id: Option<String>,
    pub file_name: Option<String>,
    pub type_: String,
    pub meta: Option<String>,
}

pub struct NewFileView {
    pub record_id: int,
    pub kind: Seq<char>,
    pub local_path: Option<Seq<char>>,
    pub remote_path: Seq<char>,
    pub remote_id: Option<Seq<char>>,
    pub file_name: Option<Seq<char>>,
    pub type_: Seq<char>,
    pub meta: Option<Seq<char>>,
}

impl View for NewFile {
    type V = NewFileView;

    open spec fn view(&self) -> NewFileView {
        NewFileView {
            record_id: self.record_id as int,
            kind: self.kind@,
            local_path: opt_text(self.local_path),
            remote_path: self.remote_path@,
            remote_id: opt_text(self.remote_id),
            file_name: opt_text(self.file_name),
            type_: self.type_@,
            meta: opt_text(self.meta),
        }
    }
}

impl Clone for NewFile {
    fn clone(&self) -> (r: NewFile)
        ensures
            r == *self,
    {
        NewFile {
            record_id: self.record_id,
            kind: self.kind.clone(),
            local_path: clone_opt(&self.local_path),
            remote_path: self.remote_path.clone(),
            remote_id: clone_opt(&self.remote_id),
            file_name: clone_opt(&self.file_name),
            type_: self.type_.clone(),
            meta: clone_opt(&self.meta),
        }
    }
}

} // verus!
