//! The records.

use crate::tools::{clone_opt, opt_text};
use vstd::prelude::*;

verus! {

/// One ingested item.
#[derive(Debug, PartialEq, Eq)]
pub struct Record {
    pub id: i32,
    pub title: Option<String>,
    /// The upstream's own stable name for the item.
    pub source_record_id: String,
    pub source_id: i32,
    pub content: String,
    /// Seconds since the epoch.
    pub date: i64,
    pub image: Option<String>,
    pub external_link: String,
}

pub struct RecordView {
    pub id: int,
    pub title: Option<Seq<char>>,
    pub source_record_id: Seq<char>,
    pub source_id: int,
    pub content: Seq<char>,
    pub date: int,
    pub image: Option<Seq<char>>,
    pub external_link: Seq<char>,
}

impl View for Record {
    type V = RecordView;

    open spec fn view(&self) -> RecordView {
        RecordView {
            id: self.id as int,
            title: opt_text(self.title),
            source_record_id: self.source_record_id@,
            source_id: self.source_id as int,
            content: self.content@,
            date: self.date as int,
            image: opt_text(self.image),
            external_link: self.external_link@,
        }
    }
}

impl Clone for Record {
    fn clone(&self) -> (r: Record)
        ensures
            r == *self,
    {
        Record {
            id: self.id,
            title: clone_opt(&self.title),
            source_record_id: self.source_record_id.clone(),
            source_id: self.source_id,
            content: self.content.clone(),
            date: self.date,
            image: clone_opt(&self.image),
            external_link: self.external_link.clone(),
        }
    }
}

/// A record before the store has seen it.
#[derive(Debug, PartialEq, Eq)]
pub struct NewRecord {
    pub title: Option<String>,
    pub source_record_id: String,
    pub source_id: i32,
    pub content: String,
    /// Seconds since the epoch; where there is none the store dates the
    /// record itself.
    pub date: Option<i64>,
    pub image: Option<String>,
}

pub struct NewRecordView {
    pub title: Option<Seq<char>>,
    pub source_record_id: Seq<char>,
    pub source_id: int,
    pub content: Seq<char>,
    pub date: Option<int>,
    pub image: Option<Seq<char>>,
}

impl View for NewRecord {
    type V = NewRecordView;

    open spec fn view(&self) -> NewRecordView {
        NewRecordView {
            title: opt_text(self.title),
            source_record_id: self.source_record_id@,
            source_id: self.source_id as int,
            content: self.content@,
            date: match self.date {
                Some(d) => Some(d as int),
                None => None,
            },
            image: opt_text(self.image),
        }
    }
}

impl Clone for NewRecord {
    fn clone(&self) -> (r: NewRecord)
        ensures
            r == *self,
    {
        NewRecord {
            title: clone_opt(&self.title),
            source_record_id: self.source_record_id.clone(),
            source_id: self.source_id,
            content: self.content.clone(),
            date: self.date,
            image: clone_opt(&self.image),
        }
    }
}

} // verus!
