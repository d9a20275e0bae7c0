//! The sources of records.

use crate::tools::{clone_opt, opt_text};
use vstd::prelude::*;

verus! {

/// A known upstream: a feed or a chat.
#[derive(Debug, PartialEq, Eq)]
pub struct Source {
    pub id: i32,
    pub name: String,
    /// What identifies the upstream within its kind: the address of a feed,
    /// the number of a chat in decimal.
    pub origin: String,
    pub kind: String,
    pub image: Option<String>,
    /// Seconds since the epoch; 0 for a source that was never scraped.
    pub last_scrape_time: i64,
    pub external_link: String,
}

pub struct SourceView {
    pub id: int,
    pub name: Seq<char>,
    pub origin: Seq<char>,
    pub kind: Seq<char>,
    pub image: Option<Seq<char>>,
    pub last_scrape_time: int,
    pub external_link: Seq<char>,
}

impl View for Source {
    type V = SourceView;

    open spec fn view(&self) -> SourceView {
        SourceView {
            id: self.id as int,
            name: self.name@,
            origin: self.origin@,
            kind: self.kind@,
            image: opt_text(self.image),
            last_scrape_time: self.last_scrape_time as int,
            external_link: self.external_link@,
        }
    }
}

impl Clone for Source {
    fn clone(&self) -> (r: Source)
        ensures
            r == *self,
    {
        Source {
            id: self.id,
            name: self.name.clone(),
            origin: self.origin.clone(),
            kind: self.kind.clone(),
            image: clone_opt(&self.image),
            last_scrape_time: self.last_scrape_time,
            external_link: self.external_link.clone(),
        }
    }
}

/// A source before the store has seen it.
#[derive(Debug, PartialEq, Eq)]
pub struct NewSource {
    pub name: String,
    pub origin: String,
    pub kind: String,
    pub image: Option<String>,
    pub external_link: String,
}

pub struct NewSourceView {
    pub name: Seq<char>,
    pub origin: Seq<char>,
    pub kind: Seq<char>,
    pub image: Option<Seq<char>>,
    pub external_link: Seq<char>,
}

impl View for NewSource {
    type V = NewSourceView;

    open spec fn view(&self) -> NewSourceView {
        NewSourceView {
            name: self.name@,
            origin: self.origin@,
            kind: self.kind@,
            image: opt_text(self.image),
            external_link: self.external_link@,
        }
    }
}

impl Clone for NewSource {
    fn clone(&self) -> (r: NewSource)
        ensures
            r == *self,
    {
        NewSource {
            name: self.name.clone(),
            origin: self.origin.clone(),
            kind: self.kind.clone(),
            image: clone_opt(&self.image),
            external_link: self.external_link.clone(),
        }
    }
}

} // verus!
