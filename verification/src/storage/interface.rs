//! The operations of a store.

use crate::models::{File, NewFile, NewRecord, NewSource, Record, Source};
use crate::result::Error;
use crate::storage::model::{
    count_files, count_records, file_with_remote_id, first_source, link_records, mark_scraped,
    place_files, scrape_times_kept, search_sources, sources_due, sources_of_kind, upsert_files,
    upsert_records, upsert_sources, views, Store,
};
use vstd::prelude::*;

verus! {

/// What the ingestion engine asks of a store. Every operation may fail, and
/// then fails with [`Error::DbError`]. An operation that fails has left the
/// tables that it does not write as they were, and has touched no scrape
/// time: the mark of a scrape is set wholly or not at all. What else a
/// failed operation has left in its own table is not stated.
pub trait Storage {
    /// The three tables.
    spec fn view(&self) -> Store;

    /// Sets local path and file name of the row with the id of `file`.
    fn save_file(&mut self, file: &File) -> (r: Result<(), Error>)
        ensures
            match r {
                Ok(_) => final(self)@ == (Store {
                    files: place_files(old(self)@.files, file@),
                    ..old(self)@
                }),
                Err(e) => e is DbError && final(self)@.sources == old(self)@.sources
                    && final(self)@.records == old(self)@.records,
            },
    ;

    /// The one file with the given remote id, if there is one. More than
    /// one is an error.
    fn get_file_by_remote_id(&self, remote_id: &str) -> (r: Result<Option<File>, Error>)
        ensures
            match r {
                Ok(Some(file)) => count_files(self@.files, remote_id@) == 1 && Some(file@)
                    == file_with_remote_id(self@.files, remote_id@),
                Ok(None) => count_files(self@.files, remote_id@) == 0,
                Err(e) => e is DbError,
            },
    ;

    /// Upserts files by their remote id.
    fn save_files(&mut self, files: &Vec<NewFile>) -> (r: Result<(), Error>)
        ensures
            match r {
                Ok(_) => {
                    &&& final(self)@.sources == old(self)@.sources
                    &&& final(self)@.records == old(self)@.records
                    &&& exists|ids: Seq<int>|
                        ids.len() == files@.len() && final(self)@.files == #[trigger] upsert_files(
                            old(self)@.files,
                            views(files@),
                            ids,
                        )
                    &&& old(self)@.wf() ==> final(self)@.wf()
                },
                Err(e) => e is DbError && final(self)@.sources == old(self)@.sources
                    && final(self)@.records == old(self)@.records,
            },
    ;

    /// Sets the link of the record with the given key; returns how many
    /// rows have that key.
    fn set_record_external_link(
        &mut self,
        source_record_id: &str,
        source_id: i32,
        external_link: &str,
    ) -> (r: Result<usize, Error>)
        ensures
            match r {
                Ok(n) => {
                    &&& final(self)@ == (Store {
                        records: link_records(
                            old(self)@.records,
                            source_record_id@,
                            source_id as int,
                            external_link@,
                        ),
                        ..old(self)@
                    })
                    &&& n == count_records(old(self)@.records, source_record_id@, source_id as int)
                },
                Err(e) => e is DbError && final(self)@.sources == old(self)@.sources
                    && final(self)@.files == old(self)@.files,
            },
    ;

    /// Upserts records by source record id and source id; a record without
    /// a date is dated `now`. Returns the rows that are new.
    fn save_records(&mut self, records: &Vec<NewRecord>, now: i64) -> (r: Result<
        Vec<Record>,
        Error,
    >)
        ensures
            match r {
                Ok(inserted) => {
                    &&& final(self)@.sources == old(self)@.sources
                    &&& final(self)@.files == old(self)@.files
                    &&& exists|ids: Seq<int>|
                        ids.len() == records@.len() && final(self)@.records
                            == #[trigger] upsert_records(
                            old(self)@.records,
                            views(records@),
                            now as int,
                            ids,
                        )
                    &&& final(self)@.records.len() >= old(self)@.records.len()
                    &&& views(inserted@) == final(self)@.records.subrange(
                        old(self)@.records.len() as int,
                        final(self)@.records.len() as int,
                    )
                    &&& old(self)@.wf() ==> final(self)@.wf()
                },
                Err(e) => e is DbError && final(self)@.sources == old(self)@.sources
                    && final(self)@.files == old(self)@.files,
            },
    ;

    /// Notes that the source with the id of `source` was scraped at `now`.
    fn set_source_scraped_now(&mut self, source: &Source, now: i64) -> (r: Result<(), Error>)
        ensures
            match r {
                Ok(_) => final(self)@ == (Store {
                    sources: mark_scraped(old(self)@.sources, source.id as int, now as int),
                    ..old(self)@
                }),
                Err(e) => e is DbError && final(self)@ == old(self)@,
            },
    ;

    /// The sources whose origin, link or name holds `query`.
    fn search_source(&self, query: &str) -> (r: Result<Vec<Source>, Error>)
        ensures
            match r {
                Ok(found) => views(found@) == search_sources(self@.sources, query@),
                Err(e) => e is DbError,
            },
    ;

    /// The sources of one kind.
    fn get_sources_by_kind(&self, kind: &str) -> (r: Result<Vec<Source>, Error>)
        ensures
            match r {
                Ok(found) => views(found@) == sources_of_kind(self@.sources, kind@),
                Err(e) => e is DbError,
            },
    ;

    /// The sources of one kind that were last scraped `check_secs_interval`
    /// seconds before `now`, or earlier.
    fn get_sources_by_kind_for_scrape(
        &self,
        kind: &str,
        check_secs_interval: i32,
        now: i64,
    ) -> (r: Result<Vec<Source>, Error>)
        ensures
            match r {
                Ok(found) => views(found@) == sources_due(
                    self@.sources,
                    kind@,
                    check_secs_interval as int,
                    now as int,
                ),
                Err(e) => e is DbError,
            },
    ;

    /// Upserts sources by origin and kind. Returns, for each source of the
    /// batch in its order, the row that now stands for it.
    fn save_sources(&mut self, sources: &Vec<NewSource>) -> (r: Result<Vec<Source>, Error>)
        ensures
            match r {
                Ok(saved) => {
                    &&& final(self)@.records == old(self)@.records
                    &&& final(self)@.files == old(self)@.files
                    &&& exists|ids: Seq<int>|
                        ids.len() == sources@.len() && final(self)@.sources
                            == #[trigger] upsert_sources(
                            old(self)@.sources,
                            views(sources@),
                            ids,
                        )
                    &&& saved@.len() == sources@.len()
                    &&& forall|i: int|
                        0 <= i < sources@.len() ==> Some((#[trigger] saved@[i])@) == first_source(
                            final(self)@.sources,
                            sources@[i].origin@,
                            sources@[i].kind@,
                        )
                    &&& old(self)@.wf() ==> final(self)@.wf()
                },
                Err(e) => e is DbError && final(self)@.records == old(self)@.records
                    && final(self)@.files == old(self)@.files && scrape_times_kept(
                    old(self)@.sources,
                    final(self)@.sources,
                ),
            },
    ;
}

} // verus!
