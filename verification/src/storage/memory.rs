//! A store in memory.

use crate::models::{
    File, FileView, NewFile, NewRecord, NewSource, Record, RecordView, Source, SourceView,
};
use crate::result::Error;
use crate::storage::interface::Storage;
use crate::storage::model::{
    count_files, count_records, file_is_known, file_with_remote_id, first_source, has_record,
    has_source, lemma_first_source_at, lemma_first_source_none, lemma_first_source_some,
    lemma_scrape_times_kept_on, lemma_upsert_file_distinct, lemma_upsert_record_distinct,
    lemma_upsert_source_distinct, lemma_upsert_source_keeps_times, lemma_upsert_sources_has,
    link_record, link_records, mark_scraped, mark_scraped_row, place_file, place_files,
    record_has_key, rename_source, replace_file, rewrite_record, scrape_times_kept, search_sources,
    source_has_key, sources_due, sources_of_kind, upsert_file, upsert_files, upsert_record,
    upsert_records, upsert_source, upsert_sources, views, Store,
};
use crate::tools::{clone_opt, same_text, text_contains};
use vstd::prelude::*;

verus! {

/// A store in memory. A new row gets the id that follows the largest id of
/// its table, 1 in an empty table.
pub struct St {
    sources: Vec<Source>,
    records: Vec<Record>,
    files: Vec<File>,
}

/// What a table fails with when no id is left for a new row.
fn ids_exhausted() -> (e: Error)
    ensures
        e is DbError,
        e.detail() == "no id is left"@,
{
    Error::DbError("no id is left".to_owned())
}

impl St {
    /// An empty store.
    pub fn new() -> (st: St)
        ensures
            st@.sources.len() == 0,
            st@.records.len() == 0,
            st@.files.len() == 0,
            st@.wf(),
    {
        St { sources: Vec::new(), records: Vec::new(), files: Vec::new() }
    }

    /// The sources, in the order of the table.
    pub fn sources(&self) -> (rows: Vec<Source>)
        ensures
            views(rows@) == self@.sources,
    {
        let mut rows: Vec<Source> = Vec::new();
        let mut j: usize = 0;
        while j < self.sources.len()
            invariant
                j <= self.sources@.len(),
                rows@.len() == j,
                forall|k: int| 0 <= k < j ==> (#[trigger] rows@[k])@ == self.sources@[k]@,
            decreases self.sources@.len() - j,
        {
            rows.push(self.sources[j].clone());
            j += 1;
        }
        assert(views(rows@) =~= views(self.sources@));
        rows
    }

    /// The records, in the order of the table.
    pub fn records(&self) -> (rows: Vec<Record>)
        ensures
            views(rows@) == self@.records,
    {
        let mut rows: Vec<Record> = Vec::new();
        let mut j: usize = 0;
        while j < self.records.len()
            invariant
                j <= self.records@.len(),
                rows@.len() == j,
                forall|k: int| 0 <= k < j ==> (#[trigger] rows@[k])@ == self.records@[k]@,
            decreases self.records@.len() - j,
        {
            rows.push(self.records[j].clone());
            j += 1;
        }
        assert(views(rows@) =~= views(self.records@));
        rows
    }

    /// The files, in the order of the table.
    pub fn files(&self) -> (rows: Vec<File>)
        ensures
            views(rows@) == self@.files,
    {
        let mut rows: Vec<File> = Vec::new();
        let mut j: usize = 0;
        while j < self.files.len()
            invariant
                j <= self.files@.len(),
                rows@.len() == j,
                forall|k: int| 0 <= k < j ==> (#[trigger] rows@[k])@ == self.files@[k]@,
            decreases self.files@.len() - j,
        {
            rows.push(self.files[j].clone());
            j += 1;
        }
        assert(views(rows@) =~= views(self.files@));
        rows
    }

    fn next_source_id(&self) -> (r: Option<i32>)
        ensures
            r matches Some(id) ==> forall|j: int|
                0 <= j < self.sources@.len() ==> (#[trigger] self.sources@[j]).id < id,
            r matches Some(id) ==> id == 1 || exists|j: int|
                0 <= j < self.sources@.len() && (#[trigger] self.sources@[j]).id == id - 1,
            r is None ==> exists|j: int|
                0 <= j < self.sources@.len() && (#[trigger] self.sources@[j]).id == i32::MAX,
    {
        let mut top: i32 = 0;
        let mut j: usize = 0;
        while j < self.sources.len()
            invariant
                j <= self.sources@.len(),
                forall|k: int| 0 <= k < j ==> (#[trigger] self.sources@[k]).id <= top,
                top == 0 || exists|k: int| 0 <= k < j && (#[trigger] self.sources@[k]).id == top,
            decreases self.sources@.len() - j,
        {
            if self.sources[j].id > top {
                top = self.sources[j].id;
            }
            j += 1;
        }
        if top < i32::MAX {
            Some(top + 1)
        } else {
            None
        }
    }

    fn next_record_id(&self) -> (r: Option<i32>)
        ensures
            r matches Some(id) ==> forall|j: int|
                0 <= j < self.records@.len() ==> (#[trigger] self.records@[j]).id < id,
            r matches Some(id) ==> id == 1 || exists|j: int|
                0 <= j < self.records@.len() && (#[trigger] self.records@[j]).id == id - 1,
            r is None ==> exists|j: int|
                0 <= j < self.records@.len() && (#[trigger] self.records@[j]).id == i32::MAX,
    {
        let mut top: i32 = 0;
        let mut j: usize = 0;
        while j < self.records.len()
            invariant
                j <= self.records@.len(),
                forall|k: int| 0 <= k < j ==> (#[trigger] self.records@[k]).id <= top,
                top == 0 || exists|k: int| 0 <= k < j && (#[trigger] self.records@[k]).id == top,
            decreases self.records@.len() - j,
        {
            if self.records[j].id > top {
                top = self.records[j].id;
            }
            j += 1;
        }
        if top < i32::MAX {
            Some(top + 1)
        } else {
            None
        }
    }

    fn next_file_id(&self) -> (r: Option<i32>)
        ensures
            r matches Some(id) ==> forall|j: int|
                0 <= j < self.files@.len() ==> (#[trigger] self.files@[j]).id < id,
            r matches Some(id) ==> id == 1 || exists|j: int|
                0 <= j < self.files@.len() && (#[trigger] self.files@[j]).id == id - 1,
            r is None ==> exists|j: int|
                0 <= j < self.files@.len() && (#[trigger] self.files@[j]).id == i32::MAX,
    {
        let mut top: i32 = 0;
        let mut j: usize = 0;
        while j < self.files.len()
            invariant
                j <= self.files@.len(),
                forall|k: int| 0 <= k < j ==> (#[trigger] self.files@[k]).id <= top,
                top == 0 || exists|k: int| 0 <= k < j && (#[trigger] self.files@[k]).id == top,
            decreases self.files@.len() - j,
        {
            if self.files[j].id > top {
                top = self.files[j].id;
            }
            j += 1;
        }
        if top < i32::MAX {
            Some(top + 1)
        } else {
            None
        }
    }

    /// Gives every source with the key of `item` the name of `item`; says
    /// whether there was one.
    fn rename_sources(&mut self, item: &NewSource) -> (found: bool)
        ensures
            found == has_source(old(self)@.sources, item.origin@, item.kind@),
            views(final(self).sources@) == Seq::new(
                old(self)@.sources.len(),
                |i: int| rename_source(old(self)@.sources[i], item@),
            ),
            final(self).records == old(self).records,
            final(self).files == old(self).files,
    {
        let mut found = false;
        let mut j: usize = 0;
        let ghost before = views(self.sources@);
        while j < self.sources.len()
            invariant
                j <= self.sources@.len(),
                self.sources@.len() == before.len(),
                before == views(old(self).sources@),
                self.records == old(self).records,
                self.files == old(self).files,
                forall|k: int|
                    0 <= k < j ==> (#[trigger] self.sources@[k])@ == rename_source(
                        before[k],
                        item@,
                    ),
                forall|k: int| j <= k < before.len()
                    ==> (#[trigger] self.sources@[k])@ == before[k],
                found == exists|k: int|
                    0 <= k < j && source_has_key(#[trigger] before[k], item.origin@, item.kind@),
            decreases self.sources@.len() - j,
        {
            let row = &self.sources[j];
            if row.origin == item.origin && row.kind == item.kind {
                let mut changed = row.clone();
                changed.name = item.name.clone();
                self.sources.set(j, changed);
                found = true;
            }
            j += 1;
        }
        assert(views(self.sources@) =~= Seq::new(
            before.len(),
            |i: int| rename_source(before[i], item@),
        ));
        found
    }

    /// Gives every record with the key of `item` the content of `item`;
    /// says whether there was one.
    fn rewrite_records(&mut self, item: &NewRecord) -> (found: bool)
        ensures
            found == has_record(old(self)@.records, item.source_record_id@, item.source_id as int),
            views(final(self).records@) == Seq::new(
                old(self)@.records.len(),
                |i: int| rewrite_record(old(self)@.records[i], item@),
            ),
            final(self).sources == old(self).sources,
            final(self).files == old(self).files,
    {
        let mut found = false;
        let mut j: usize = 0;
        let ghost before = views(self.records@);
        while j < self.records.len()
            invariant
                j <= self.records@.len(),
                self.records@.len() == before.len(),
                before == views(old(self).records@),
                self.sources == old(self).sources,
                self.files == old(self).files,
                forall|k: int|
                    0 <= k < j ==> (#[trigger] self.records@[k])@ == rewrite_record(
                        before[k],
                        item@,
                    ),
                forall|k: int| j <= k < before.len()
                    ==> (#[trigger] self.records@[k])@ == before[k],
                found == exists|k: int|
                    0 <= k < j && record_has_key(
                        #[trigger] before[k],
                        item.source_record_id@,
                        item.source_id as int,
                    ),
            decreases self.records@.len() - j,
        {
            let row = &self.records[j];
            if row.source_record_id == item.source_record_id && row.source_id == item.source_id {
                let mut changed = row.clone();
                changed.content = item.content.clone();
                self.records.set(j, changed);
                found = true;
            }
            j += 1;
        }
        assert(views(self.records@) =~= Seq::new(
            before.len(),
            |i: int| rewrite_record(before[i], item@),
        ));
        found
    }

    /// Gives every file with the remote id of `item` the local path and the
    /// file name of `item`; says whether there was one.
    fn replace_files(&mut self, item: &NewFile) -> (found: bool)
        ensures
            found == file_is_known(old(self)@.files, item@),
            views(final(self).files@) == Seq::new(
                old(self)@.files.len(),
                |i: int| replace_file(old(self)@.files[i], item@),
            ),
            final(self).sources == old(self).sources,
            final(self).records == old(self).records,
    {
        let ghost before = views(self.files@);
        match &item.remote_id {
            None => {
                assert(views(self.files@) =~= Seq::new(
                    before.len(),
                    |i: int| replace_file(before[i], item@),
                ));
                false
            },
            Some(remote_id) => {
                let mut found = false;
                let mut j: usize = 0;
                while j < self.files.len()
                    invariant
                        j <= self.files@.len(),
                        self.files@.len() == before.len(),
                        before == views(old(self).files@),
                        item@.remote_id == Some(remote_id@),
                        self.sources == old(self).sources,
                        self.records == old(self).records,
                        forall|k: int|
                            0 <= k < j ==> (#[trigger] self.files@[k])@ == replace_file(
                                before[k],
                                item@,
                            ),
                        forall|k: int|
                            j <= k < before.len() ==> (#[trigger] self.files@[k])@ == before[k],
                        found == exists|k: int|
                            0 <= k < j && (#[trigger] before[k]).remote_id == Some(remote_id@),
                    decreases self.files@.len() - j,
                {
                    let row = &self.files[j];
                    let same = match &row.remote_id {
                        Some(other) => same_text(other.as_str(), remote_id.as_str()),
                        None => false,
                    };
                    if same {
                        let mut changed = row.clone();
                        changed.local_path = clone_opt(&item.local_path);
                        changed.file_name = clone_opt(&item.file_name);
                        self.files.set(j, changed);
                        found = true;
                    }
                    j += 1;
                }
                assert(views(self.files@) =~= Seq::new(
                    before.len(),
                    |i: int| replace_file(before[i], item@),
                ));
                found
            },
        }
    }

    /// The first source with the given origin and kind.
    fn find_source(&self, origin: &String, kind: &String) -> (r: Option<Source>)
        ensures
            match r {
                Some(row) => Some(row@) == first_source(self@.sources, origin@, kind@),
                None => first_source(self@.sources, origin@, kind@) is None,
            },
    {
        let mut j: usize = 0;
        while j < self.sources.len()
            invariant
                j <= self.sources@.len(),
                forall|k: int|
                    0 <= k < j ==> !source_has_key(
                        #[trigger] views(self.sources@)[k],
                        origin@,
                        kind@,
                    ),
            decreases self.sources@.len() - j,
        {
            let row = &self.sources[j];
            if row.origin == *origin && row.kind == *kind {
                proof {
                    lemma_first_source_at(views(self.sources@), origin@, kind@, j as int);
                }
                return Some(row.clone());
            }
            j += 1;
        }
        proof {
            lemma_first_source_none(views(self.sources@), origin@, kind@);
        }
        None
    }
}


/// From index `from` on, each id is the one that follows the largest id in
/// front of it, and 1 where no id in front of it is above 0.
pub open spec fn ids_follow(ids: Seq<int>, from: int) -> bool {
    forall|k: int|
        from <= k < ids.len() ==> {
            &&& forall|j: int| 0 <= j < k ==> ids[j] < #[trigger] ids[k]
            &&& (ids[k] == 1 || exists|j: int| 0 <= j < k && ids[j] == ids[k] - 1)
        }
}

/// The ids of the rows, in their order.
pub open spec fn source_ids(rows: Seq<SourceView>) -> Seq<int> {
    Seq::new(rows.len(), |i: int| rows[i].id)
}

/// The ids of the rows, in their order.
pub open spec fn record_ids(rows: Seq<RecordView>) -> Seq<int> {
    Seq::new(rows.len(), |i: int| rows[i].id)
}

/// The ids of the rows, in their order.
pub open spec fn file_ids(rows: Seq<FileView>) -> Seq<int> {
    Seq::new(rows.len(), |i: int| rows[i].id)
}

/// The table can take `room` new rows: `room`, and every id of the table
/// plus `room`, is below the largest id.
pub open spec fn sources_have_room(rows: Seq<SourceView>, room: int) -> bool {
    room < i32::MAX && forall|j: int|
        0 <= j < rows.len() ==> (#[trigger] rows[j]).id + room < i32::MAX
}

/// The table can take `room` new rows: `room`, and every id of the table
/// plus `room`, is below the largest id.
pub open spec fn records_have_room(rows: Seq<RecordView>, room: int) -> bool {
    room < i32::MAX && forall|j: int|
        0 <= j < rows.len() ==> (#[trigger] rows[j]).id + room < i32::MAX
}

/// The table can take `room` new rows: `room`, and every id of the table
/// plus `room`, is below the largest id.
pub open spec fn files_have_room(rows: Seq<FileView>, room: int) -> bool {
    room < i32::MAX && forall|j: int|
        0 <= j < rows.len() ==> (#[trigger] rows[j]).id + room < i32::MAX
}

impl Storage for St {
    closed spec fn view(&self) -> Store {
        Store {
            sources: views(self.sources@),
            records: views(self.records@),
            files: views(self.files@),
        }
    }

    /// Never fails.
    fn save_file(&mut self, file: &File) -> (r: Result<(), Error>)
        ensures
            r is Ok,
    {
        let ghost before = views(self.files@);
        let mut j: usize = 0;
        while j < self.files.len()
            invariant
                j <= self.files@.len(),
                self.files@.len() == before.len(),
                self.sources == old(self).sources,
                self.records == old(self).records,
                forall|k: int|
                    0 <= k < j ==> (#[trigger] self.files@[k])@ == place_file(before[k], file@),
                forall|k: int| j <= k < before.len() ==> (#[trigger] self.files@[k])@ == before[k],
            decreases self.files@.len() - j,
        {
            if self.files[j].id == file.id {
                let mut changed = self.files[j].clone();
                changed.local_path = clone_opt(&file.local_path);
                changed.file_name = clone_opt(&file.file_name);
                self.files.set(j, changed);
            }
            j += 1;
        }
        assert(views(self.files@) =~= place_files(before, file@));
        Ok(())
    }

    /// Fails exactly where more than one file has the remote id.
    fn get_file_by_remote_id(&self, remote_id: &str) -> (r: Result<Option<File>, Error>)
        ensures
            r is Err <==> count_files(self@.files, remote_id@) > 1,
    {
        let mut found: Option<File> = None;
        let mut n: usize = 0;
        let mut j: usize = 0;
        let ghost rows = views(self.files@);
        assert(rows.subrange(0, 0) =~= Seq::empty());
        while j < self.files.len()
            invariant
                j <= self.files@.len(),
                rows == views(self.files@),
                n <= j,
                n == count_files(rows.subrange(0, j as int), remote_id@),
                match found {
                    Some(file) => n > 0 && Some(file@) == file_with_remote_id(
                        rows.subrange(0, j as int),
                        remote_id@,
                    ),
                    None => n == 0,
                },
            decreases self.files@.len() - j,
        {
            let row = &self.files[j];
            let same = match &row.remote_id {
                Some(other) => same_text(other.as_str(), remote_id),
                None => false,
            };
            assert(rows.subrange(0, j + 1).drop_last() =~= rows.subrange(0, j as int));
            assert(rows.subrange(0, j + 1).last() == row@);
            if same {
                found = Some(row.clone());
                n += 1;
            }
            j += 1;
        }
        assert(rows.subrange(0, j as int) =~= rows);
        if n > 1 {
            let mut message = "found multiple files for id ".to_owned();
            message.append(remote_id);
            Err(Error::DbError(message))
        } else {
            Ok(found)
        }
    }

    /// Succeeds at least where every id of the files is more than the
    /// length of the batch below the largest id.
    fn save_files(&mut self, files: &Vec<NewFile>) -> (r: Result<(), Error>)
        ensures
            files_have_room(old(self)@.files, files@.len() as int) ==> r is Ok,
            r is Ok ==> ids_follow(file_ids(final(self)@.files), old(self)@.files.len() as int),
    {
        let ghost before = self@;
        let ghost mut ids: Seq<int> = Seq::empty();
        let mut i: usize = 0;
        assert(views(files@).subrange(0, 0) =~= Seq::empty());
        while i < files.len()
            invariant
                i <= files@.len(),
                ids.len() == i,
                before == old(self)@,
                self@.sources == before.sources,
                self@.records == before.records,
                self@.files == upsert_files(before.files, views(files@).subrange(0, i as int), ids),
                before.wf() ==> self@.wf(),
                files_have_room(before.files, files@.len() as int) ==> files_have_room(
                    self@.files,
                    files@.len() - i,
                ),
                self@.files.len() >= before.files.len(),
                ids_follow(file_ids(self@.files), before.files.len() as int),
            decreases files@.len() - i,
        {
            let item = &files[i];
            let ghost prev = self@.files;
            let found = self.replace_files(item);
            let ghost mid = self@.files;
            let ghost mut id_used: int = 0;
            if !found {
                match self.next_file_id() {
                    Some(id) => {
                        proof {
                            id_used = id as int;
                            assert(mid =~= prev);
                            if id != 1 {
                                let j = choose|j: int|
                                    0 <= j < self.files@.len() && (#[trigger] self.files@[j]).id
                                        == id - 1;
                                assert(prev[j].id == id - 1);
                            }
                            assert(id_used == 1 || exists|j: int|
                                0 <= j < prev.len() && (#[trigger] prev[j]).id == id_used - 1);
                        }
                        self.files.push(
                            File {
                                id,
                                record_id: item.record_id,
                                kind: item.kind.clone(),
                                local_path: clone_opt(&item.local_path),
                                remote_path: item.remote_path.clone(),
                                remote_id: clone_opt(&item.remote_id),
                                file_name: clone_opt(&item.file_name),
                                type_: item.type_.clone(),
                                meta: clone_opt(&item.meta),
                            },
                        );
                    },
                    None => {
                        proof {
                            let j = choose|j: int|
                                0 <= j < self.files@.len() && (#[trigger] self.files@[j]).id
                                    == i32::MAX;
                            assert(mid =~= prev);
                            assert(mid[j].id == i32::MAX);
                        }
                        return Err(ids_exhausted());
                    },
                }
            }
            proof {
                if !found {
                    assert(mid =~= prev);
                    assert(self@.files =~= prev.push(self@.files[prev.len() as int]));
                    assert forall|k: int| 0 <= k < prev.len() implies (#[trigger] prev[k]).id
                        < id_used by {
                        assert(self@.files[k].id < id_used);
                    }
                }
                let batch = views(files@).subrange(0, i + 1);
                assert(batch.drop_last() =~= views(files@).subrange(0, i as int));
                assert(batch.last() == item@);
                assert(ids.push(id_used).drop_last() =~= ids);
                ids = ids.push(id_used);
                assert(self@.files =~= upsert_file(prev, item@, id_used));
                assert(ids_follow(file_ids(self@.files), before.files.len() as int)) by {
                    let old_ids = file_ids(prev);
                    let new_ids = file_ids(self@.files);
                    assert forall|k: int| before.files.len() <= k < new_ids.len() implies {
                        &&& forall|j: int| 0 <= j < k ==> new_ids[j] < #[trigger] new_ids[k]
                        &&& (new_ids[k] == 1 || exists|j: int|
                            0 <= j < k && new_ids[j] == new_ids[k] - 1)
                    } by {
                        if k < prev.len() {
                            assert(new_ids[k] == old_ids[k]);
                            assert forall|j: int| 0 <= j < k implies new_ids[j] < new_ids[k] by {
                                assert(new_ids[j] == old_ids[j]);
                                assert(old_ids[j] < old_ids[k]);
                            }
                            if old_ids[k] != 1 {
                                let j = choose|j: int| 0 <= j < k && old_ids[j] == old_ids[k] - 1;
                                assert(new_ids[j] == new_ids[k] - 1);
                            }
                        } else {
                            assert(new_ids[k] == id_used);
                            assert forall|j: int| 0 <= j < k implies new_ids[j] < new_ids[k] by {
                                assert(prev[j].id < id_used);
                            }
                            if id_used != 1 {
                                let j = choose|j: int|
                                    0 <= j < prev.len() && (#[trigger] prev[j]).id == id_used - 1;
                                assert(new_ids[j] == new_ids[k] - 1);
                            }
                        }
                    }
                }
                if files_have_room(before.files, files@.len() as int) {
                    assert forall|k: int| 0 <= k < self@.files.len() implies (
                    #[trigger] self@.files[k]).id + (files@.len() - i - 1) < i32::MAX by {
                        if k < prev.len() {
                            assert(prev[k].id + (files@.len() - i) < i32::MAX);
                        } else if id_used != 1 {
                            let j = choose|j: int|
                                0 <= j < prev.len() && (#[trigger] prev[j]).id == id_used - 1;
                            assert(prev[j].id + (files@.len() - i) < i32::MAX);
                        }
                    }
                }
                if before.wf() {
                    lemma_upsert_file_distinct(prev, item@, id_used);
                }
            }
            i += 1;
        }
        assert(views(files@).subrange(0, i as int) =~= views(files@));
        Ok(())
    }

    /// Never fails.
    fn set_record_external_link(
        &mut self,
        source_record_id: &str,
        source_id: i32,
        external_link: &str,
    ) -> (r: Result<usize, Error>)
        ensures
            r is Ok,
    {
        let ghost before = views(self.records@);
        let mut n: usize = 0;
        let mut j: usize = 0;
        assert(before.subrange(0, 0) =~= Seq::empty());
        while j < self.records.len()
            invariant
                j <= self.records@.len(),
                self.records@.len() == before.len(),
                self.sources == old(self).sources,
                self.files == old(self).files,
                n <= j,
                n == count_records(
                    before.subrange(0, j as int),
                    source_record_id@,
                    source_id as int,
                ),
                forall|k: int|
                    0 <= k < j ==> (#[trigger] self.records@[k])@ == link_record(
                        before[k],
                        source_record_id@,
                        source_id as int,
                        external_link@,
                    ),
                forall|k: int| j <= k < before.len()
                    ==> (#[trigger] self.records@[k])@ == before[k],
            decreases self.records@.len() - j,
        {
            assert(before.subrange(0, j + 1).drop_last() =~= before.subrange(0, j as int));
            assert(before.subrange(0, j + 1).last() == before[j as int]);
            let row = &self.records[j];
            if row.source_id == source_id && same_text(
                row.source_record_id.as_str(),
                source_record_id,
            ) {
                let mut changed = row.clone();
                changed.external_link = external_link.to_owned();
                self.records.set(j, changed);
                n += 1;
            }
            j += 1;
        }
        assert(before.subrange(0, j as int) =~= before);
        assert(views(self.records@) =~= link_records(
            before,
            source_record_id@,
            source_id as int,
            external_link@,
        ));
        Ok(n)
    }

    /// Succeeds at least where every id of the records is more than the
    /// length of the batch below the largest id.
    fn save_records(&mut self, records: &Vec<NewRecord>, now: i64) -> (r: Result<
        Vec<Record>,
        Error,
    >)
        ensures
            records_have_room(old(self)@.records, records@.len() as int) ==> r is Ok,
            r is Ok ==> ids_follow(
                record_ids(final(self)@.records),
                old(self)@.records.len() as int,
            ),
    {
        let ghost before = self@;
        let start = self.records.len();
        let ghost mut ids: Seq<int> = Seq::empty();
        let mut i: usize = 0;
        assert(views(records@).subrange(0, 0) =~= Seq::empty());
        while i < records.len()
            invariant
                i <= records@.len(),
                ids.len() == i,
                before == old(self)@,
                start == before.records.len(),
                self.records@.len() >= start,
                self@.sources == before.sources,
                self@.files == before.files,
                self@.records == upsert_records(
                    before.records,
                    views(records@).subrange(0, i as int),
                    now as int,
                    ids,
                ),
                before.wf() ==> self@.wf(),
                records_have_room(before.records, records@.len() as int) ==> records_have_room(
                    self@.records,
                    records@.len() - i,
                ),
                self@.records.len() >= before.records.len(),
                ids_follow(record_ids(self@.records), before.records.len() as int),
            decreases records@.len() - i,
        {
            let item = &records[i];
            let ghost prev = self@.records;
            let found = self.rewrite_records(item);
            let ghost mid = self@.records;
            let ghost mut id_used: int = 0;
            if !found {
                match self.next_record_id() {
                    Some(id) => {
                        proof {
                            id_used = id as int;
                            assert(mid =~= prev);
                            if id != 1 {
                                let j = choose|j: int|
                                    0 <= j < self.records@.len() && (#[trigger] self.records@[j]).id
                                        == id - 1;
                                assert(prev[j].id == id - 1);
                            }
                            assert(id_used == 1 || exists|j: int|
                                0 <= j < prev.len() && (#[trigger] prev[j]).id == id_used - 1);
                        }
                        self.records.push(
                            Record {
                                id,
                                title: clone_opt(&item.title),
                                source_record_id: item.source_record_id.clone(),
                                source_id: item.source_id,
                                content: item.content.clone(),
                                date: match item.date {
                                    Some(d) => d,
                                    None => now,
                                },
                                image: clone_opt(&item.image),
                                external_link: String::new(),
                            },
                        );
                    },
                    None => {
                        proof {
                            let j = choose|j: int|
                                0 <= j < self.records@.len() && (#[trigger] self.records@[j]).id
                                    == i32::MAX;
                            assert(mid =~= prev);
                            assert(mid[j].id == i32::MAX);
                        }
                        return Err(ids_exhausted());
                    },
                }
            }
            proof {
                if !found {
                    assert(mid =~= prev);
                    assert(self@.records =~= prev.push(self@.records[prev.len() as int]));
                    assert forall|k: int| 0 <= k < prev.len() implies (#[trigger] prev[k]).id
                        < id_used by {
                        assert(self@.records[k].id < id_used);
                    }
                }
                let batch = views(records@).subrange(0, i + 1);
                assert(batch.drop_last() =~= views(records@).subrange(0, i as int));
                assert(batch.last() == item@);
                assert(ids.push(id_used).drop_last() =~= ids);
                ids = ids.push(id_used);
                assert(self@.records =~= upsert_record(prev, item@, now as int, id_used));
                assert(ids_follow(record_ids(self@.records), before.records.len() as int)) by {
                    let old_ids = record_ids(prev);
                    let new_ids = record_ids(self@.records);
                    assert forall|k: int| before.records.len() <= k < new_ids.len() implies {
                        &&& forall|j: int| 0 <= j < k ==> new_ids[j] < #[trigger] new_ids[k]
                        &&& (new_ids[k] == 1 || exists|j: int|
                            0 <= j < k && new_ids[j] == new_ids[k] - 1)
                    } by {
                        if k < prev.len() {
                            assert(new_ids[k] == old_ids[k]);
                            assert forall|j: int| 0 <= j < k implies new_ids[j] < new_ids[k] by {
                                assert(new_ids[j] == old_ids[j]);
                                assert(old_ids[j] < old_ids[k]);
                            }
                            if old_ids[k] != 1 {
                                let j = choose|j: int| 0 <= j < k && old_ids[j] == old_ids[k] - 1;
                                assert(new_ids[j] == new_ids[k] - 1);
                            }
                        } else {
                            assert(new_ids[k] == id_used);
                            assert forall|j: int| 0 <= j < k implies new_ids[j] < new_ids[k] by {
                                assert(prev[j].id < id_used);
                            }
                            if id_used != 1 {
                                let j = choose|j: int|
                                    0 <= j < prev.len() && (#[trigger] prev[j]).id == id_used - 1;
                                assert(new_ids[j] == new_ids[k] - 1);
                            }
                        }
                    }
                }
                if records_have_room(before.records, records@.len() as int) {
                    assert forall|k: int| 0 <= k < self@.records.len() implies (
                    #[trigger] self@.records[k]).id + (records@.len() - i - 1) < i32::MAX by {
                        if k < prev.len() {
                            assert(prev[k].id + (records@.len() - i) < i32::MAX);
                        } else if id_used != 1 {
                            let j = choose|j: int|
                                0 <= j < prev.len() && (#[trigger] prev[j]).id == id_used - 1;
                            assert(prev[j].id + (records@.len() - i) < i32::MAX);
                        }
                    }
                }
                if before.wf() {
                    lemma_upsert_record_distinct(prev, item@, now as int, id_used);
                }
            }
            i += 1;
        }
        assert(views(records@).subrange(0, i as int) =~= views(records@));
        let mut inserted: Vec<Record> = Vec::new();
        let mut j: usize = start;
        while j < self.records.len()
            invariant
                start <= j <= self.records@.len(),
                inserted@.len() == j - start,
                forall|k: int|
                    0 <= k < j - start ==> (#[trigger] inserted@[k])@ == self.records@[start + k]@,
            decreases self.records@.len() - j,
        {
            inserted.push(self.records[j].clone());
            j += 1;
        }
        assert(views(inserted@) =~= self@.records.subrange(
            start as int,
            self@.records.len() as int,
        ));
        Ok(inserted)
    }

    /// Never fails.
    fn set_source_scraped_now(&mut self, source: &Source, now: i64) -> (r: Result<(), Error>)
        ensures
            r is Ok,
    {
        let ghost before = views(self.sources@);
        let mut j: usize = 0;
        while j < self.sources.len()
            invariant
                j <= self.sources@.len(),
                self.sources@.len() == before.len(),
                self.records == old(self).records,
                self.files == old(self).files,
                forall|k: int|
                    0 <= k < j ==> (#[trigger] self.sources@[k])@ == mark_scraped_row(
                        before[k],
                        source.id as int,
                        now as int,
                    ),
                forall|k: int| j <= k < before.len()
                    ==> (#[trigger] self.sources@[k])@ == before[k],
            decreases self.sources@.len() - j,
        {
            if self.sources[j].id == source.id {
                let mut changed = self.sources[j].clone();
                changed.last_scrape_time = now;
                self.sources.set(j, changed);
            }
            j += 1;
        }
        assert(views(self.sources@) =~= mark_scraped(before, source.id as int, now as int));
        Ok(())
    }

    /// Never fails.
    fn search_source(&self, query: &str) -> (r: Result<Vec<Source>, Error>)
        ensures
            r is Ok,
    {
        let mut found: Vec<Source> = Vec::new();
        let mut j: usize = 0;
        let ghost rows = views(self.sources@);
        assert(rows.subrange(0, 0) =~= Seq::empty());
        assert(views(found@) =~= Seq::empty());
        while j < self.sources.len()
            invariant
                j <= self.sources@.len(),
                rows == views(self.sources@),
                views(found@) == search_sources(rows.subrange(0, j as int), query@),
            decreases self.sources@.len() - j,
        {
            let row = &self.sources[j];
            assert(rows.subrange(0, j + 1).drop_last() =~= rows.subrange(0, j as int));
            assert(rows.subrange(0, j + 1).last() == row@);
            if text_contains(row.origin.as_str(), query) || text_contains(
                row.external_link.as_str(),
                query,
            ) || text_contains(row.name.as_str(), query) {
                let ghost so_far = views(found@);
                found.push(row.clone());
                assert(views(found@) =~= so_far.push(row@));
            }
            j += 1;
        }
        assert(rows.subrange(0, j as int) =~= rows);
        Ok(found)
    }

    /// Never fails.
    fn get_sources_by_kind(&self, kind: &str) -> (r: Result<Vec<Source>, Error>)
        ensures
            r is Ok,
    {
        let mut found: Vec<Source> = Vec::new();
        let mut j: usize = 0;
        let ghost rows = views(self.sources@);
        assert(rows.subrange(0, 0) =~= Seq::empty());
        assert(views(found@) =~= Seq::empty());
        while j < self.sources.len()
            invariant
                j <= self.sources@.len(),
                rows == views(self.sources@),
                views(found@) == sources_of_kind(rows.subrange(0, j as int), kind@),
            decreases self.sources@.len() - j,
        {
            let row = &self.sources[j];
            assert(rows.subrange(0, j + 1).drop_last() =~= rows.subrange(0, j as int));
            assert(rows.subrange(0, j + 1).last() == row@);
            if same_text(row.kind.as_str(), kind) {
                let ghost so_far = views(found@);
                found.push(row.clone());
                assert(views(found@) =~= so_far.push(row@));
            }
            j += 1;
        }
        assert(rows.subrange(0, j as int) =~= rows);
        Ok(found)
    }

    /// Never fails.
    fn get_sources_by_kind_for_scrape(
        &self,
        kind: &str,
        check_secs_interval: i32,
        now: i64,
    ) -> (r: Result<Vec<Source>, Error>)
        ensures
            r is Ok,
    {
        let mut found: Vec<Source> = Vec::new();
        let mut j: usize = 0;
        let ghost rows = views(self.sources@);
        let deadline: i128 = now as i128 - check_secs_interval as i128;
        assert(rows.subrange(0, 0) =~= Seq::empty());
        assert(views(found@) =~= Seq::empty());
        while j < self.sources.len()
            invariant
                j <= self.sources@.len(),
                rows == views(self.sources@),
                deadline == now - check_secs_interval,
                views(found@) == sources_due(
                    rows.subrange(0, j as int),
                    kind@,
                    check_secs_interval as int,
                    now as int,
                ),
            decreases self.sources@.len() - j,
        {
            let row = &self.sources[j];
            assert(rows.subrange(0, j + 1).drop_last() =~= rows.subrange(0, j as int));
            assert(rows.subrange(0, j + 1).last() == row@);
            if same_text(row.kind.as_str(), kind) && row.last_scrape_time as i128 <= deadline {
                let ghost so_far = views(found@);
                found.push(row.clone());
                assert(views(found@) =~= so_far.push(row@));
            }
            j += 1;
        }
        assert(rows.subrange(0, j as int) =~= rows);
        Ok(found)
    }

    /// Succeeds at least where every id of the sources is more than the
    /// length of the batch below the largest id.
    fn save_sources(&mut self, sources: &Vec<NewSource>) -> (r: Result<Vec<Source>, Error>)
        ensures
            sources_have_room(old(self)@.sources, sources@.len() as int) ==> r is Ok,
            r is Ok ==> ids_follow(
                source_ids(final(self)@.sources),
                old(self)@.sources.len() as int,
            ),
    {
        let ghost before = self@;
        let ghost mut ids: Seq<int> = Seq::empty();
        let mut i: usize = 0;
        assert(views(sources@).subrange(0, 0) =~= Seq::empty());
        while i < sources.len()
            invariant
                i <= sources@.len(),
                ids.len() == i,
                before == old(self)@,
                self@.records == before.records,
                self@.files == before.files,
                self@.sources == upsert_sources(
                    before.sources,
                    views(sources@).subrange(0, i as int),
                    ids,
                ),
                before.wf() ==> self@.wf(),
                sources_have_room(before.sources, sources@.len() as int) ==> sources_have_room(
                    self@.sources,
                    sources@.len() - i,
                ),
                self@.sources.len() >= before.sources.len(),
                ids_follow(source_ids(self@.sources), before.sources.len() as int),
                scrape_times_kept(before.sources, self@.sources),
            decreases sources@.len() - i,
        {
            let item = &sources[i];
            let ghost prev = self@.sources;
            let found = self.rename_sources(item);
            let ghost mid = self@.sources;
            let ghost mut id_used: int = 0;
            if !found {
                match self.next_source_id() {
                    Some(id) => {
                        proof {
                            id_used = id as int;
                            assert(mid =~= prev);
                            if id != 1 {
                                let j = choose|j: int|
                                    0 <= j < self.sources@.len() && (#[trigger] self.sources@[j]).id
                                        == id - 1;
                                assert(prev[j].id == id - 1);
                            }
                            assert(id_used == 1 || exists|j: int|
                                0 <= j < prev.len() && (#[trigger] prev[j]).id == id_used - 1);
                        }
                        self.sources.push(
                            Source {
                                id,
                                name: item.name.clone(),
                                origin: item.origin.clone(),
                                kind: item.kind.clone(),
                                image: clone_opt(&item.image),
                                last_scrape_time: 0,
                                external_link: item.external_link.clone(),
                            },
                        );
                    },
                    None => {
                        proof {
                            let j = choose|j: int|
                                0 <= j < self.sources@.len() && (#[trigger] self.sources@[j]).id
                                    == i32::MAX;
                            assert(mid =~= prev);
                            assert(mid[j].id == i32::MAX);
                        }
                        return Err(ids_exhausted());
                    },
                }
            }
            proof {
                if !found {
                    assert(mid =~= prev);
                    assert(self@.sources =~= prev.push(self@.sources[prev.len() as int]));
                    assert forall|k: int| 0 <= k < prev.len() implies (#[trigger] prev[k]).id
                        < id_used by {
                        assert(self@.sources[k].id < id_used);
                    }
                }
                let batch = views(sources@).subrange(0, i + 1);
                assert(batch.drop_last() =~= views(sources@).subrange(0, i as int));
                assert(batch.last() == item@);
                assert(ids.push(id_used).drop_last() =~= ids);
                ids = ids.push(id_used);
                assert(self@.sources =~= upsert_source(prev, item@, id_used));
                lemma_upsert_source_keeps_times(prev, item@, id_used);
                lemma_scrape_times_kept_on(before.sources, prev, self@.sources);
                assert(ids_follow(source_ids(self@.sources), before.sources.len() as int)) by {
                    let old_ids = source_ids(prev);
                    let new_ids = source_ids(self@.sources);
                    assert forall|k: int| before.sources.len() <= k < new_ids.len() implies {
                        &&& forall|j: int| 0 <= j < k ==> new_ids[j] < #[trigger] new_ids[k]
                        &&& (new_ids[k] == 1 || exists|j: int|
                            0 <= j < k && new_ids[j] == new_ids[k] - 1)
                    } by {
                        if k < prev.len() {
                            assert(new_ids[k] == old_ids[k]);
                            assert forall|j: int| 0 <= j < k implies new_ids[j] < new_ids[k] by {
                                assert(new_ids[j] == old_ids[j]);
                                assert(old_ids[j] < old_ids[k]);
                            }
                            if old_ids[k] != 1 {
                                let j = choose|j: int| 0 <= j < k && old_ids[j] == old_ids[k] - 1;
                                assert(new_ids[j] == new_ids[k] - 1);
                            }
                        } else {
                            assert(new_ids[k] == id_used);
                            assert forall|j: int| 0 <= j < k implies new_ids[j] < new_ids[k] by {
                                assert(prev[j].id < id_used);
                            }
                            if id_used != 1 {
                                let j = choose|j: int|
                                    0 <= j < prev.len() && (#[trigger] prev[j]).id == id_used - 1;
                                assert(new_ids[j] == new_ids[k] - 1);
                            }
                        }
                    }
                }
                if sources_have_room(before.sources, sources@.len() as int) {
                    assert forall|k: int| 0 <= k < self@.sources.len() implies (
                    #[trigger] self@.sources[k]).id + (sources@.len() - i - 1) < i32::MAX by {
                        if k < prev.len() {
                            assert(prev[k].id + (sources@.len() - i) < i32::MAX);
                        } else if id_used != 1 {
                            let j = choose|j: int|
                                0 <= j < prev.len() && (#[trigger] prev[j]).id == id_used - 1;
                            assert(prev[j].id + (sources@.len() - i) < i32::MAX);
                        }
                    }
                }
                if before.wf() {
                    lemma_upsert_source_distinct(prev, item@, id_used);
                }
            }
            i += 1;
        }
        assert(views(sources@).subrange(0, i as int) =~= views(sources@));
        let mut saved: Vec<Source> = Vec::new();
        let mut j: usize = 0;
        while j < sources.len()
            invariant
                j <= sources@.len(),
                saved@.len() == j,
                ids.len() == sources@.len(),
                self@.sources == upsert_sources(before.sources, views(sources@), ids),
                forall|k: int|
                    0 <= k < j ==> Some((#[trigger] saved@[k])@) == first_source(
                        self@.sources,
                        sources@[k].origin@,
                        sources@[k].kind@,
                    ),
            decreases sources@.len() - j,
        {
            let item = &sources[j];
            proof {
                lemma_upsert_sources_has(before.sources, views(sources@), ids, j as int);
                lemma_first_source_some(
                    self@.sources,
                    item.origin@,
                    item.kind@,
                );
            }
            match self.find_source(&item.origin, &item.kind) {
                Some(row) => {
                    saved.push(row);
                },
                None => {
                    assert(false);
                },
            }
            j += 1;
        }
        Ok(saved)
    }
}

} // verus!
