//! The three tables as sequences of rows, and what each operation on a
//! store makes of them.

use crate::models::{FileView, NewFileView, NewRecordView, NewSourceView, RecordView, SourceView};
use crate::tools::contains_text;
use vstd::prelude::*;

verus! {

/// What a store holds.
pub struct Store {
    pub sources: Seq<SourceView>,
    pub records: Seq<RecordView>,
    pub files: Seq<FileView>,
}

/// The views of the items of a sequence, in its order.
pub open spec fn views<T: View>(s: Seq<T>) -> Seq<T::V> {
    Seq::new(s.len(), |i: int| s[i]@)
}

// Sources

/// Whether a source has the given origin and kind.
pub open spec fn source_has_key(row: SourceView, origin: Seq<char>, kind: Seq<char>) -> bool {
    row.origin == origin && row.kind == kind
}

/// Whether some source has the given origin and kind.
pub open spec fn has_source(rows: Seq<SourceView>, origin: Seq<char>, kind: Seq<char>) -> bool {
    exists|i: int| 0 <= i < rows.len() && source_has_key(#[trigger] rows[i], origin, kind)
}

/// The first row with the given origin and kind.
pub open spec fn first_source(rows: Seq<SourceView>, origin: Seq<char>, kind: Seq<char>) -> Option<
    SourceView,
>
    decreases rows.len(),
{
    if rows.len() == 0 {
        None
    } else if source_has_key(rows[0], origin, kind) {
        Some(rows[0])
    } else {
        first_source(rows.drop_first(), origin, kind)
    }
}

/// The row that a new source becomes. It counts as never scraped.
pub open spec fn new_source_row(item: NewSourceView, id: int) -> SourceView {
    SourceView {
        id,
        name: item.name,
        origin: item.origin,
        kind: item.kind,
        image: item.image,
        last_scrape_time: 0,
        external_link: item.external_link,
    }
}

/// The row with the name of `item`, where it has the key of `item`.
pub open spec fn rename_source(row: SourceView, item: NewSourceView) -> SourceView {
    if source_has_key(row, item.origin, item.kind) {
        SourceView { name: item.name, ..row }
    } else {
        row
    }
}

/// One source upserted: a known origin and kind takes the new name and
/// keeps the rest, an unknown one becomes a new row with the given id.
pub open spec fn upsert_source(rows: Seq<SourceView>, item: NewSourceView, id: int) -> Seq<
    SourceView,
> {
    if has_source(rows, item.origin, item.kind) {
        Seq::new(rows.len(), |i: int| rename_source(rows[i], item))
    } else {
        rows.push(new_source_row(item, id))
    }
}

/// The sources upserted one after the other; `ids[i]` is the id of the row
/// that `batch[i]` becomes if it becomes one.
pub open spec fn upsert_sources(
    rows: Seq<SourceView>,
    batch: Seq<NewSourceView>,
    ids: Seq<int>,
) -> Seq<
    SourceView,
>
    decreases batch.len(),
{
    if batch.len() == 0 {
        rows
    } else {
        upsert_source(
            upsert_sources(rows, batch.drop_last(), ids.drop_last()),
            batch.last(),
            ids.last(),
        )
    }
}

/// Whether a search for `query` finds the source.
pub open spec fn source_matches(row: SourceView, query: Seq<char>) -> bool {
    contains_text(row.origin, query) || contains_text(row.external_link, query) || contains_text(
        row.name,
        query,
    )
}

/// The sources that a search for `query` finds, in the order of the table.
pub open spec fn search_sources(rows: Seq<SourceView>, query: Seq<char>) -> Seq<SourceView>
    decreases rows.len(),
{
    if rows.len() == 0 {
        Seq::empty()
    } else if source_matches(rows.last(), query) {
        search_sources(rows.drop_last(), query).push(rows.last())
    } else {
        search_sources(rows.drop_last(), query)
    }
}

/// The sources of one kind, in the order of the table.
pub open spec fn sources_of_kind(rows: Seq<SourceView>, kind: Seq<char>) -> Seq<SourceView>
    decreases rows.len(),
{
    if rows.len() == 0 {
        Seq::empty()
    } else if rows.last().kind == kind {
        sources_of_kind(rows.drop_last(), kind).push(rows.last())
    } else {
        sources_of_kind(rows.drop_last(), kind)
    }
}

/// Whether a source of the given kind is due: it was last scraped
/// `interval` seconds before `now`, or earlier.
pub open spec fn source_is_due(row: SourceView, kind: Seq<char>, interval: int, now: int) -> bool {
    row.kind == kind && row.last_scrape_time <= now - interval
}

/// The sources of one kind that are due, in the order of the table.
pub open spec fn sources_due(
    rows: Seq<SourceView>,
    kind: Seq<char>,
    interval: int,
    now: int,
) -> Seq<
    SourceView,
>
    decreases rows.len(),
{
    if rows.len() == 0 {
        Seq::empty()
    } else if source_is_due(rows.last(), kind, interval, now) {
        sources_due(rows.drop_last(), kind, interval, now).push(rows.last())
    } else {
        sources_due(rows.drop_last(), kind, interval, now)
    }
}

/// The row as scraped at `now`, where it has the given id.
pub open spec fn mark_scraped_row(row: SourceView, id: int, now: int) -> SourceView {
    if row.id == id {
        SourceView { last_scrape_time: now, ..row }
    } else {
        row
    }
}

/// The sources once the one with the given id has been scraped at `now`.
pub open spec fn mark_scraped(rows: Seq<SourceView>, id: int, now: int) -> Seq<SourceView> {
    Seq::new(rows.len(), |i: int| mark_scraped_row(rows[i], id, now))
}

// Records

/// Whether a record has the given source record id and source id.
pub open spec fn record_has_key(
    row: RecordView,
    source_record_id: Seq<char>,
    source_id: int,
) -> bool {
    row.source_record_id == source_record_id && row.source_id == source_id
}

/// Whether some record has the given source record id and source id.
pub open spec fn has_record(
    rows: Seq<RecordView>,
    source_record_id: Seq<char>,
    source_id: int,
) -> bool {
    exists|i: int|
        0 <= i < rows.len() && record_has_key(#[trigger] rows[i], source_record_id, source_id)
}

/// How many rows have the given key.
pub open spec fn count_records(
    rows: Seq<RecordView>,
    source_record_id: Seq<char>,
    source_id: int,
) -> nat
    decreases rows.len(),
{
    if rows.len() == 0 {
        0
    } else {
        count_records(rows.drop_last(), source_record_id, source_id) + if record_has_key(
            rows.last(),
            source_record_id,
            source_id,
        ) {
            1nat
        } else {
            0nat
        }
    }
}

/// The row that a new record becomes. Its link is empty until it is set,
/// and a record without a date is dated `now`.
pub open spec fn new_record_row(item: NewRecordView, now: int, id: int) -> RecordView {
    RecordView {
        id,
        title: item.title,
        source_record_id: item.source_record_id,
        source_id: item.source_id,
        content: item.content,
        date: match item.date {
            Some(d) => d,
            None => now,
        },
        image: item.image,
        external_link: Seq::empty(),
    }
}

/// The row with the content of `item`, where it has the key of `item`.
pub open spec fn rewrite_record(row: RecordView, item: NewRecordView) -> RecordView {
    if record_has_key(row, item.source_record_id, item.source_id) {
        RecordView { content: item.content, ..row }
    } else {
        row
    }
}

/// One record upserted: a known key takes the new content and keeps the
/// rest, an unknown one becomes a new row with the given id.
pub open spec fn upsert_record(
    rows: Seq<RecordView>,
    item: NewRecordView,
    now: int,
    id: int,
) -> Seq<
    RecordView,
> {
    if has_record(rows, item.source_record_id, item.source_id) {
        Seq::new(rows.len(), |i: int| rewrite_record(rows[i], item))
    } else {
        rows.push(new_record_row(item, now, id))
    }
}

/// The records upserted one after the other; `ids[i]` is the id of the row
/// that `batch[i]` becomes if it becomes one.
pub open spec fn upsert_records(
    rows: Seq<RecordView>,
    batch: Seq<NewRecordView>,
    now: int,
    ids: Seq<int>,
) -> Seq<RecordView>
    decreases batch.len(),
{
    if batch.len() == 0 {
        rows
    } else {
        upsert_record(
            upsert_records(rows, batch.drop_last(), now, ids.drop_last()),
            batch.last(),
            now,
            ids.last(),
        )
    }
}

/// The row with the given link, where it has the given key.
pub open spec fn link_record(
    row: RecordView,
    source_record_id: Seq<char>,
    source_id: int,
    link: Seq<char>,
) -> RecordView {
    if record_has_key(row, source_record_id, source_id) {
        RecordView { external_link: link, ..row }
    } else {
        row
    }
}

/// The records once the one with the given key has the given link.
pub open spec fn link_records(
    rows: Seq<RecordView>,
    source_record_id: Seq<char>,
    source_id: int,
    link: Seq<char>,
) -> Seq<RecordView> {
    Seq::new(rows.len(), |i: int| link_record(rows[i], source_record_id, source_id, link))
}

// Files

/// Whether some file has the given remote id.
pub open spec fn has_file(rows: Seq<FileView>, remote_id: Seq<char>) -> bool {
    exists|i: int| 0 <= i < rows.len() && (#[trigger] rows[i]).remote_id == Some(remote_id)
}

/// How many rows have the given remote id.
pub open spec fn count_files(rows: Seq<FileView>, remote_id: Seq<char>) -> nat
    decreases rows.len(),
{
    if rows.len() == 0 {
        0
    } else {
        count_files(rows.drop_last(), remote_id) + if rows.last().remote_id == Some(remote_id) {
            1nat
        } else {
            0nat
        }
    }
}

/// The row that a new file becomes.
pub open spec fn new_file_row(item: NewFileView, id: int) -> FileView {
    FileView {
        id,
        record_id: item.record_id,
        kind: item.kind,
        local_path: item.local_path,
        remote_path: item.remote_path,
        remote_id: item.remote_id,
        file_name: item.file_name,
        type_: item.type_,
        meta: item.meta,
    }
}

/// The row with the local path and the file name of `item`, where it has
/// the remote id of `item`.
pub open spec fn replace_file(row: FileView, item: NewFileView) -> FileView {
    if item.remote_id is Some && row.remote_id == item.remote_id {
        FileView { local_path: item.local_path, file_name: item.file_name, ..row }
    } else {
        row
    }
}

/// Whether the store knows the remote id of a new file.
pub open spec fn file_is_known(rows: Seq<FileView>, item: NewFileView) -> bool {
    item.remote_id is Some && has_file(rows, item.remote_id.unwrap())
}

/// One file upserted: a known remote id takes the new local path and file
/// name and keeps the rest; an unknown one, or a file without a remote id,
/// becomes a new row with the given id.
pub open spec fn upsert_file(rows: Seq<FileView>, item: NewFileView, id: int) -> Seq<FileView> {
    if file_is_known(rows, item) {
        Seq::new(rows.len(), |i: int| replace_file(rows[i], item))
    } else {
        rows.push(new_file_row(item, id))
    }
}

/// The files upserted one after the other; `ids[i]` is the id of the row
/// that `batch[i]` becomes if it becomes one.
pub open spec fn upsert_files(rows: Seq<FileView>, batch: Seq<NewFileView>, ids: Seq<int>) -> Seq<
    FileView,
>
    decreases batch.len(),
{
    if batch.len() == 0 {
        rows
    } else {
        upsert_file(
            upsert_files(rows, batch.drop_last(), ids.drop_last()),
            batch.last(),
            ids.last(),
        )
    }
}

/// The row with the local path and the file name of `file`, where it has
/// the id of `file`.
pub open spec fn place_file(row: FileView, file: FileView) -> FileView {
    if row.id == file.id {
        FileView { local_path: file.local_path, file_name: file.file_name, ..row }
    } else {
        row
    }
}

/// The files once the row with the id of `file` has its local path and
/// file name.
pub open spec fn place_files(rows: Seq<FileView>, file: FileView) -> Seq<FileView> {
    Seq::new(rows.len(), |i: int| place_file(rows[i], file))
}

/// The row with the given remote id, where there is exactly one.
pub open spec fn file_with_remote_id(rows: Seq<FileView>, remote_id: Seq<char>) -> Option<FileView>
    decreases rows.len(),
{
    if rows.len() == 0 {
        None
    } else if rows.last().remote_id == Some(remote_id) {
        Some(rows.last())
    } else {
        file_with_remote_id(rows.drop_last(), remote_id)
    }
}

/// No two sources share an id or an origin within a kind.
pub open spec fn sources_distinct(rows: Seq<SourceView>) -> bool {
    forall|i: int, j: int|
        0 <= i < j < rows.len() ==> {
            &&& (#[trigger] rows[i]).id != (#[trigger] rows[j]).id
            &&& !source_has_key(rows[i], rows[j].origin, rows[j].kind)
        }
}

/// No two records share an id or a key.
pub open spec fn records_distinct(rows: Seq<RecordView>) -> bool {
    forall|i: int, j: int|
        0 <= i < j < rows.len() ==> {
            &&& (#[trigger] rows[i]).id != (#[trigger] rows[j]).id
            &&& !record_has_key(rows[i], rows[j].source_record_id, rows[j].source_id)
        }
}

/// No two files share an id or a remote id.
pub open spec fn files_distinct(rows: Seq<FileView>) -> bool {
    forall|i: int, j: int|
        0 <= i < j < rows.len() ==> {
            &&& (#[trigger] rows[i]).id != (#[trigger] rows[j]).id
            &&& (rows[i].remote_id is Some ==> rows[i].remote_id != rows[j].remote_id)
        }
}

impl Store {
    /// The uniqueness that the tables promise.
    pub open spec fn wf(self) -> bool {
        sources_distinct(self.sources) && records_distinct(self.records) && files_distinct(
            self.files,
        )
    }
}

/// Upserting a source keeps the rows distinct, where a new row gets an id
/// that no row has.
pub proof fn lemma_upsert_source_distinct(rows: Seq<SourceView>, item: NewSourceView, id: int)
    requires
        sources_distinct(rows),
        !has_source(rows, item.origin, item.kind) ==> forall|j: int|
            0 <= j < rows.len() ==> (#[trigger] rows[j]).id != id,
    ensures
        sources_distinct(upsert_source(rows, item, id)),
{
    let after = upsert_source(rows, item, id);
    assert forall|i: int, j: int| 0 <= i < j < after.len() implies {
        &&& (#[trigger] after[i]).id != (#[trigger] after[j]).id
        &&& !source_has_key(after[i], after[j].origin, after[j].kind)
    } by {
        if has_source(rows, item.origin, item.kind) {
            assert(rows[i].id != rows[j].id);
        } else if j < rows.len() {
            assert(rows[i].id != rows[j].id);
        } else {
            assert(rows[i].id != id);
        }
    }
}

/// Upserting a record keeps the rows distinct, where a new row gets an id
/// that no row has.
pub proof fn lemma_upsert_record_distinct(
    rows: Seq<RecordView>,
    item: NewRecordView,
    now: int,
    id: int,
)
    requires
        records_distinct(rows),
        !has_record(rows, item.source_record_id, item.source_id) ==> forall|j: int|
            0 <= j < rows.len() ==> (#[trigger] rows[j]).id != id,
    ensures
        records_distinct(upsert_record(rows, item, now, id)),
{
    let after = upsert_record(rows, item, now, id);
    assert forall|i: int, j: int| 0 <= i < j < after.len() implies {
        &&& (#[trigger] after[i]).id != (#[trigger] after[j]).id
        &&& !record_has_key(after[i], after[j].source_record_id, after[j].source_id)
    } by {
        if has_record(rows, item.source_record_id, item.source_id) {
            assert(rows[i].id != rows[j].id);
        } else if j < rows.len() {
            assert(rows[i].id != rows[j].id);
        } else {
            assert(rows[i].id != id);
        }
    }
}

/// Upserting a file keeps the rows distinct, where a new row gets an id
/// that no row has.
pub proof fn lemma_upsert_file_distinct(rows: Seq<FileView>, item: NewFileView, id: int)
    requires
        files_distinct(rows),
        !file_is_known(rows, item) ==> forall|j: int|
            0 <= j < rows.len() ==> (#[trigger] rows[j]).id != id,
    ensures
        files_distinct(upsert_file(rows, item, id)),
{
    let after = upsert_file(rows, item, id);
    assert forall|i: int, j: int| 0 <= i < j < after.len() implies {
        &&& (#[trigger] after[i]).id != (#[trigger] after[j]).id
        &&& ((#[trigger] after[i]).remote_id is Some ==> after[i].remote_id != after[j].remote_id)
    } by {
        if file_is_known(rows, item) {
            assert(rows[i].id != rows[j].id);
        } else if j < rows.len() {
            assert(rows[i].id != rows[j].id);
        } else {
            assert(rows[i].id != id);
        }
    }
}

/// The first row with a key is the row at `at`, where that row has the key
/// and no row in front of it has.
pub proof fn lemma_first_source_at(
    rows: Seq<SourceView>,
    origin: Seq<char>,
    kind: Seq<char>,
    at: int,
)
    requires
        0 <= at < rows.len(),
        source_has_key(rows[at], origin, kind),
        forall|j: int| 0 <= j < at ==> !source_has_key(#[trigger] rows[j], origin, kind),
    ensures
        first_source(rows, origin, kind) == Some(rows[at]),
    decreases at,
{
    if at > 0 {
        assert(!source_has_key(rows[0], origin, kind));
        let rest = rows.drop_first();
        assert forall|j: int| 0 <= j < at - 1 implies !source_has_key(
            #[trigger] rest[j],
            origin,
            kind,
        ) by {
            assert(rest[j] == rows[j + 1]);
        }
        lemma_first_source_at(rest, origin, kind, at - 1);
    }
}

/// Where no row has a key, there is no first row with it.
pub proof fn lemma_first_source_none(rows: Seq<SourceView>, origin: Seq<char>, kind: Seq<char>)
    requires
        !has_source(rows, origin, kind),
    ensures
        first_source(rows, origin, kind) is None,
    decreases rows.len(),
{
    if rows.len() > 0 {
        assert(!source_has_key(rows[0], origin, kind));
        let rest = rows.drop_first();
        assert forall|j: int| 0 <= j < rest.len() implies !source_has_key(
            #[trigger] rest[j],
            origin,
            kind,
        ) by {
            assert(rest[j] == rows[j + 1]);
        }
        lemma_first_source_none(rest, origin, kind);
    }
}

/// Where a row has a key, there is a first row with it.
pub proof fn lemma_first_source_some(rows: Seq<SourceView>, origin: Seq<char>, kind: Seq<char>)
    requires
        has_source(rows, origin, kind),
    ensures
        first_source(rows, origin, kind) is Some,
{
    if first_source(rows, origin, kind) is None {
        lemma_first_source_found(rows, origin, kind);
    }
}

proof fn lemma_first_source_found(rows: Seq<SourceView>, origin: Seq<char>, kind: Seq<char>)
    requires
        first_source(rows, origin, kind) is None,
    ensures
        !has_source(rows, origin, kind),
    decreases rows.len(),
{
    if rows.len() > 0 {
        let rest = rows.drop_first();
        lemma_first_source_found(rest, origin, kind);
        assert forall|j: int| 0 <= j < rows.len() implies !source_has_key(
            #[trigger] rows[j],
            origin,
            kind,
        ) by {
            if j > 0 {
                assert(rest[j - 1] == rows[j]);
            }
        }
    }
}

/// A source that was upserted is in the table.
pub proof fn lemma_upsert_source_has(rows: Seq<SourceView>, item: NewSourceView, id: int)
    ensures
        has_source(upsert_source(rows, item, id), item.origin, item.kind),
        forall|origin: Seq<char>, kind: Seq<char>|
            has_source(rows, origin, kind) ==> #[trigger] has_source(
                upsert_source(rows, item, id),
                origin,
                kind,
            ),
{
    let after = upsert_source(rows, item, id);
    if has_source(rows, item.origin, item.kind) {
        let i = choose|i: int|
            0 <= i < rows.len() && source_has_key(#[trigger] rows[i], item.origin, item.kind);
        assert(source_has_key(after[i], item.origin, item.kind));
    } else {
        assert(source_has_key(after[rows.len() as int], item.origin, item.kind));
    }
    assert forall|origin: Seq<char>, kind: Seq<char>|
        has_source(rows, origin, kind) implies #[trigger] has_source(after, origin, kind) by {
        let i = choose|i: int| 0 <= i < rows.len()
            && source_has_key(#[trigger] rows[i], origin, kind);
        assert(source_has_key(after[i], origin, kind));
    }
}

/// Every source of an upserted batch is in the table.
pub proof fn lemma_upsert_sources_has(
    rows: Seq<SourceView>,
    batch: Seq<NewSourceView>,
    ids: Seq<int>,
    i: int,
)
    requires
        0 <= i < batch.len(),
    ensures
        has_source(upsert_sources(rows, batch, ids), batch[i].origin, batch[i].kind),
    decreases batch.len(),
{
    let prev = upsert_sources(rows, batch.drop_last(), ids.drop_last());
    lemma_upsert_source_has(prev, batch.last(), ids.last());
    if i < batch.len() - 1 {
        lemma_upsert_sources_has(rows, batch.drop_last(), ids.drop_last(), i);
        assert(batch.drop_last()[i] == batch[i]);
    }
}

/// The first row with a key is a row of the table and has the key.
pub proof fn lemma_first_source_is_row(rows: Seq<SourceView>, origin: Seq<char>, kind: Seq<char>)
    requires
        first_source(rows, origin, kind) is Some,
    ensures
        source_has_key(first_source(rows, origin, kind).unwrap(), origin, kind),
        exists|i: int|
            0 <= i < rows.len() && #[trigger] rows[i] == first_source(rows, origin, kind).unwrap(),
    decreases rows.len(),
{
    if rows.len() > 0 {
        if source_has_key(rows[0], origin, kind) {
            assert(rows[0] == first_source(rows, origin, kind).unwrap());
        } else {
            let rest = rows.drop_first();
            lemma_first_source_is_row(rest, origin, kind);
            let i = choose|i: int|
                0 <= i < rest.len()
                    && #[trigger] rest[i] == first_source(rest, origin, kind).unwrap();
            assert(rows[i + 1] == rest[i]);
        }
    }
}

/// The row that stands for a source that was just upserted has the
/// source's name, origin and kind.
pub proof fn lemma_upserted_source_row(rows: Seq<SourceView>, item: NewSourceView, id: int)
    ensures
        first_source(upsert_source(rows, item, id), item.origin, item.kind) matches Some(row)
            && row.name == item.name && row.origin == item.origin && row.kind == item.kind,
{
    let after = upsert_source(rows, item, id);
    lemma_upsert_source_has(rows, item, id);
    lemma_first_source_some(after, item.origin, item.kind);
    lemma_first_source_is_row(after, item.origin, item.kind);
    let row = first_source(after, item.origin, item.kind).unwrap();
    let i = choose|i: int| 0 <= i < after.len() && #[trigger] after[i] == row;
    if has_source(rows, item.origin, item.kind) {
        assert(after[i] == rename_source(rows[i], item));
    }
}

/// Every source that was there keeps its place and its scrape time, and
/// every source that has come to be was never scraped.
pub open spec fn scrape_times_kept(before: Seq<SourceView>, after: Seq<SourceView>) -> bool {
    &&& before.len() <= after.len()
    &&& forall|i: int|
        0 <= i < before.len() ==> (#[trigger] after[i]).last_scrape_time
            == before[i].last_scrape_time
    &&& forall|i: int|
        before.len() <= i < after.len() ==> (#[trigger] after[i]).last_scrape_time == 0
}

/// Scrape times that are kept from one table to the next, and from there
/// to a third, are kept from the first to the third.
pub proof fn lemma_scrape_times_kept_on(
    first: Seq<SourceView>,
    second: Seq<SourceView>,
    third: Seq<SourceView>,
)
    requires
        scrape_times_kept(first, second),
        scrape_times_kept(second, third),
    ensures
        scrape_times_kept(first, third),
{
    assert forall|i: int| 0 <= i < first.len() implies (#[trigger] third[i]).last_scrape_time
        == first[i].last_scrape_time by {
        assert(second[i].last_scrape_time == first[i].last_scrape_time);
    }
    assert forall|i: int| first.len() <= i < third.len() implies (
    #[trigger] third[i]).last_scrape_time == 0 by {
        if i < second.len() {
            assert(second[i].last_scrape_time == 0);
        }
    }
}

/// Upserting a source touches no scrape time.
pub proof fn lemma_upsert_source_keeps_times(rows: Seq<SourceView>, item: NewSourceView, id: int)
    ensures
        scrape_times_kept(rows, upsert_source(rows, item, id)),
{
}

/// Upserting sources touches no scrape time.
pub proof fn lemma_upsert_sources_keep_times(
    rows: Seq<SourceView>,
    batch: Seq<NewSourceView>,
    ids: Seq<int>,
)
    ensures
        scrape_times_kept(rows, upsert_sources(rows, batch, ids)),
    decreases batch.len(),
{
    if batch.len() > 0 {
        let prev = upsert_sources(rows, batch.drop_last(), ids.drop_last());
        lemma_upsert_sources_keep_times(rows, batch.drop_last(), ids.drop_last());
        lemma_upsert_source_keeps_times(prev, batch.last(), ids.last());
        lemma_scrape_times_kept_on(rows, prev, upsert_sources(rows, batch, ids));
    }
}

} // verus!
