//! What repeated writes to the store come to.

use crate::models::{FileView, NewFileView, NewRecordView, NewSourceView, RecordView, SourceView};
use crate::storage::model::{
    count_records, files_distinct, has_file, has_record, has_source, link_records, mark_scraped,
    new_file_row, new_record_row, new_source_row, place_files, record_has_key, records_distinct,
    rename_source, replace_file, rewrite_record, source_has_key, sources_distinct, upsert_files,
    upsert_records, upsert_sources,
};
use vstd::prelude::*;

verus! {

/// Record dedup. Upsert, one after the other, any number of records that
/// share one source record id and one source id. If the table had a row
/// with that key, it has the same rows afterwards, and that row has the
/// content of the last record and is otherwise as it was: no row is added
/// and its title and id stay. If the table had none, it has one row more:
/// the row of the first record, with its title, and with the content of the
/// last.
pub proof fn lemma_records_upserted_with_one_key(
    rows: Seq<RecordView>,
    batch: Seq<NewRecordView>,
    now: int,
    ids: Seq<int>,
)
    requires
        batch.len() > 0,
        ids.len() == batch.len(),
        forall|i: int|
            0 <= i < batch.len() ==> (#[trigger] batch[i]).source_record_id
                == batch[0].source_record_id && batch[i].source_id == batch[0].source_id,
    ensures
        upsert_records(rows, batch, now, ids) == if has_record(
            rows,
            batch[0].source_record_id,
            batch[0].source_id,
        ) {
            Seq::new(rows.len(), |i: int| rewrite_record(rows[i], batch.last()))
        } else {
            rows.push(
                RecordView {
                    content: batch.last().content,
                    ..new_record_row(batch[0], now, ids[0])
                },
            )
        },
    decreases batch.len(),
{
    let sri = batch[0].source_record_id;
    let sid = batch[0].source_id;
    let after = upsert_records(rows, batch, now, ids);
    let known = has_record(rows, sri, sid);
    let first_row = new_record_row(batch[0], now, ids[0]);
    if batch.len() == 1 {
        assert(batch.drop_last() =~= Seq::empty());
        assert(upsert_records(rows, batch.drop_last(), now, ids.drop_last()) == rows);
        if !known {
            assert(after =~= rows.push(RecordView { content: batch.last().content, ..first_row }));
        }
    } else {
        let head = batch.drop_last();
        let head_ids = ids.drop_last();
        assert(head[0] == batch[0]);
        assert forall|i: int| 0 <= i < head.len() implies (#[trigger] head[i]).source_record_id
            == head[0].source_record_id && head[i].source_id == head[0].source_id by {
            assert(head[i] == batch[i]);
        }
        lemma_records_upserted_with_one_key(rows, head, now, head_ids);
        let prev = upsert_records(rows, head, now, head_ids);
        assert(batch.last().source_record_id == sri && batch.last().source_id == sid) by {
            assert(batch[batch.len() - 1].source_record_id == sri);
        }
        if known {
            let at = choose|at: int|
                0 <= at < rows.len() && record_has_key(#[trigger] rows[at], sri, sid);
            assert(record_has_key(prev[at], sri, sid));
            assert(has_record(prev, sri, sid));
            assert(after =~= Seq::new(rows.len(), |i: int| rewrite_record(rows[i], batch.last())));
        } else {
            assert(record_has_key(prev[rows.len() as int], sri, sid));
            assert(has_record(prev, sri, sid));
            assert forall|i: int| 0 <= i < rows.len() implies rewrite_record(
                rows[i],
                batch.last(),
            ) == rows[i] by {
                assert(!record_has_key(rows[i], sri, sid));
            }
            assert(after =~= rows.push(RecordView { content: batch.last().content, ..first_row }));
        }
    }
}

/// In a table without doubles a key counts once or not at all, and once
/// exactly where a row has it.
pub proof fn lemma_record_counts_once(rows: Seq<RecordView>, sri: Seq<char>, sid: int)
    requires
        records_distinct(rows),
    ensures
        count_records(rows, sri, sid) == if has_record(rows, sri, sid) {
            1nat
        } else {
            0nat
        },
    decreases rows.len(),
{
    if rows.len() > 0 {
        let head = rows.drop_last();
        assert forall|i: int, j: int| 0 <= i < j < head.len() implies {
            &&& (#[trigger] head[i]).id != (#[trigger] head[j]).id
            &&& !record_has_key(head[i], head[j].source_record_id, head[j].source_id)
        } by {
            assert(head[i] == rows[i] && head[j] == rows[j]);
        }
        lemma_record_counts_once(head, sri, sid);
        if record_has_key(rows.last(), sri, sid) {
            if has_record(head, sri, sid) {
                let at = choose|at: int|
                    0 <= at < head.len() && record_has_key(#[trigger] head[at], sri, sid);
                assert(head[at] == rows[at]);
                assert(rows[rows.len() - 1] == rows.last());
                assert(false);
            }
            assert(record_has_key(rows[rows.len() - 1], sri, sid));
        } else if has_record(rows, sri, sid) {
            let at = choose|at: int|
                0 <= at < rows.len() && record_has_key(#[trigger] rows[at], sri, sid);
            assert(head[at] == rows[at]);
        } else if has_record(head, sri, sid) {
            let at = choose|at: int|
                0 <= at < head.len() && record_has_key(#[trigger] head[at], sri, sid);
            assert(head[at] == rows[at]);
        }
    }
}

/// The keys of the rows, in the order of the rows.
pub open spec fn record_keys(rows: Seq<RecordView>) -> Seq<(Seq<char>, int)> {
    Seq::new(rows.len(), |i: int| (rows[i].source_record_id, rows[i].source_id))
}

/// A table without doubles has as many rows as it has keys.
pub proof fn lemma_rows_equal_keys(rows: Seq<RecordView>)
    requires
        records_distinct(rows),
    ensures
        rows.len() == record_keys(rows).to_set().len(),
{
    let keys = record_keys(rows);
    assert forall|i: int, j: int|
        0 <= i < keys.len() && 0 <= j < keys.len() && i != j implies keys[i] != keys[j] by {
        if i < j {
            assert(!record_has_key(rows[i], rows[j].source_record_id, rows[j].source_id));
        } else {
            assert(!record_has_key(rows[j], rows[i].source_record_id, rows[i].source_id));
        }
    }
    keys.unique_seq_to_set();
}

/// Upserting records keeps a table without doubles so, where the rows that
/// are added get ids that no row has and that differ from each other.
pub proof fn lemma_upsert_records_distinct(
    rows: Seq<RecordView>,
    batch: Seq<NewRecordView>,
    now: int,
    ids: Seq<int>,
)
    requires
        records_distinct(rows),
        ids.len() == batch.len(),
        forall|i: int, j: int|
            0 <= i < ids.len() && 0 <= j < rows.len() ==> #[trigger] ids[i] != (
            #[trigger] rows[j]).id,
        forall|i: int, j: int| 0 <= i < j < ids.len() ==> #[trigger] ids[i] != #[trigger] ids[j],
    ensures
        records_distinct(upsert_records(rows, batch, now, ids)),
        forall|k: int|
            0 <= k < upsert_records(rows, batch, now, ids).len() ==> {
                ||| exists|j: int|
                    0 <= j < rows.len() && (#[trigger] rows[j]).id == (#[trigger] upsert_records(
                        rows,
                        batch,
                        now,
                        ids,
                    )[k]).id
                ||| exists|i: int|
                    0 <= i < ids.len() && #[trigger] ids[i] == upsert_records(
                        rows,
                        batch,
                        now,
                        ids,
                    )[k].id
            },
    decreases batch.len(),
{
    if batch.len() > 0 {
        let head = batch.drop_last();
        let head_ids = ids.drop_last();
        assert forall|i: int, j: int| 0 <= i < head_ids.len() && 0 <= j < rows.len() implies
            #[trigger] head_ids[i] != (#[trigger] rows[j]).id by {
            assert(head_ids[i] == ids[i]);
        }
        assert forall|i: int, j: int| 0 <= i < j < head_ids.len() implies #[trigger] head_ids[i]
            != #[trigger] head_ids[j] by {
            assert(head_ids[i] == ids[i] && head_ids[j] == ids[j]);
        }
        lemma_upsert_records_distinct(rows, head, now, head_ids);
        let prev = upsert_records(rows, head, now, head_ids);
        let after = upsert_records(rows, batch, now, ids);
        assert forall|j: int| 0 <= j < prev.len() implies (#[trigger] prev[j]).id
            != ids.last() by {
            if exists|m: int| 0 <= m < rows.len() && (#[trigger] rows[m]).id == prev[j].id {
                let m = choose|m: int| 0 <= m < rows.len() && (#[trigger] rows[m]).id == prev[j].id;
                assert(ids[ids.len() - 1] != rows[m].id);
            } else {
                let i = choose|i: int| 0 <= i < head_ids.len()
                    && #[trigger] head_ids[i] == prev[j].id;
                assert(head_ids[i] == ids[i]);
                assert(ids[i] != ids[ids.len() - 1]);
            }
        }
        crate::storage::model::lemma_upsert_record_distinct(prev, batch.last(), now, ids.last());
        assert forall|k: int| 0 <= k < after.len() implies {
            ||| exists|j: int| 0 <= j < rows.len()
                && (#[trigger] rows[j]).id == (#[trigger] after[k]).id
            ||| exists|i: int| 0 <= i < ids.len() && #[trigger] ids[i] == after[k].id
        } by {
            if k < prev.len() {
                assert(after[k].id == prev[k].id);
                if exists|m: int| 0 <= m < rows.len() && (#[trigger] rows[m]).id == prev[k].id {
                } else {
                    let i = choose|i: int|
                        0 <= i < head_ids.len() && #[trigger] head_ids[i] == prev[k].id;
                    assert(ids[i] == head_ids[i]);
                }
            } else {
                assert(ids[ids.len() - 1] == after[k].id);
            }
        }
    }
}

/// Source dedup. Upsert, one after the other, any number of sources that
/// share one origin and one kind. If the table had a row with that key, it
/// has the same rows afterwards, and that row has the name of the last
/// source and is otherwise as it was: its id stays. If the table had none,
/// it has one row more: the row of the first source, with the name of the
/// last.
pub proof fn lemma_sources_upserted_with_one_key(
    rows: Seq<SourceView>,
    batch: Seq<NewSourceView>,
    ids: Seq<int>,
)
    requires
        batch.len() > 0,
        ids.len() == batch.len(),
        forall|i: int|
            0 <= i < batch.len() ==> (#[trigger] batch[i]).origin == batch[0].origin
                && batch[i].kind == batch[0].kind,
    ensures
        upsert_sources(rows, batch, ids) == if has_source(rows, batch[0].origin, batch[0].kind) {
            Seq::new(rows.len(), |i: int| rename_source(rows[i], batch.last()))
        } else {
            rows.push(SourceView { name: batch.last().name, ..new_source_row(batch[0], ids[0]) })
        },
    decreases batch.len(),
{
    let origin = batch[0].origin;
    let kind = batch[0].kind;
    let after = upsert_sources(rows, batch, ids);
    let known = has_source(rows, origin, kind);
    let first_row = new_source_row(batch[0], ids[0]);
    if batch.len() == 1 {
        assert(batch.drop_last() =~= Seq::empty());
        assert(upsert_sources(rows, batch.drop_last(), ids.drop_last()) == rows);
        if !known {
            assert(after =~= rows.push(SourceView { name: batch.last().name, ..first_row }));
        }
    } else {
        let head = batch.drop_last();
        let head_ids = ids.drop_last();
        assert(head[0] == batch[0]);
        assert forall|i: int| 0 <= i < head.len() implies (#[trigger] head[i]).origin
            == head[0].origin && head[i].kind == head[0].kind by {
            assert(head[i] == batch[i]);
        }
        lemma_sources_upserted_with_one_key(rows, head, head_ids);
        let prev = upsert_sources(rows, head, head_ids);
        assert(batch.last().origin == origin && batch.last().kind == kind) by {
            assert(batch[batch.len() - 1].origin == origin);
        }
        if known {
            let at = choose|at: int|
                0 <= at < rows.len() && source_has_key(#[trigger] rows[at], origin, kind);
            assert(source_has_key(prev[at], origin, kind));
            assert(has_source(prev, origin, kind));
            assert(after =~= Seq::new(rows.len(), |i: int| rename_source(rows[i], batch.last())));
        } else {
            assert(source_has_key(prev[rows.len() as int], origin, kind));
            assert(has_source(prev, origin, kind));
            assert forall|i: int| 0 <= i < rows.len() implies rename_source(
                rows[i],
                batch.last(),
            ) == rows[i] by {
                assert(!source_has_key(rows[i], origin, kind));
            }
            assert(after =~= rows.push(SourceView { name: batch.last().name, ..first_row }));
        }
    }
}

/// File dedup. Upsert, one after the other, any number of files that share
/// one remote id. If the table had a row with that remote id, it has the
/// same rows afterwards, and that row has the local path and the file name
/// of the last file and is otherwise as it was. If the table had none, it
/// has one row more: the row of the first file, with the local path and the
/// file name of the last. No second row with the remote id comes to be.
pub proof fn lemma_files_upserted_with_one_remote_id(
    rows: Seq<FileView>,
    batch: Seq<NewFileView>,
    ids: Seq<int>,
)
    requires
        batch.len() > 0,
        ids.len() == batch.len(),
        batch[0].remote_id is Some,
        forall|i: int| 0 <= i < batch.len()
            ==> (#[trigger] batch[i]).remote_id == batch[0].remote_id,
    ensures
        upsert_files(rows, batch, ids) == if has_file(rows, batch[0].remote_id.unwrap()) {
            Seq::new(rows.len(), |i: int| replace_file(rows[i], batch.last()))
        } else {
            rows.push(
                FileView {
                    local_path: batch.last().local_path,
                    file_name: batch.last().file_name,
                    ..new_file_row(batch[0], ids[0])
                },
            )
        },
    decreases batch.len(),
{
    let remote_id = batch[0].remote_id.unwrap();
    let after = upsert_files(rows, batch, ids);
    let known = has_file(rows, remote_id);
    let first_row = new_file_row(batch[0], ids[0]);
    let settled = FileView {
        local_path: batch.last().local_path,
        file_name: batch.last().file_name,
        ..first_row
    };
    if batch.len() == 1 {
        assert(batch.drop_last() =~= Seq::empty());
        assert(upsert_files(rows, batch.drop_last(), ids.drop_last()) == rows);
        if !known {
            assert(after =~= rows.push(settled));
        }
    } else {
        let head = batch.drop_last();
        let head_ids = ids.drop_last();
        assert(head[0] == batch[0]);
        assert forall|i: int| 0 <= i < head.len() implies (#[trigger] head[i]).remote_id
            == head[0].remote_id by {
            assert(head[i] == batch[i]);
        }
        lemma_files_upserted_with_one_remote_id(rows, head, head_ids);
        let prev = upsert_files(rows, head, head_ids);
        assert(batch.last().remote_id == Some(remote_id)) by {
            assert(batch[batch.len() - 1].remote_id == batch[0].remote_id);
        }
        if known {
            let at = choose|at: int|
                0 <= at < rows.len() && (#[trigger] rows[at]).remote_id == Some(remote_id);
            assert(prev[at].remote_id == Some(remote_id));
            assert(has_file(prev, remote_id));
            assert(after =~= Seq::new(rows.len(), |i: int| replace_file(rows[i], batch.last())));
        } else {
            assert(prev[rows.len() as int].remote_id == Some(remote_id));
            assert(has_file(prev, remote_id));
            assert forall|i: int| 0 <= i < rows.len() implies replace_file(rows[i], batch.last())
                == rows[i] by {
                assert(rows[i].remote_id != Some(remote_id));
            }
            assert(after =~= rows.push(settled));
        }
    }
}

/// Setting the local path and the file name of a file changes the rows
/// with its id and no other row, and setting them again changes nothing.
pub proof fn lemma_place_files_once(rows: Seq<FileView>, file: FileView)
    ensures
        place_files(rows, file).len() == rows.len(),
        forall|i: int|
            0 <= i < rows.len() && (#[trigger] rows[i]).id != file.id ==> place_files(
                rows,
                file,
            )[i] == rows[i],
        forall|i: int|
            0 <= i < rows.len() && (#[trigger] rows[i]).id == file.id ==> place_files(
                rows,
                file,
            )[i] == (FileView {
                local_path: file.local_path,
                file_name: file.file_name,
                ..rows[i]
            }),
        place_files(place_files(rows, file), file) == place_files(rows, file),
        files_distinct(rows) ==> files_distinct(place_files(rows, file)),
{
    assert(place_files(place_files(rows, file), file) =~= place_files(rows, file));
    if files_distinct(rows) {
        let after = place_files(rows, file);
        assert forall|i: int, j: int| 0 <= i < j < after.len() implies {
            &&& (#[trigger] after[i]).id != (#[trigger] after[j]).id
            &&& (after[i].remote_id is Some ==> after[i].remote_id != after[j].remote_id)
        } by {
            assert(rows[i].id != rows[j].id);
        }
    }
}

/// External-link idempotence. Setting the link of a record a second time
/// leaves the table as the first time left it, and touches as many rows.
pub proof fn lemma_link_records_idempotent(
    rows: Seq<RecordView>,
    sri: Seq<char>,
    sid: int,
    link: Seq<char>,
)
    ensures
        link_records(link_records(rows, sri, sid, link), sri, sid, link) == link_records(
            rows,
            sri,
            sid,
            link,
        ),
        count_records(link_records(rows, sri, sid, link), sri, sid) == count_records(
            rows,
            sri,
            sid,
        ),
    decreases rows.len(),
{
    let once = link_records(rows, sri, sid, link);
    assert(link_records(once, sri, sid, link) =~= once);
    if rows.len() > 0 {
        lemma_link_records_idempotent(rows.drop_last(), sri, sid, link);
        assert(once.drop_last() =~= link_records(rows.drop_last(), sri, sid, link));
    }
}

/// Setting the link of a record keeps a table without doubles so.
pub proof fn lemma_link_records_distinct(
    rows: Seq<RecordView>,
    sri: Seq<char>,
    sid: int,
    link: Seq<char>,
)
    requires
        records_distinct(rows),
    ensures
        records_distinct(link_records(rows, sri, sid, link)),
{
    let after = link_records(rows, sri, sid, link);
    assert forall|i: int, j: int| 0 <= i < j < after.len() implies {
        &&& (#[trigger] after[i]).id != (#[trigger] after[j]).id
        &&& !record_has_key(after[i], after[j].source_record_id, after[j].source_id)
    } by {
        assert(rows[i].id != rows[j].id);
    }
}

/// Marking a source as scraped keeps a table without doubles so.
pub proof fn lemma_mark_scraped_distinct(rows: Seq<SourceView>, id: int, now: int)
    requires
        sources_distinct(rows),
    ensures
        sources_distinct(mark_scraped(rows, id, now)),
{
    let after = mark_scraped(rows, id, now);
    assert forall|i: int, j: int| 0 <= i < j < after.len() implies {
        &&& (#[trigger] after[i]).id != (#[trigger] after[j]).id
        &&& !source_has_key(after[i], after[j].origin, after[j].kind)
    } by {
        assert(rows[i].id != rows[j].id);
    }
}

} // verus!
