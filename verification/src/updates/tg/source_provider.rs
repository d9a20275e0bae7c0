//! What the chat provider does for the aggregator besides taking updates:
//! it looks for channels and brings in the history of channels.

use crate::models::{NewRecord, NewRecordView, RecordView, Source as SourceRow, SourceView};
use crate::result::Error;
use crate::storage::interface::Storage;
use crate::storage::model::{upsert_records, views, Store};
use crate::tools::{decimal_text, i64_to_string, same_text};
use crate::updates::tg::content::{Channel, Message};
use crate::updates::tg::parsers::{
    content_files, content_text, parse_message_content, unsupported_name,
};
use crate::updates::tg::source::TelegramSource;
use crate::updates::tg::structs::{files_view, TelegramFileWithMeta, TelegramFileWithMetaView};
use crate::updates::tg::updates_handler::{channel_saved, files_registered, texts, unknown_files};
use crate::updates::{first_failure, lemma_first_failure_kept, Source, SourceProvider};
use vstd::prelude::*;

verus! {

/// The rows among some outcomes, in their order.
pub open spec fn taken_rows(outcomes: Seq<Option<SourceView>>) -> Seq<SourceView>
    decreases outcomes.len(),
{
    if outcomes.len() == 0 {
        Seq::empty()
    } else {
        match outcomes.last() {
            Some(row) => taken_rows(outcomes.drop_last()).push(row),
            None => taken_rows(outcomes.drop_last()),
        }
    }
}

/// What the saving of some channels, one after the other, makes of the
/// store. Each channel has an outcome: the row that stands for it where the
/// store took it, none where the store did not. There is a store after each
/// channel, and each channel leads from the store before it to the store
/// after it as [`channel_tried`] says. `saved` holds the rows of the
/// channels that were taken, in their order.
pub open spec fn channels_saved(
    before: Store,
    after: Store,
    channels: Seq<Channel>,
    saved: Seq<SourceView>,
) -> bool {
    exists|stores: Seq<Store>, outcomes: Seq<Option<SourceView>>|
        {
            &&& #[trigger] stores.len() == channels.len() + 1
            &&& #[trigger] outcomes.len() == channels.len()
            &&& stores[0] == before
            &&& stores[channels.len() as int] == after
            &&& forall|i: int|
                0 <= i < channels.len() ==> channel_tried(
                    stores[i],
                    stores[i + 1],
                    channels[i],
                    #[trigger] outcomes[i],
                )
            &&& saved == taken_rows(outcomes)
        }
}

/// What the saving of one channel makes of the store: a channel that was
/// taken is saved as [`channel_saved`] says; a channel that was not has
/// left records and files as they were.
pub open spec fn channel_tried(
    before: Store,
    after: Store,
    channel: Channel,
    outcome: Option<SourceView>,
) -> bool {
    match outcome {
        Some(row) => channel_saved(before, after, channel, row),
        None => after.records == before.records && after.files == before.files,
    }
}

/// What the saving of a channel came to, as the row that stands for it or
/// none.
pub open spec fn outcome_row(outcome: Result<SourceRow, Error>) -> Option<SourceView> {
    match outcome {
        Ok(row) => Some(row@),
        Err(_) => None,
    }
}

/// Keeps the row of a channel that the store took, and passes over a
/// channel that it did not take.
pub fn keep_saved(rows: &mut Vec<SourceRow>, outcome: Result<SourceRow, Error>)
    ensures
        views(final(rows)@) == match outcome {
            Ok(row) => views(old(rows)@).push(row@),
            Err(_) => views(old(rows)@),
        },
{
    match outcome {
        Ok(row) => {
            rows.push(row);
            assert(views(rows@) =~= views(old(rows)@).push(row@));
        },
        Err(_) => {},
    }
}

/// How many channels a backfill asks the chat network for at most.
pub const CHANNELS_LIMIT: i64 = 1000;

/// Whether a row stands for a channel: it has the channel's title as its
/// name, the chat's number as its origin, and the kind of the chat network.
pub open spec fn stands_for(row: SourceView, channel: Channel) -> bool {
    row.name == channel.title@ && row.origin == decimal_text(channel.chat_id as int) && row.kind
        == crate::updates::tg::source::TELEGRAM@
}

/// Whether a row stands for one of some channels.
pub open spec fn stands_for_one_of(row: SourceView, channels: Seq<Channel>) -> bool {
    exists|k: int| 0 <= k < channels.len() && stands_for(row, #[trigger] channels[k])
}

/// The moment that a backfill of the given depth reaches back to: `now`
/// less the depth, as far as an `i64` can hold it.
pub open spec fn depth_reached(now: int, secs_depth: int) -> int {
    if now - secs_depth > i64::MAX {
        i64::MAX as int
    } else if now - secs_depth < i64::MIN {
        i64::MIN as int
    } else {
        now - secs_depth
    }
}

/// The record that stands for a message of a history.
pub open spec fn history_record(message: Message, source_id: int) -> NewRecordView {
    NewRecordView {
        title: None,
        source_record_id: decimal_text(message.id as int),
        source_id,
        content: content_text(message.content).unwrap(),
        date: Some(message.date as int),
        image: None,
    }
}

/// Whether a message of a history is parsed, not passed over.
pub open spec fn is_parsed(item: Result<Message, Error>) -> bool {
    item matches Ok(message) && unsupported_name(message.content) is None
}

/// The records of a history: one for each message that has a text, in the
/// order of the history.
pub open spec fn history_records(history: Seq<Result<Message, Error>>, source_id: int) -> Seq<
    NewRecordView,
>
    decreases history.len(),
{
    if history.len() == 0 {
        Seq::empty()
    } else if is_parsed(history.last()) && content_text(history.last()->Ok_0.content) is Some {
        history_records(history.drop_last(), source_id).push(
            history_record(history.last()->Ok_0, source_id),
        )
    } else {
        history_records(history.drop_last(), source_id)
    }
}

/// The files of the message that a source record id names: those of the
/// last message of the history with that number that has files.
pub open spec fn history_files(history: Seq<Result<Message, Error>>, sri: Seq<char>) -> Option<
    Seq<TelegramFileWithMetaView>,
>
    decreases history.len(),
{
    if history.len() == 0 {
        None
    } else if is_parsed(history.last()) && content_files(history.last()->Ok_0.content) is Some
        && decimal_text(history.last()->Ok_0.id as int) == sri {
        content_files(history.last()->Ok_0.content)
    } else {
        history_files(history.drop_last(), sri)
    }
}

/// What the registration of the files of the new records of a history
/// makes of the store. The records are gone through in order; there is a
/// store after each, and the downloads asked for so far. A record whose
/// message has files has them registered, and the remote files of those
/// that the store did not know are asked for; a record without files
/// changes nothing.
pub open spec fn history_files_registered(
    before: Store,
    after: Store,
    history: Seq<Result<Message, Error>>,
    inserted: Seq<RecordView>,
    downloads: Seq<Seq<char>>,
) -> bool {
    exists|stores: Seq<Store>, asked: Seq<Seq<Seq<char>>>|
        {
            &&& #[trigger] stores.len() == inserted.len() + 1
            &&& #[trigger] asked.len() == inserted.len() + 1
            &&& stores[0] == before
            &&& stores[inserted.len() as int] == after
            &&& asked[0] == Seq::<Seq<char>>::empty()
            &&& asked[inserted.len() as int] == downloads
            &&& forall|j: int|
                0 <= j < inserted.len() ==> record_files_registered(
                    #[trigger] stores[j],
                    stores[j + 1],
                    asked[j],
                    asked[j + 1],
                    history_files(history, inserted[j].source_record_id),
                    inserted[j].id,
                )
        }
}

/// One step of [`history_files_registered`]. A registration that the store
/// refuses is passed over: sources and records are then as they were, and
/// no download is asked for.
pub open spec fn record_files_registered(
    before: Store,
    after: Store,
    asked_before: Seq<Seq<char>>,
    asked_after: Seq<Seq<char>>,
    files: Option<Seq<TelegramFileWithMetaView>>,
    record_id: int,
) -> bool {
    match files {
        Some(files) => {
            ||| {
                &&& files_registered(
                    before,
                    after,
                    files,
                    record_id,
                    unknown_files(before.files, files),
                )
                &&& asked_after == asked_before + unknown_files(before.files, files)
            }
            ||| {
                &&& after.sources == before.sources
                &&& after.records == before.records
                &&& asked_after == asked_before
            }
        },
        None => after == before && asked_after == asked_before,
    }
}

/// What the backfill of one channel makes of the store: the channel is
/// saved as a source; the records of its history are upserted as records
/// of that source; the files of the records that are new are registered.
/// `downloads` are the remote files to ask for.
pub open spec fn channel_synchronized(
    before: Store,
    after: Store,
    channel: Channel,
    history: Seq<Result<Message, Error>>,
    now: int,
    downloads: Seq<Seq<char>>,
) -> bool {
    exists|mid: Store, source: SourceView, ids: Seq<int>|
        #![trigger
            channel_saved(before, mid, channel, source),
            upsert_records(mid.records, history_records(history, source.id), now, ids)]
        {
            let batch = history_records(history, source.id);
            let records = upsert_records(mid.records, batch, now, ids);
            &&& channel_saved(before, mid, channel, source)
            &&& ids.len() == batch.len()
            &&& records.len() >= mid.records.len()
            &&& history_files_registered(
                Store { records, ..mid },
                after,
                history,
                records.subrange(mid.records.len() as int, records.len() as int),
                downloads,
            )
        }
}

/// The files that were noted for a source record id: those of the last
/// entry with it.
pub open spec fn noted_files(
    entries: Seq<(String, Vec<TelegramFileWithMeta>)>,
    sri: Seq<char>,
) -> Option<Seq<TelegramFileWithMetaView>>
    decreases entries.len(),
{
    if entries.len() == 0 {
        None
    } else if entries.last().0@ == sri {
        Some(views(entries.last().1@))
    } else {
        noted_files(entries.drop_last(), sri)
    }
}

fn find_files(entries: &Vec<(String, Vec<TelegramFileWithMeta>)>, sri: &str) -> (r: Option<usize>)
    ensures
        match r {
            Some(k) => k < entries@.len() && noted_files(entries@, sri@) == Some(
                views(entries@[k as int].1@),
            ),
            None => noted_files(entries@, sri@) is None,
        },
{
    let mut found: Option<usize> = None;
    let mut j: usize = 0;
    assert(entries@.subrange(0, 0) =~= Seq::empty());
    while j < entries.len()
        invariant
            j <= entries@.len(),
            match found {
                Some(k) => k < j && noted_files(entries@.subrange(0, j as int), sri@) == Some(
                    views(entries@[k as int].1@),
                ),
                None => noted_files(entries@.subrange(0, j as int), sri@) is None,
            },
        decreases entries@.len() - j,
    {
        assert(entries@.subrange(0, j + 1).drop_last() =~= entries@.subrange(0, j as int));
        assert(entries@.subrange(0, j + 1).last() == entries@[j as int]);
        if same_text(entries[j].0.as_str(), sri) {
            found = Some(j);
        }
        j += 1;
    }
    assert(entries@.subrange(0, j as int) =~= entries@);
    found
}

impl SourceProvider for TelegramSource {
    open spec fn kind(&self) -> Source {
        Source::Telegram
    }

    fn get_source(&self) -> (kind: Source) {
        Source::Telegram
    }
}

impl TelegramSource {
    /// The moment that a backfill of the given depth reaches back to.
    pub fn history_until(&self, now: i64, secs_depth: i32) -> (until: i64)
        ensures
            until == depth_reached(now as int, secs_depth as int),
    {
        let reached: i128 = now as i128 - secs_depth as i128;
        if reached > i64::MAX as i128 {
            i64::MAX
        } else if reached < i64::MIN as i128 {
            i64::MIN
        } else {
            reached as i64
        }
    }

    /// Saves the channels that a search brought as sources, one after the
    /// other, and returns the rows of those that the store took; see
    /// [`channels_saved`]. A search that failed hands its failure on and
    /// leaves the store as it is. A channel that the store does not take is
    /// passed over, with records and files as they were, so with channels
    /// to save this never fails.
    pub fn search_source<S: Storage>(
        &self,
        storage: &mut S,
        channels: Result<Vec<Channel>, Error>,
    ) -> (r: Result<Vec<SourceRow>, Error>)
        ensures
            match channels {
                Err(e) => r == Err::<Vec<SourceRow>, Error>(e) && final(storage)@ == old(storage)@,
                Ok(list) => {
                    &&& r matches Ok(saved)
                    &&& channels_saved(old(storage)@, final(storage)@, list@, views(saved@))
                    &&& forall|j: int|
                        0 <= j < saved@.len() ==> stands_for_one_of((#[trigger] saved@[j])@, list@)
                },
            },
    {
        let list = match channels {
            Ok(list) => list,
            Err(e) => {
                return Err(e);
            },
        };
        let mut sources: Vec<SourceRow> = Vec::new();
        let mut k: usize = 0;
        let ghost mut stores: Seq<Store> = seq![storage@];
        let ghost mut outcomes: Seq<Option<SourceView>> = Seq::empty();
        assert(views(sources@) =~= taken_rows(outcomes));
        while k < list.len()
            invariant
                k <= list@.len(),
                channels == Ok::<Vec<Channel>, Error>(list),
                forall|j: int|
                    0 <= j < sources@.len() ==> stands_for_one_of(
                        (#[trigger] sources@[j])@,
                        list@,
                    ),
                stores.len() == k + 1,
                outcomes.len() == k,
                stores[0] == old(storage)@,
                stores[k as int] == storage@,
                forall|i: int|
                    0 <= i < k ==> channel_tried(
                        stores[i],
                        stores[i + 1],
                        list@[i],
                        #[trigger] outcomes[i],
                    ),
                views(sources@) == taken_rows(outcomes),
            decreases list@.len() - k,
        {
            let ghost so_far_rows = sources@;
            let outcome = self.save_channel(storage, copy_channel(&list[k]));
            let ghost tried = outcome_row(outcome);
            proof {
                if outcome is Ok {
                    assert(stands_for(outcome->Ok_0@, list@[k as int]));
                }
            }
            keep_saved(&mut sources, outcome);
            proof {
                assert forall|j: int| 0 <= j < sources@.len() implies stands_for_one_of(
                    (#[trigger] sources@[j])@,
                    list@,
                ) by {
                    let kept = views(sources@);
                    assert(kept.len() == sources@.len());
                    assert(kept[j] == sources@[j]@);
                    if j < so_far_rows.len() {
                        assert(kept[j] == views(so_far_rows)[j]);
                        assert(views(so_far_rows)[j] == so_far_rows[j]@);
                    } else {
                        assert(outcome is Ok);
                        assert(kept[j] == tried->0);
                    }
                }
                let longer = stores.push(storage@);
                let more = outcomes.push(tried);
                assert(more.drop_last() =~= outcomes);
                assert forall|i: int| 0 <= i < k + 1 implies channel_tried(
                    longer[i],
                    longer[i + 1],
                    list@[i],
                    #[trigger] more[i],
                ) by {
                    if i < k {
                        assert(more[i] == outcomes[i]);
                        assert(longer[i] == stores[i] && longer[i + 1] == stores[i + 1]);
                    }
                }
                stores = longer;
                outcomes = more;
            }
            k += 1;
        }
        Ok(sources)
    }

    /// Brings the history of one channel into the store, and returns the
    /// remote files that are to be downloaded. The channel is saved as a
    /// source first. A history that holds a failure is given up with its
    /// first failure, before any of its records is written. A message whose
    /// content is never turned into a record is passed over, and so is a
    /// registration of files that the store refuses. Apart from
    /// that it fails where the store fails, and there only.
    pub fn synchronize_channel<S: Storage>(
        &self,
        storage: &mut S,
        channel: Channel,
        history: &Vec<Result<Message, Error>>,
        now: i64,
    ) -> (r: Result<Vec<String>, Error>)
        ensures
            match r {
                Ok(downloads) => first_failure(history@) is None && channel_synchronized(
                    old(storage)@,
                    final(storage)@,
                    channel,
                    history@,
                    now as int,
                    texts(downloads@),
                ),
                Err(e) => (e is DbError || Some(e) == first_failure(history@))
                    && final(storage)@.files == old(storage)@.files,
            },
    {
        let ghost before = storage@;
        let source = match self.save_channel(storage, channel) {
            Ok(source) => source,
            Err(e) => {
                return Err(e);
            },
        };
        let ghost mid = storage@;
        let mut parsed_records: Vec<NewRecord> = Vec::new();
        // The files of a message are noted under its source record id, a text,
        // and looked up by it: the last note for an id counts.
        let mut files_by_rec: Vec<(String, Vec<TelegramFileWithMeta>)> = Vec::new();
        let mut i: usize = 0;
        assert(history@.subrange(0, 0) =~= Seq::empty());
        assert(views(parsed_records@) =~= Seq::empty());
        while i < history.len()
            invariant
                i <= history@.len(),
                storage@ == mid,
                mid.files == old(storage)@.files,
                first_failure(history@.subrange(0, i as int)) is None,
                views(parsed_records@) == history_records(
                    history@.subrange(0, i as int),
                    source.id as int,
                ),
                forall|sri: Seq<char>|
                    #[trigger] noted_files(files_by_rec@, sri) == history_files(
                        history@.subrange(0, i as int),
                        sri,
                    ),
            decreases history@.len() - i,
        {
            let ghost done = history@.subrange(0, i as int);
            let ghost next = history@.subrange(0, i + 1);
            assert(next.drop_last() =~= done);
            assert(next.last() == history@[i as int]);
            match &history[i] {
                Ok(message) => {
                    match parse_message_content(&message.content) {
                        Ok((content, files)) => {
                            match content {
                                Some(c) => {
                                    let ghost so_far = views(parsed_records@);
                                    parsed_records.push(
                                        NewRecord {
                                            title: None,
                                            source_record_id: i64_to_string(message.id),
                                            source_id: source.id,
                                            content: c,
                                            date: Some(message.date),
                                            image: None,
                                        },
                                    );
                                    assert(views(parsed_records@) =~= so_far.push(
                                        history_record(*message, source.id as int),
                                    ));
                                },
                                None => {},
                            }
                            match files {
                                Some(f) => {
                                    let ghost entries = files_by_rec@;
                                    let ghost fv = files_view(Some(f)).unwrap();
                                    assert(fv =~= views(f@));
                                    files_by_rec.push((i64_to_string(message.id), f));
                                    assert(files_by_rec@.drop_last() =~= entries);
                                    assert forall|sri: Seq<char>| #[trigger]
                                        noted_files(files_by_rec@, sri)
                                            == history_files(next, sri) by {
                                        assert(noted_files(entries, sri)
                                            == history_files(done, sri));
                                    }
                                },
                                None => {
                                    assert forall|sri: Seq<char>| #[trigger]
                                        noted_files(files_by_rec@, sri)
                                            == history_files(next, sri) by {
                                        assert(noted_files(files_by_rec@, sri) == history_files(
                                            done,
                                            sri,
                                        ));
                                    }
                                },
                            }
                        },
                        Err(_) => {
                            assert forall|sri: Seq<char>| #[trigger]
                                noted_files(files_by_rec@, sri) == history_files(next, sri) by {
                                assert(noted_files(files_by_rec@, sri) == history_files(done, sri));
                            }
                        },
                    }
                },
                Err(e) => {
                    proof {
                        lemma_failure_stays(history@, i as int);
                    }
                    return Err(e.clone());
                },
            }
            i += 1;
        }
        assert(history@.subrange(0, i as int) =~= history@);
        let records = match storage.save_records(&parsed_records, now) {
            Ok(records) => records,
            Err(e) => {
                return Err(e);
            },
        };
        let ghost with_records = storage@;
        let ghost ids = choose|ids: Seq<int>|
            ids.len() == parsed_records@.len() && with_records.records == #[trigger] upsert_records(
                mid.records,
                views(parsed_records@),
                now as int,
                ids,
            );
        let ghost inserted = views(records@);
        let mut downloads: Vec<String> = Vec::new();
        let ghost mut stores: Seq<Store> = seq![with_records];
        let ghost mut asked: Seq<Seq<Seq<char>>> = seq![Seq::<Seq<char>>::empty()];
        let mut j: usize = 0;
        assert(texts(downloads@) =~= Seq::<Seq<char>>::empty());
        while j < records.len()
            invariant
                j <= records@.len(),
                inserted == views(records@),
                stores.len() == j + 1,
                asked.len() == j + 1,
                stores[0] == with_records,
                stores[j as int] == storage@,
                asked[0] == Seq::<Seq<char>>::empty(),
                asked[j as int] == texts(downloads@),
                forall|sri: Seq<char>|
                    #[trigger] noted_files(files_by_rec@, sri) == history_files(history@, sri),
                forall|k: int|
                    0 <= k < j ==> record_files_registered(
                        #[trigger] stores[k],
                        stores[k + 1],
                        asked[k],
                        asked[k + 1],
                        history_files(history@, inserted[k].source_record_id),
                        inserted[k].id,
                    ),
            decreases records@.len() - j,
        {
            let rec = &records[j];
            let ghost so_far = storage@;
            let ghost asked_so_far = texts(downloads@);
            assert(inserted[j as int] == rec@);
            assert(noted_files(files_by_rec@, rec.source_record_id@) == history_files(
                history@,
                rec.source_record_id@,
            ));
            match find_files(&files_by_rec, rec.source_record_id.as_str()) {
                None => {},
                Some(k) => {
                    match self.handle_new_files(storage, &files_by_rec[k].1, rec.id) {
                        Ok(found) => {
                            let mut more = found;
                            let ghost added = texts(more@);
                            downloads.append(&mut more);
                            assert(texts(downloads@) =~= asked_so_far + added);
                        },
                        Err(_) => {},
                    }
                },
            }
            proof {
                let longer = stores.push(storage@);
                let asked_longer = asked.push(texts(downloads@));
                assert forall|k: int| 0 <= k < j + 1 implies record_files_registered(
                    #[trigger] longer[k],
                    longer[k + 1],
                    asked_longer[k],
                    asked_longer[k + 1],
                    history_files(history@, inserted[k].source_record_id),
                    inserted[k].id,
                ) by {
                    if k < j {
                        assert(longer[k] == stores[k] && longer[k + 1] == stores[k + 1]);
                        assert(asked_longer[k] == asked[k] && asked_longer[k + 1] == asked[k + 1]);
                    }
                }
                stores = longer;
                asked = asked_longer;
            }
            j += 1;
        }
        proof {
            assert(with_records == Store { records: with_records.records, ..mid });
            assert(history_files_registered(
                with_records,
                storage@,
                history@,
                inserted,
                texts(downloads@),
            ));
            let batch = history_records(history@, source@.id);
            assert(views(parsed_records@) == batch);
            let written = upsert_records(mid.records, batch, now as int, ids);
            assert(written == with_records.records);
            assert(channel_saved(before, mid, channel, source@));
            assert(inserted == written.subrange(mid.records.len() as int, written.len() as int));
            assert((Store { records: written, ..mid }) == with_records);
            assert(channel_synchronized(
                before,
                storage@,
                channel,
                history@,
                now as int,
                texts(downloads@),
            ));
        }
        Ok(downloads)
    }
}

fn copy_channel(channel: &Channel) -> (c: Channel)
    ensures
        c == *channel,
{
    Channel {
        chat_id: channel.chat_id,
        title: channel.title.clone(),
        username: channel.username.clone(),
    }
}

/// A failure in a history is the first failure of the history, or comes
/// after it.
proof fn lemma_failure_stays(history: Seq<Result<Message, Error>>, i: int)
    requires
        0 <= i < history.len(),
        history[i] is Err,
        first_failure(history.subrange(0, i)) is None,
    ensures
        first_failure(history) == Some(history[i]->Err_0),
    decreases history.len() - i,
{
    let upto = history.subrange(0, i + 1);
    assert(upto.drop_last() =~= history.subrange(0, i));
    assert(upto.last() == history[i]);
    lemma_first_failure_kept(history, i + 1);
}

} // verus!
