//! How an update of the chat provider reaches the store. What only the chat
//! network can give (a channel, the link of a message, a download, a file
//! moved on disk) is asked for by a [`Step`], and handed in with the call
//! that goes on from it.

use crate::models::{
    File, FileView, NewFileView, NewRecord, NewRecordView, NewSourceView, Source, SourceView,
};
use crate::result::Error;
use crate::storage::interface::Storage;
use crate::storage::model::{
    count_files, file_with_remote_id, first_source, has_record, lemma_upserted_source_row,
    link_records, place_files, search_sources, upsert_files, upsert_record, upsert_records,
    upsert_sources, views, Store,
};
use crate::tools::{decimal_text, i64_to_string, same_text};
use crate::updates::UpdatesHandler;
use crate::updates::tg::content::Channel;
use crate::updates::tg::files::{new_files, rows_stand_for};
use crate::updates::tg::parsers::{channel_source, channel_to_new_source};
use crate::updates::tg::source::TelegramSource;
use crate::updates::tg::structs::{
    TelegramFile, TelegramFileView, TelegramFileWithMeta, TelegramFileWithMetaView, TelegramMessage,
    TelegramMessageView, TelegramUpdate,
};
use vstd::prelude::*;

verus! {

/// How far an update has come, and what has to happen outside the library
/// before it can go on.
#[derive(Debug, PartialEq, Eq)]
pub enum Step {
    /// The update is dealt with and counts for this many.
    Done(usize),
    /// The chat of a message is no known source. The chat is to be joined
    /// and its channel looked up; the update goes on with
    /// [`TelegramSource::resume_with_channel`].
    ResolveChannel { chat_id: i64 },
    /// A message became a new record. Each of `downloads` is to be
    /// downloaded, and the link of the message looked up; the update goes
    /// on with [`TelegramSource::handle_record_inserted`] on `created`.
    Register { chat_id: i64, message_id: i64, created: Vec<(String, i32)>, downloads: Vec<String> },
    /// A download has finished for a file that the store knows. The file is
    /// to be moved from `from` into the directory `dir`, under the name
    /// `name`; the update goes on with [`TelegramSource::file_moved`] on
    /// `row` and the place the file was moved to.
    MoveFile { from: String, dir: String, name: String, row: File },
}

/// The texts of a sequence of strings.
pub open spec fn texts(v: Seq<String>) -> Seq<Seq<char>> {
    Seq::new(v.len(), |i: int| v[i]@)
}

/// Whether one of `files` has the given remote id.
pub open spec fn names_remote_id(
    files: Seq<TelegramFileWithMetaView>,
    remote_id: Seq<char>,
) -> bool {
    exists|i: int| 0 <= i < files.len() && (#[trigger] files[i]).path.remote_id == remote_id
}

/// The remote files of the files that become new rows: of each remote id
/// that no row has, the remote file of the first of `files` that has it, in
/// the order of `files`.
pub open spec fn unknown_files(rows: Seq<FileView>, files: Seq<TelegramFileWithMetaView>) -> Seq<
    Seq<char>,
>
    decreases files.len(),
{
    if files.len() == 0 {
        Seq::empty()
    } else if count_files(rows, files.last().path.remote_id) == 0 && !names_remote_id(
        files.drop_last(),
        files.last().path.remote_id,
    ) {
        unknown_files(rows, files.drop_last()).push(files.last().path.remote_file)
    } else {
        unknown_files(rows, files.drop_last())
    }
}

/// What the registration of the files of a record makes of the store: the
/// rows that stand for the files are upserted. `downloads` are the remote
/// files of the files that became new rows, one for each remote id that
/// the store did not know.
pub open spec fn files_registered(
    before: Store,
    after: Store,
    files: Seq<TelegramFileWithMetaView>,
    record_id: int,
    downloads: Seq<Seq<char>>,
) -> bool {
    &&& after.sources == before.sources
    &&& after.records == before.records
    &&& exists|rows: Seq<NewFileView>, ids: Seq<int>|
        #![trigger upsert_files(before.files, rows, ids)]
        rows_stand_for(rows, files, record_id) && ids.len() == rows.len() && after.files
            == upsert_files(before.files, rows, ids)
    &&& downloads == unknown_files(before.files, files)
}

/// The record that stands for a message of the source `source_id`.
pub open spec fn chat_record(message: TelegramMessageView, source_id: int) -> NewRecordView {
    NewRecordView {
        title: None,
        source_record_id: decimal_text(message.message_id),
        source_id,
        content: match message.content {
            Some(text) => text,
            None => Seq::empty(),
        },
        date: message.date,
        image: None,
    }
}

/// What a registration that the store refused has left: sources and
/// records as they were, and no download to ask for.
pub open spec fn registration_failed(
    before: Store,
    after: Store,
    downloads: Seq<Seq<char>>,
) -> bool {
    after.sources == before.sources && after.records == before.records && downloads.len() == 0
}

/// What a message of the source `source_id` makes of the store. Its record
/// is upserted. Where the record was known, that is all, and the update
/// counts for nothing. Where it is new, the files of the message are
/// registered for it, and the step asks for their downloads and for the
/// link of the message. A registration that the store refuses does not
/// fail the record: the step then asks for the link alone.
pub open spec fn message_taken(
    before: Store,
    after: Store,
    message: TelegramMessage,
    source_id: int,
    now: int,
    step: Step,
) -> bool {
    let item = chat_record(message@, source_id);
    exists|ids: Seq<int>|
        #![trigger upsert_records(before.records, seq![item], now, ids)]
        {
            let records = upsert_records(before.records, seq![item], now, ids);
            let mid = Store { records, ..before };
            &&& ids.len() == 1
            &&& if has_record(before.records, item.source_record_id, source_id) {
                after == mid && (step matches Step::Done(n) && n == 0)
            } else {
                &&& step matches Step::Register { chat_id, message_id, created, downloads }
                &&& chat_id == message.chat_id
                &&& message_id == message.message_id
                &&& created@.len() == 1
                &&& created@[0].0@ == item.source_record_id
                &&& created@[0].1 == source_id
                &&& match message.files {
                    Some(files) => files_registered(
                        mid,
                        after,
                        views(files@),
                        records.last().id,
                        texts(downloads@),
                    ) || registration_failed(mid, after, texts(downloads@)),
                    None => after == mid && downloads@.len() == 0,
                }
            }
        }
}

/// The row of a file with `name` as its file name where it had none.
pub open spec fn file_named(row: FileView, name: Seq<char>) -> FileView {
    FileView {
        file_name: match row.file_name {
            Some(known) => Some(known),
            None => Some(name),
        },
        ..row
    }
}

/// The row of a file once the file lies at `to`.
pub open spec fn file_at(row: FileView, to: Seq<char>) -> FileView {
    FileView { local_path: Some(to), ..row }
}

/// What a finished download asks for. A file that the store does not know
/// is dropped, and the update counts for one. A file that it knows is to be
/// moved from where the download lies into the files directory; its row
/// gets a file name where it had none, the name that the file is to have
/// there.
pub open spec fn file_move_planned(
    store: Store,
    files_directory: Seq<char>,
    file: TelegramFileView,
    step: Step,
) -> bool {
    if count_files(store.files, file.remote_id) == 0 {
        step matches Step::Done(n) && n == 1
    } else {
        &&& step matches Step::MoveFile { from, dir, name, row }
        &&& from@ == file.local_path
        &&& dir@ == files_directory
        &&& row@ == file_named(file_with_remote_id(store.files, file.remote_id).unwrap(), name@)
    }
}

/// `std::path::Path::file_name` on a path given as text: the final
/// component of the path as text, where the path has one. What counts as a
/// component is for the platform to say, so nothing is stated of it.
#[verifier::external_body]
fn path_file_name(path: &str) -> (name: Option<String>) {
    std::path::Path::new(path).file_name().map(|name| name.to_string_lossy().into_owned())
}

/// Plans the move of a finished download of a known file, once the final
/// component of the path at which it lies has been asked for. Without one
/// the download cannot be placed, which is a failure of persistence. With
/// one the file is to be moved from `from` into `dir` under that name, and
/// the row gets the name where it had none.
pub fn plan_move(db_file: File, from: &str, dir: &str, named: Option<String>) -> (r: Result<
    Step,
    Error,
>)
    ensures
        match named {
            None => r matches Err(e) && e is DbError && e.detail()
                == "the download has no file name"@,
            Some(file_name) => r matches Ok(step) && (step matches Step::MoveFile {
                from: origin,
                dir: target,
                name,
                row,
            } && origin@ == from@ && target@ == dir@ && name@ == file_name@ && row@ == file_named(
                db_file@,
                file_name@,
            )),
        },
{
    match named {
        None => Err(Error::DbError("the download has no file name".to_owned())),
        Some(file_name) => {
            let row = File {
                id: db_file.id,
                record_id: db_file.record_id,
                kind: db_file.kind,
                local_path: db_file.local_path,
                remote_path: db_file.remote_path,
                remote_id: db_file.remote_id,
                file_name: match db_file.file_name {
                    Some(known) => Some(known),
                    None => Some(file_name.clone()),
                },
                type_: db_file.type_,
                meta: db_file.meta,
            };
            Ok(Step::MoveFile { from: from.to_owned(), dir: dir.to_owned(), name: file_name, row })
        },
    }
}

/// The source of a channel, upserted; `source` is the row that stands for
/// it, and so has the channel's title as its name.
pub open spec fn channel_saved(
    before: Store,
    after: Store,
    channel: Channel,
    source: SourceView,
) -> bool {
    &&& exists|ids: Seq<int>|
        ids.len() == 1 && after.sources == #[trigger] upsert_sources(
            before.sources,
            seq![channel_source(channel)],
            ids,
        )
    &&& Some(source) == first_source(
        after.sources,
        channel_source(channel).origin,
        channel_source(channel).kind,
    )
    &&& source.name == channel.title@
    &&& source.origin == channel_source(channel).origin
    &&& source.kind == channel_source(channel).kind
    &&& after.records == before.records
    &&& after.files == before.files
}

/// What an update makes of the store, as far as the store alone can take
/// it. A finished download changes nothing and is planned as
/// [`file_move_planned`] says. A message of a chat that a search for the
/// chat's number finds is taken as one of the first source found; a message
/// of any other chat asks for its channel, and nothing is written.
pub open spec fn update_taken(
    before: Store,
    after: Store,
    files_directory: Seq<char>,
    updates: TelegramUpdate,
    now: int,
    step: Step,
) -> bool {
    match updates {
        TelegramUpdate::FileDownloadFinished(file) => after == before && file_move_planned(
            before,
            files_directory,
            file@,
            step,
        ),
        TelegramUpdate::Message(message) => {
            let found = search_sources(before.sources, decimal_text(message.chat_id as int));
            if found.len() == 0 {
                after == before && (step matches Step::ResolveChannel { chat_id } && chat_id
                    == message.chat_id)
            } else {
                message_taken(before, after, message, found[0].id, now, step)
            }
        },
    }
}

impl TelegramSource {
    /// Registers the files of the record `record_id`, and returns the
    /// remote files that are to be downloaded: those of the files that the
    /// store did not know. Fails where the store fails, and there only.
    pub fn handle_new_files<S: Storage>(
        &self,
        storage: &mut S,
        files: &Vec<TelegramFileWithMeta>,
        record_id: i32,
    ) -> (r: Result<Vec<String>, Error>)
        ensures
            match r {
                Ok(downloads) => files_registered(
                    old(storage)@,
                    final(storage)@,
                    views(files@),
                    record_id as int,
                    texts(downloads@),
                ),
                Err(e) => e is DbError && final(storage)@.sources == old(storage)@.sources
                    && final(storage)@.records == old(storage)@.records,
            },
    {
        let ghost before = storage@;
        let mut downloads: Vec<String> = Vec::new();
        let mut i: usize = 0;
        assert(views(files@).subrange(0, 0) =~= Seq::empty());
        assert(texts(downloads@) =~= Seq::empty());
        while i < files.len()
            invariant
                i <= files@.len(),
                storage@ == before,
                before == old(storage)@,
                texts(downloads@) == unknown_files(
                    before.files,
                    views(files@).subrange(0, i as int),
                ),
            decreases files@.len() - i,
        {
            let file = &files[i];
            assert(views(files@).subrange(0, i + 1).drop_last() =~= views(files@).subrange(
                0,
                i as int,
            ));
            assert(views(files@).subrange(0, i + 1).last() == file@);
            match storage.get_file_by_remote_id(file.path.remote_id.as_str()) {
                Ok(None) => {
                    if !names_earlier(files, i) {
                        let ghost so_far = texts(downloads@);
                        downloads.push(file.path.remote_file.clone());
                        assert(texts(downloads@) =~= so_far.push(file.path.remote_file@));
                    }
                },
                Ok(Some(_)) => {},
                Err(e) => {
                    return Err(e);
                },
            }
            i += 1;
        }
        assert(views(files@).subrange(0, i as int) =~= views(files@));
        let rows = new_files(files, record_id);
        assert(views(rows@) =~= Seq::new(rows@.len(), |i: int| rows@[i]@));
        assert(views(files@) =~= Seq::new(files@.len(), |i: int| files@[i]@));
        match storage.save_files(&rows) {
            Ok(_) => Ok(downloads),
            Err(e) => Err(e),
        }
    }

    /// Plans the move of a file whose download has finished: into the files
    /// directory, under the final component of the path at which the
    /// download lies. The store is only read. Where the store knows the
    /// file, the standard library says whether that path has a final
    /// component, and the plan is what [`plan_move`] makes of its answer.
    /// Apart from that it fails where the store fails, and there only.
    pub fn handle_file_downloaded<S: Storage>(&self, storage: &S, file: &TelegramFile) -> (r:
        Result<Step, Error>)
        ensures
            match r {
                Ok(step) => file_move_planned(storage@, self.files_directory@, file@, step),
                Err(e) => e is DbError,
            },
    {
        match storage.get_file_by_remote_id(file.remote_id.as_str()) {
            Ok(None) => Ok(Step::Done(1)),
            Ok(Some(db_file)) => plan_move(
                db_file,
                file.local_path.as_str(),
                self.files_directory.as_str(),
                path_file_name(file.local_path.as_str()),
            ),
            Err(e) => Err(e),
        }
    }

    /// Goes on once a file has been moved to `to`: the row takes that place
    /// as its local path, with its file name, and the update counts for
    /// one. A move that failed is a failure of persistence and leaves the
    /// store as it is. Apart from that it fails where the store fails, and
    /// there only; sources and records are then as they were.
    pub fn file_moved<S: Storage>(
        &self,
        storage: &mut S,
        row: &File,
        moved: Result<String, String>,
    ) -> (r: Result<usize, Error>)
        ensures
            match moved {
                Err(message) => r == Err::<usize, Error>(Error::DbError(message))
                    && final(storage)@ == old(storage)@,
                Ok(to) => match r {
                    Ok(n) => n == 1 && final(storage)@ == (Store {
                        files: place_files(old(storage)@.files, file_at(row@, to@)),
                        ..old(storage)@
                    }),
                    Err(e) => e is DbError && final(storage)@.sources == old(storage)@.sources
                        && final(storage)@.records == old(storage)@.records,
                },
            },
    {
        match moved {
            Err(message) => Err(Error::DbError(message)),
            Ok(to) => {
                let mut placed = row.clone();
                placed.local_path = Some(to);
                match storage.save_file(&placed) {
                    Ok(_) => Ok(1),
                    Err(e) => Err(e),
                }
            },
        }
    }

    /// Goes on once the link of a message is known, or not. No record
    /// created: nothing is done. One: it gets the link, and the update
    /// counts for one; where the link could not be had, that failure is
    /// handed on and the store stays as it is. More than one: that is
    /// refused, for one message makes one record. Apart from that it fails
    /// where the store fails, and there only.
    pub fn handle_record_inserted<S: Storage>(
        &self,
        storage: &mut S,
        created: &Vec<(String, i32)>,
        message_link: Result<String, Error>,
    ) -> (r: Result<usize, Error>)
        ensures
            created@.len() == 0 ==> r == Ok::<usize, Error>(0) && final(storage)@ == old(storage)@,
            created@.len() > 1 ==> r == Err::<usize, Error>(Error::SourceCreationError)
                && final(storage)@ == old(storage)@,
            created@.len() == 1 ==> match message_link {
                Err(e) => r == Err::<usize, Error>(e) && final(storage)@ == old(storage)@,
                Ok(link) => match r {
                    Ok(n) => n == 1 && final(storage)@ == (Store {
                        records: link_records(
                            old(storage)@.records,
                            created@[0].0@,
                            created@[0].1 as int,
                            link@,
                        ),
                        ..old(storage)@
                    }),
                    Err(e) => e is DbError,
                },
            },
    {
        if created.len() == 0 {
            Ok(0)
        } else if created.len() == 1 {
            match message_link {
                Err(e) => Err(e),
                Ok(link) => {
                    match storage.set_record_external_link(
                        created[0].0.as_str(),
                        created[0].1,
                        link.as_str(),
                    ) {
                        Ok(_) => Ok(1),
                        Err(e) => Err(e),
                    }
                },
            }
        } else {
            Err(Error::SourceCreationError)
        }
    }

    /// Takes a message of a known source into the store. Fails where the
    /// store fails to take the record, and there only; sources and files
    /// are then as they were.
    pub fn handle_message<S: Storage>(
        &self,
        storage: &mut S,
        message: &TelegramMessage,
        source_id: i32,
        now: i64,
    ) -> (r: Result<Step, Error>)
        ensures
            match r {
                Ok(step) => message_taken(
                    old(storage)@,
                    final(storage)@,
                    *message,
                    source_id as int,
                    now as int,
                    step,
                ),
                Err(e) => e is DbError && final(storage)@.sources == old(storage)@.sources
                    && final(storage)@.files == old(storage)@.files,
            },
    {
        let ghost before = storage@;
        let ghost item = chat_record(message@, source_id as int);
        let record = NewRecord {
            title: None,
            image: None,
            date: message.date,
            source_record_id: i64_to_string(message.message_id),
            source_id,
            content: match &message.content {
                Some(text) => text.clone(),
                None => String::new(),
            },
        };
        assert(record@ == item);
        let batch = vec![record];
        assert(views(batch@) =~= seq![item]);
        let mut inserted = match storage.save_records(&batch, now) {
            Ok(inserted) => inserted,
            Err(e) => {
                return Err(e);
            },
        };
        let ghost mid = storage@;
        let ghost ids = choose|ids: Seq<int>|
            ids.len() == 1 && mid.records == #[trigger] upsert_records(
                before.records,
                seq![item],
                now as int,
                ids,
            );
        proof {
            assert(seq![item].drop_last() =~= Seq::<NewRecordView>::empty());
            assert(upsert_records(
                before.records,
                seq![item].drop_last(),
                now as int,
                ids.drop_last(),
            ) == before.records);
            assert(seq![item].last() == item);
            assert(ids.last() == ids[0]);
            assert(mid.records == upsert_record(
                before.records,
                item,
                now as int,
                ids[0],
            ));
            assert(mid == Store { records: mid.records, ..before });
        }
        let ghost all_inserted = inserted@;
        assert(views(all_inserted).len() == mid.records.len() - before.records.len());
        match inserted.pop() {
            None => {
                assert(message_taken(
                    before,
                    storage@,
                    *message,
                    source_id as int,
                    now as int,
                    Step::Done(0),
                ));
                Ok(Step::Done(0))
            },
            Some(rec) => {
                assert(rec@ == views(all_inserted)[all_inserted.len() - 1]);
                assert(rec@ == mid.records.last());
                let downloads = match &message.files {
                    Some(files) => match self.handle_new_files(storage, files, rec.id) {
                        Ok(downloads) => downloads,
                        Err(_) => {
                            let none: Vec<String> = Vec::new();
                            assert(registration_failed(mid, storage@, texts(none@)));
                            none
                        },
                    },
                    None => Vec::new(),
                };
                let step = Step::Register {
                    chat_id: message.chat_id,
                    message_id: message.message_id,
                    created: vec![(rec.source_record_id, rec.source_id)],
                    downloads,
                };
                assert(message_taken(
                    before,
                    storage@,
                    *message,
                    source_id as int,
                    now as int,
                    step,
                ));
                Ok(step)
            },
        }
    }

    /// Upserts the source of the chat of a message, once its channel has
    /// been looked up. A finished download has no chat and is refused; a
    /// failure of the lookup is handed on; a chat without a channel is no
    /// source. In each of these the store stays as it is. Apart from them it
    /// fails where the store fails, and there only.
    pub fn create_source<S: Storage>(
        &self,
        storage: &mut S,
        updates: &TelegramUpdate,
        channel: Result<Option<Channel>, Error>,
    ) -> (r: Result<Source, Error>)
        ensures
            match (*updates, channel) {
                (TelegramUpdate::FileDownloadFinished(_), _) => r matches Err(e) && e
                    is UpdateNotSupported && e.detail() == "FileDownloadFinished"@
                        && final(storage)@ == old(storage)@,
                (TelegramUpdate::Message(_), Err(e)) => r == Err::<Source, Error>(e)
                    && final(storage)@ == old(storage)@,
                (TelegramUpdate::Message(_), Ok(None)) => r == Err::<Source, Error>(
                    Error::SourceNotFound,
                ) && final(storage)@ == old(storage)@,
                (TelegramUpdate::Message(_), Ok(Some(found))) => match r {
                    Ok(source) => channel_saved(old(storage)@, final(storage)@, found, source@),
                    Err(e) => e is DbError && final(storage)@.records == old(storage)@.records
                        && final(storage)@.files == old(storage)@.files,
                },
            },
    {
        match updates {
            TelegramUpdate::FileDownloadFinished(_) => Err(
                Error::UpdateNotSupported("FileDownloadFinished".to_owned()),
            ),
            TelegramUpdate::Message(_) => match channel {
                Err(e) => Err(e),
                Ok(None) => Err(Error::SourceNotFound),
                Ok(Some(found)) => self.save_channel(storage, found),
            },
        }
    }

    /// Upserts the source of a channel. Fails where the store fails, and
    /// there only; records and files are then as they were.
    pub fn save_channel<S: Storage>(&self, storage: &mut S, channel: Channel) -> (r: Result<
        Source,
        Error,
    >)
        ensures
            match r {
                Ok(source) => channel_saved(old(storage)@, final(storage)@, channel, source@),
                Err(e) => e is DbError && final(storage)@.records == old(storage)@.records
                    && final(storage)@.files == old(storage)@.files,
            },
    {
        let ghost before = storage@.sources;
        let batch = vec![channel_to_new_source(channel)];
        assert(views(batch@) =~= seq![channel_source(channel)]);
        match storage.save_sources(&batch) {
            Ok(saved) => {
                proof {
                    let item = channel_source(channel);
                    let ids = choose|ids: Seq<int>|
                        ids.len() == 1 && storage@.sources == #[trigger] upsert_sources(
                            before,
                            seq![item],
                            ids,
                        );
                    assert(seq![item].drop_last() =~= Seq::<NewSourceView>::empty());
                    assert(upsert_sources(before, seq![item].drop_last(), ids.drop_last())
                        == before);
                    lemma_upserted_source_row(before, item, ids.last());
                }
                Ok(saved[0].clone())
            },
            Err(e) => Err(e),
        }
    }

    /// Goes on with a message once the channel of its chat has been looked
    /// up: the source of the channel is upserted and the message is taken
    /// as one of that source. Where there is no source to be had, the store
    /// stays as it is; see [`TelegramSource::create_source`].
    pub fn resume_with_channel<S: Storage>(
        &self,
        storage: &mut S,
        updates: &TelegramUpdate,
        channel: Result<Option<Channel>, Error>,
        now: i64,
    ) -> (r: Result<Step, Error>)
        ensures
            match (*updates, channel) {
                (TelegramUpdate::FileDownloadFinished(_), _) => r matches Err(e) && e
                    is UpdateNotSupported && e.detail() == "FileDownloadFinished"@
                        && final(storage)@ == old(storage)@,
                (TelegramUpdate::Message(_), Err(e)) => r == Err::<Step, Error>(e)
                    && final(storage)@ == old(storage)@,
                (TelegramUpdate::Message(_), Ok(None)) => r == Err::<Step, Error>(
                    Error::SourceNotFound,
                ) && final(storage)@ == old(storage)@,
                (TelegramUpdate::Message(message), Ok(Some(found))) => match r {
                    Ok(step) => exists|mid: Store, source: SourceView|
                        #![trigger channel_saved(old(storage)@, mid, found, source)]
                        channel_saved(old(storage)@, mid, found, source) && message_taken(
                            mid,
                            final(storage)@,
                            message,
                            source.id,
                            now as int,
                            step,
                        ),
                    Err(e) => e is DbError && final(storage)@.files == old(storage)@.files,
                },
            },
    {
        let ghost before = storage@;
        let source = match self.create_source(storage, updates, channel) {
            Ok(source) => source,
            Err(e) => {
                return Err(e);
            },
        };
        let ghost mid = storage@;
        match updates {
            TelegramUpdate::Message(message) => {
                let step = match self.handle_message(storage, message, source.id, now) {
                    Ok(step) => step,
                    Err(e) => {
                        return Err(e);
                    },
                };
                proof {
                    let found = channel->Ok_0->Some_0;
                    assert(channel_saved(before, mid, found, source@));
                }
                Ok(step)
            },
            TelegramUpdate::FileDownloadFinished(_) => {
                assert(false);
                Ok(Step::Done(0))
            },
        }
    }
}

impl UpdatesHandler<TelegramUpdate> for TelegramSource {
    type Outcome = Step;

    /// An update is taken as far as the store alone can take it, as
    /// [`update_taken`] says; the outcome is the step that goes on from
    /// there.
    open spec fn taken(
        &self,
        before: Store,
        after: Store,
        updates: TelegramUpdate,
        now: int,
        outcome: Step,
    ) -> bool {
        update_taken(before, after, self.files_directory@, updates, now, outcome)
    }

    fn process_updates<S: Storage>(
        &self,
        storage: &mut S,
        updates: &TelegramUpdate,
        now: i64,
    ) -> (r: Result<Step, Error>)
    {
        match updates {
            TelegramUpdate::FileDownloadFinished(file) => self.handle_file_downloaded(
                storage,
                file,
            ),
            TelegramUpdate::Message(message) => {
                let origin = i64_to_string(message.chat_id);
                let sources = match storage.search_source(origin.as_str()) {
                    Ok(sources) => sources,
                    Err(e) => {
                        return Err(e);
                    },
                };
                if sources.len() == 0 {
                    Ok(Step::ResolveChannel { chat_id: message.chat_id })
                } else {
                    assert(views(sources@)[0] == sources@[0]@);
                    self.handle_message(storage, message, sources[0].id, now)
                }
            },
        }
    }
}

/// Whether a file in front of the file at `at` has its remote id.
fn names_earlier(files: &Vec<TelegramFileWithMeta>, at: usize) -> (r: bool)
    requires
        at < files@.len(),
    ensures
        r == names_remote_id(
            views(files@).subrange(0, at as int),
            files@[at as int]@.path.remote_id,
        ),
{
    let ghost front = views(files@).subrange(0, at as int);
    let ghost remote_id = files@[at as int]@.path.remote_id;
    let mut j: usize = 0;
    while j < at
        invariant
            j <= at < files@.len(),
            front == views(files@).subrange(0, at as int),
            remote_id == files@[at as int]@.path.remote_id,
            forall|k: int| 0 <= k < j ==> (#[trigger] front[k]).path.remote_id != remote_id,
        decreases at - j,
    {
        if same_text(files[j].path.remote_id.as_str(), files[at].path.remote_id.as_str()) {
            assert(front[j as int].path.remote_id == remote_id);
            return true;
        }
        j += 1;
    }
    false
}

} // verus!
