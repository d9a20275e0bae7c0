use news_aggregator::models::NewSource;
use news_aggregator::result::Error;
use news_aggregator::storage::{St, Storage};
use news_aggregator::updates::tg::content::{
    Channel, FormattedText, Message, MessageContent, PhotoSize, RemoteFile,
};
use news_aggregator::updates::tg::files::{frame_animation, frame_image, meta_json, new_files};
use news_aggregator::updates::tg::parsers::parse_message_content;
use news_aggregator::updates::tg::updates_handler::plan_move;
use news_aggregator::updates::tg::{
    AnimationMeta, FilePath, FileType, ImageMeta, Step, TelegramFile, TelegramFileWithMeta,
    TelegramMessage, TelegramSource, TelegramUpdate,
};
use news_aggregator::updates::{Source, SourceProvider, UpdatesHandler};
use std::path::Path;

fn provider() -> TelegramSource {
    TelegramSource::builder(1, "hash", "+100", 4, "/data", 30).build()
}

fn channel_100() -> Channel {
    Channel { chat_id: 100, title: "Chat".to_string(), username: "chat_100".to_string() }
}

fn photo_content() -> MessageContent {
    MessageContent::MessagePhoto {
        sizes: vec![PhotoSize {
            width: 320,
            height: 240,
            photo: RemoteFile { id: 17, local_path: "".to_string(), unique_id: "R".to_string() },
        }],
        caption: FormattedText { text: "Hi".to_string(), entities: vec![] },
    }
}

fn photo_message() -> TelegramUpdate {
    let (content, files) = parse_message_content(&photo_content()).unwrap();
    TelegramUpdate::Message(TelegramMessage {
        chat_id: 100,
        message_id: 7,
        date: Some(1700000000),
        content,
        files,
    })
}

fn ingest_photo(tg: &TelegramSource, st: &mut St) {
    let update = photo_message();
    assert_eq!(
        tg.process_updates(st, &update, 1700000100).unwrap(),
        Step::ResolveChannel { chat_id: 100 }
    );
    let step = tg.resume_with_channel(st, &update, Ok(Some(channel_100())), 1700000100).unwrap();
    assert_eq!(
        step,
        Step::Register {
            chat_id: 100,
            message_id: 7,
            created: vec![("7".to_string(), 1)],
            downloads: vec!["17".to_string()],
        }
    );
}

#[test]
fn chat_message_with_photo() {
    let tg = provider();
    let mut st = St::new();
    let update = photo_message();
    match &update {
        TelegramUpdate::Message(message) => {
            assert_eq!(message.content, Some("Hi".to_string()));
            let files = message.files.as_ref().unwrap();
            assert_eq!(files.len(), 1);
            assert_eq!(files[0].file_type, FileType::Image(ImageMeta { width: 320, height: 240 }));
        }
        _ => unreachable!(),
    }
    ingest_photo(&tg, &mut st);
    let sources = st.sources();
    assert_eq!(sources.len(), 1);
    assert_eq!(sources[0].origin, "100");
    assert_eq!(sources[0].kind, "TELEGRAM");
    assert_eq!(sources[0].name, "Chat");
    assert_eq!(sources[0].external_link, "chat_100");
    let records = st.records();
    assert_eq!(records.len(), 1);
    assert_eq!(records[0].content, "Hi");
    assert_eq!(records[0].source_record_id, "7");
    assert_eq!(records[0].source_id, sources[0].id);
    assert_eq!(records[0].date, 1700000000);
    assert_eq!(records[0].title, None);
    let files = st.files();
    assert_eq!(files.len(), 1);
    assert_eq!(files[0].local_path, None);
    assert_eq!(files[0].record_id, records[0].id);
    assert_eq!(files[0].kind, "TELEGRAM");
    assert_eq!(files[0].remote_path, "17");
    assert_eq!(files[0].remote_id, Some("R".to_string()));
    assert_eq!(files[0].file_name, None);
    assert_eq!(files[0].type_, "IMAGE");
    assert_eq!(files[0].meta, Some("{\"width\":320,\"height\":240}".to_string()));
    let linked = tg
        .handle_record_inserted(
            &mut st,
            &vec![("7".to_string(), sources[0].id)],
            Ok("https://t.me/chat_100/7".to_string()),
        )
        .unwrap();
    assert_eq!(linked, 1);
    assert_eq!(st.records()[0].external_link, "https://t.me/chat_100/7");
}

#[test]
fn file_finalization() {
    let tg = provider();
    let mut st = St::new();
    ingest_photo(&tg, &mut st);
    let update = TelegramUpdate::FileDownloadFinished(TelegramFile {
        remote_id: "R".to_string(),
        remote_file: "17".to_string(),
        local_path: "/tmp/abc.jpg".to_string(),
    });
    let step = tg.process_updates(&mut st, &update, 1700000200).unwrap();
    let (row, to) = match step {
        Step::MoveFile { from, dir, name, row } => {
            assert_eq!(from, "/tmp/abc.jpg");
            assert_eq!(dir, "/data");
            assert_eq!(name, "abc.jpg");
            let to = Path::new(&dir).join(&name).to_string_lossy().into_owned();
            assert_eq!(to, "/data/abc.jpg");
            (row, to)
        }
        other => panic!("unexpected step {:?}", other),
    };
    assert_eq!(st.files()[0].local_path, None);
    assert_eq!(tg.file_moved(&mut st, &row, Ok(to)), Ok(1));
    let files = st.files();
    assert_eq!(files.len(), 1);
    assert_eq!(files[0].local_path, Some("/data/abc.jpg".to_string()));
    assert_eq!(files[0].file_name, Some("abc.jpg".to_string()));
    assert_eq!(files[0].remote_id, Some("R".to_string()));
}

#[test]
fn file_name_is_kept_where_the_row_has_one() {
    let tg = provider();
    let mut st = St::new();
    let file = TelegramFileWithMeta {
        path: FilePath {
            local_path: None,
            remote_file: "3".to_string(),
            remote_id: "D".to_string(),
        },
        file_type: FileType::Document,
        file_name: Some("report.pdf".to_string()),
    };
    assert_eq!(tg.handle_new_files(&mut st, &vec![file], 1).unwrap(), vec!["3".to_string()]);
    let done = TelegramFile {
        remote_id: "D".to_string(),
        remote_file: "3".to_string(),
        local_path: "/tmp/x1.bin".to_string(),
    };
    match tg.handle_file_downloaded(&st, &done).unwrap() {
        Step::MoveFile { dir, name, row, .. } => {
            assert_eq!(dir, "/data");
            assert_eq!(name, "x1.bin");
            assert_eq!(row.file_name, Some("report.pdf".to_string()));
            assert_eq!(row.local_path, None);
            assert_eq!(tg.file_moved(&mut st, &row, Ok("/data/x1.bin".to_string())), Ok(1));
            assert_eq!(st.files()[0].local_path, Some("/data/x1.bin".to_string()));
            assert_eq!(st.files()[0].file_name, Some("report.pdf".to_string()));
        }
        other => panic!("unexpected step {:?}", other),
    }
}

#[test]
fn failed_move_leaves_the_row() {
    let tg = provider();
    let mut st = St::new();
    ingest_photo(&tg, &mut st);
    let row = st.get_file_by_remote_id("R").unwrap().unwrap();
    assert_eq!(
        tg.file_moved(&mut st, &row, Err("no space".to_string())),
        Err(Error::DbError("no space".to_string()))
    );
    assert_eq!(st.files()[0].local_path, None);
}

#[test]
fn download_of_an_unknown_file_is_dropped() {
    let tg = provider();
    let mut st = St::new();
    let update = TelegramUpdate::FileDownloadFinished(TelegramFile {
        remote_id: "nobody".to_string(),
        remote_file: "1".to_string(),
        local_path: "/tmp/a".to_string(),
    });
    assert_eq!(tg.process_updates(&mut st, &update, 1).unwrap(), Step::Done(1));
    assert!(st.files().is_empty());
}

#[test]
fn known_message_is_not_registered_again() {
    let tg = provider();
    let mut st = St::new();
    ingest_photo(&tg, &mut st);
    let step = tg.process_updates(&mut st, &photo_message(), 1700000300).unwrap();
    assert_eq!(step, Step::Done(0));
    assert_eq!(st.records().len(), 1);
    assert_eq!(st.files().len(), 1);
    assert_eq!(st.sources().len(), 1);
}

#[test]
fn message_of_a_known_chat_needs_no_channel() {
    let tg = provider();
    let mut st = St::new();
    st.save_sources(&vec![NewSource {
        name: "Chat".to_string(),
        origin: "100".to_string(),
        kind: "TELEGRAM".to_string(),
        image: None,
        external_link: "chat_100".to_string(),
    }])
    .unwrap();
    let update = TelegramUpdate::Message(TelegramMessage {
        chat_id: 100,
        message_id: 8,
        date: None,
        content: None,
        files: None,
    });
    let step = tg.process_updates(&mut st, &update, 555).unwrap();
    assert_eq!(
        step,
        Step::Register {
            chat_id: 100,
            message_id: 8,
            created: vec![("8".to_string(), 1)],
            downloads: vec![],
        }
    );
    assert_eq!(st.records()[0].content, "");
    assert_eq!(st.records()[0].date, 555);
}

#[test]
fn chat_without_channel_is_no_source() {
    let tg = provider();
    let mut st = St::new();
    let update = photo_message();
    assert_eq!(
        tg.resume_with_channel(&mut st, &update, Ok(None), 1).unwrap_err(),
        Error::SourceNotFound
    );
    assert_eq!(
        tg.resume_with_channel(
            &mut st,
            &update,
            Err(Error::TgCollectorError("flood".to_string())),
            1
        )
        .unwrap_err(),
        Error::TgCollectorError("flood".to_string())
    );
    let download = TelegramUpdate::FileDownloadFinished(TelegramFile {
        remote_id: "R".to_string(),
        remote_file: "17".to_string(),
        local_path: "/tmp/abc.jpg".to_string(),
    });
    assert_eq!(
        tg.create_source(&mut st, &download, Ok(Some(channel_100()))).unwrap_err(),
        Error::UpdateNotSupported("FileDownloadFinished".to_string())
    );
    assert!(st.sources().is_empty());
}

#[test]
fn link_is_set_for_one_created_record_only() {
    let tg = provider();
    let mut st = St::new();
    ingest_photo(&tg, &mut st);
    assert_eq!(tg.handle_record_inserted(&mut st, &vec![], Ok("l".to_string())), Ok(0));
    assert_eq!(
        tg.handle_record_inserted(
            &mut st,
            &vec![("7".to_string(), 1), ("8".to_string(), 1)],
            Ok("l".to_string())
        ),
        Err(Error::SourceCreationError)
    );
    assert_eq!(
        tg.handle_record_inserted(
            &mut st,
            &vec![("7".to_string(), 1)],
            Err(Error::TgCollectorError("no link".to_string()))
        ),
        Err(Error::TgCollectorError("no link".to_string()))
    );
    assert_eq!(st.records()[0].external_link, "");
}

#[test]
fn known_files_are_not_downloaded_again() {
    let tg = provider();
    let mut st = St::new();
    ingest_photo(&tg, &mut st);
    let known = TelegramFileWithMeta {
        path: FilePath {
            local_path: None,
            remote_file: "17".to_string(),
            remote_id: "R".to_string(),
        },
        file_type: FileType::Document,
        file_name: None,
    };
    let fresh = TelegramFileWithMeta {
        path: FilePath {
            local_path: None,
            remote_file: "18".to_string(),
            remote_id: "Q".to_string(),
        },
        file_type: FileType::Document,
        file_name: None,
    };
    let downloads = tg.handle_new_files(&mut st, &vec![known, fresh], 1).unwrap();
    assert_eq!(downloads, vec!["18".to_string()]);
    assert_eq!(st.files().len(), 2);
}

#[test]
fn meta_is_written_as_json() {
    assert_eq!(
        meta_json(&FileType::Image(ImageMeta { width: 320, height: -240 })),
        Some("{\"width\":320,\"height\":-240}".to_string())
    );
    assert_eq!(
        meta_json(&FileType::Animation(AnimationMeta {
            duration: 5,
            width: 1,
            height: 2,
            mime_type: "video/\"mp4\"\n".to_string(),
        })),
        Some(
            "{\"duration\":5,\"width\":1,\"height\":2,\"mime_type\":\"video/\\\"mp4\\\"\\n\"}"
                .to_string()
        )
    );
    assert_eq!(meta_json(&FileType::Document), None);
    assert_eq!(frame_image(Some("1".to_string()), None), None);
    assert_eq!(
        frame_image(Some("1".to_string()), Some("2".to_string())),
        Some("{\"width\":1,\"height\":2}".to_string())
    );
    assert_eq!(
        frame_animation(
            Some("1".to_string()),
            Some("2".to_string()),
            Some("3".to_string()),
            None
        ),
        None
    );
}

#[test]
fn rows_of_files_carry_kind_type_and_meta() {
    let files = vec![TelegramFileWithMeta {
        path: FilePath {
            local_path: Some("/tmp/here".to_string()),
            remote_file: "3".to_string(),
            remote_id: "D".to_string(),
        },
        file_type: FileType::Animation(AnimationMeta {
            duration: 1,
            width: 2,
            height: 3,
            mime_type: "video/mp4".to_string(),
        }),
        file_name: Some("a.mp4".to_string()),
    }];
    let rows = new_files(&files, 9);
    assert_eq!(rows.len(), 1);
    assert_eq!(rows[0].record_id, 9);
    assert_eq!(rows[0].kind, "TELEGRAM");
    assert_eq!(rows[0].type_, "ANIMATION");
    assert_eq!(rows[0].local_path, Some("/tmp/here".to_string()));
    assert_eq!(rows[0].remote_path, "3");
    assert_eq!(rows[0].remote_id, Some("D".to_string()));
    assert_eq!(rows[0].file_name, Some("a.mp4".to_string()));
    assert_eq!(
        rows[0].meta,
        Some("{\"duration\":1,\"width\":2,\"height\":3,\"mime_type\":\"video/mp4\"}".to_string())
    );
}

#[test]
fn found_channels_are_saved_as_sources() {
    let tg = provider();
    let mut st = St::new();
    let other = Channel { chat_id: -5, title: "Other".to_string(), username: "".to_string() };
    let saved = tg.search_source(&mut st, Ok(vec![channel_100(), other])).unwrap();
    assert_eq!(saved.len(), 2);
    assert_eq!(saved[0].origin, "100");
    assert_eq!(saved[1].origin, "-5");
    assert_eq!(st.sources().len(), 2);
    let failure = tg
        .search_source(&mut st, Err(Error::TgCollectorError("down".to_string())))
        .unwrap_err();
    assert_eq!(failure, Error::TgCollectorError("down".to_string()));
    assert_eq!(tg.get_source(), Source::Telegram);
}

#[test]
fn backfill_reaches_back_by_the_depth() {
    let tg = provider();
    assert_eq!(tg.history_until(1700003600, 3600), 1700000000);
    assert_eq!(tg.history_until(10, -5), 15);
    assert_eq!(tg.history_until(i64::MIN, 1), i64::MIN);
    assert_eq!(tg.history_until(i64::MAX, -1), i64::MAX);
}

fn text_message(id: i64, text: &str) -> Result<Message, Error> {
    Ok(Message {
        id,
        chat_id: 100,
        date: 1700000000 + id,
        content: MessageContent::MessageText(FormattedText {
            text: text.to_string(),
            entities: vec![],
        }),
    })
}

#[test]
fn history_of_a_channel_is_brought_in() {
    let tg = provider();
    let mut st = St::new();
    let history = vec![
        text_message(3, "three"),
        Ok(Message { id: 2, chat_id: 100, date: 1700000002, content: photo_content() }),
        Ok(Message { id: 1, chat_id: 100, date: 1700000001, content: MessageContent::MessagePoll }),
        Ok(Message {
            id: 0,
            chat_id: 100,
            date: 1700000000,
            content: MessageContent::MessagePinMessage,
        }),
    ];
    let downloads = tg.synchronize_channel(&mut st, channel_100(), &history, 1700009999).unwrap();
    assert_eq!(downloads, vec!["17".to_string()]);
    assert_eq!(st.sources().len(), 1);
    assert_eq!(st.sources()[0].origin, "100");
    let records = st.records();
    assert_eq!(records.len(), 2);
    assert_eq!(records[0].source_record_id, "3");
    assert_eq!(records[0].content, "three");
    assert_eq!(records[0].date, 1700000003);
    assert_eq!(records[1].source_record_id, "2");
    assert_eq!(records[1].content, "Hi");
    let files = st.files();
    assert_eq!(files.len(), 1);
    assert_eq!(files[0].record_id, records[1].id);
    let again = tg.synchronize_channel(&mut st, channel_100(), &history, 1700019999).unwrap();
    assert!(again.is_empty());
    assert_eq!(st.records().len(), 2);
    assert_eq!(st.files().len(), 1);
}

#[test]
fn history_with_a_failure_is_given_up() {
    let tg = provider();
    let mut st = St::new();
    let history = vec![
        text_message(3, "three"),
        Err(Error::TgCollectorError("first".to_string())),
        Err(Error::TgCollectorError("second".to_string())),
    ];
    let failure = tg.synchronize_channel(&mut st, channel_100(), &history, 1).unwrap_err();
    assert_eq!(failure, Error::TgCollectorError("first".to_string()));
    assert_eq!(st.sources().len(), 1);
    assert!(st.records().is_empty());
}

#[test]
fn one_download_for_files_that_share_a_new_remote_id() {
    let tg = provider();
    let mut st = St::new();
    let twin = |remote_file: &str| TelegramFileWithMeta {
        path: FilePath {
            local_path: None,
            remote_file: remote_file.to_string(),
            remote_id: "T".to_string(),
        },
        file_type: FileType::Document,
        file_name: None,
    };
    let downloads = tg.handle_new_files(&mut st, &vec![twin("21"), twin("22")], 1).unwrap();
    assert_eq!(downloads, vec!["21".to_string()]);
    assert_eq!(st.files().len(), 1);
}

#[test]
fn download_in_a_directory_path_is_named_by_the_directory() {
    let tg = provider();
    let mut st = St::new();
    ingest_photo(&tg, &mut st);
    let done = TelegramFile {
        remote_id: "R".to_string(),
        remote_file: "17".to_string(),
        local_path: "/tmp/abc/".to_string(),
    };
    match tg.handle_file_downloaded(&st, &done).unwrap() {
        Step::MoveFile { from, dir, name, row } => {
            assert_eq!(from, "/tmp/abc/");
            assert_eq!(dir, "/data");
            assert_eq!(name, "abc");
            assert_eq!(row.file_name, Some("abc".to_string()));
        }
        other => panic!("unexpected step {:?}", other),
    }
    let nameless = TelegramFile {
        remote_id: "R".to_string(),
        remote_file: "17".to_string(),
        local_path: "/tmp/..".to_string(),
    };
    assert_eq!(
        tg.handle_file_downloaded(&st, &nameless),
        Err(Error::DbError("the download has no file name".to_string()))
    );
}

#[test]
fn image_and_animation_always_have_their_meta() {
    assert!(meta_json(&FileType::Image(ImageMeta { width: i64::MIN, height: i64::MAX })).is_some());
    assert_eq!(
        meta_json(&FileType::Image(ImageMeta { width: i64::MIN, height: i64::MAX })),
        Some("{\"width\":-9223372036854775808,\"height\":9223372036854775807}".to_string())
    );
    assert!(meta_json(&FileType::Animation(AnimationMeta {
        duration: 0,
        width: 0,
        height: 0,
        mime_type: "".to_string(),
    }))
    .is_some());
}

#[test]
fn move_is_planned_from_the_final_component() {
    let tg = provider();
    let mut st = St::new();
    ingest_photo(&tg, &mut st);
    let row = st.get_file_by_remote_id("R").unwrap().unwrap();
    assert_eq!(
        plan_move(row.clone(), "/tmp/a.jpg", "/data", None),
        Err(Error::DbError("the download has no file name".to_string()))
    );
    match plan_move(row.clone(), "/tmp/a.jpg", "/data", Some("a.jpg".to_string())).unwrap() {
        Step::MoveFile { from, dir, name, row: planned } => {
            assert_eq!(from, "/tmp/a.jpg");
            assert_eq!(dir, "/data");
            assert_eq!(name, "a.jpg");
            assert_eq!(planned.file_name, Some("a.jpg".to_string()));
            assert_eq!(planned.local_path, None);
            assert_eq!(planned.id, row.id);
        }
        other => panic!("unexpected step {:?}", other),
    }
}
