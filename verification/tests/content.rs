use news_aggregator::result::Error;
use news_aggregator::updates::tg::handler::handle_update;
use news_aggregator::updates::SourceData;
use news_aggregator::updates::tg::content::{
    Animation, Channel, Document, FormattedText, Message, MessageContent, PhotoSize, Poll,
    PollOption, RemoteFile, Sticker, TextEntity, TextEntityType, TgUpdate,
};
use news_aggregator::updates::tg::parsers::{
    channel_to_new_source, parse_message_content, parse_update,
};
use news_aggregator::updates::tg::{
    AnimationMeta, FilePath, FileType, ImageMeta, PollMeta, PollOptionMeta, TelegramFile,
    TelegramMessage, TelegramUpdate,
};

fn plain(text: &str) -> FormattedText {
    FormattedText { text: text.to_string(), entities: vec![] }
}

fn remote(id: i64, local_path: &str, unique_id: &str) -> RemoteFile {
    RemoteFile { id, local_path: local_path.to_string(), unique_id: unique_id.to_string() }
}

#[test]
fn text_message_has_text_and_no_files() {
    let content = MessageContent::MessageText(FormattedText {
        text: "AB".to_string(),
        entities: vec![TextEntity { offset: 0, length: 1, type_: TextEntityType::Bold }],
    });
    let (text, files) = parse_message_content(&content).unwrap();
    assert_eq!(text, Some("<b>A</b>B".to_string()));
    assert!(files.is_none());
}

#[test]
fn photo_message_has_one_file_for_each_size() {
    let content = MessageContent::MessagePhoto {
        sizes: vec![
            PhotoSize { width: 320, height: 240, photo: remote(11, "", "R1") },
            PhotoSize { width: 640, height: 480, photo: remote(12, "/tmp/p.jpg", "R2") },
        ],
        caption: plain("Hi"),
    };
    let (text, files) = parse_message_content(&content).unwrap();
    assert_eq!(text, Some("Hi".to_string()));
    let files = files.unwrap();
    assert_eq!(files.len(), 2);
    assert_eq!(files[0].file_type, FileType::Image(ImageMeta { width: 320, height: 240 }));
    assert_eq!(
        files[0].path,
        FilePath { local_path: None, remote_file: "11".to_string(), remote_id: "R1".to_string() }
    );
    assert_eq!(files[0].file_name, None);
    assert_eq!(files[1].file_type, FileType::Image(ImageMeta { width: 640, height: 480 }));
    assert_eq!(
        files[1].path,
        FilePath {
            local_path: Some("/tmp/p.jpg".to_string()),
            remote_file: "12".to_string(),
            remote_id: "R2".to_string()
        }
    );
}

#[test]
fn animation_message_has_its_file_with_meta() {
    let content = MessageContent::MessageAnimation {
        animation: Animation {
            duration: 3,
            width: 10,
            height: 20,
            file_name: "a.gif".to_string(),
            mime_type: "image/gif".to_string(),
            animation: remote(5, "", "A5"),
        },
        caption: plain("look"),
    };
    let (text, files) = parse_message_content(&content).unwrap();
    assert_eq!(text, Some("look".to_string()));
    let files = files.unwrap();
    assert_eq!(files.len(), 1);
    assert_eq!(
        files[0].file_type,
        FileType::Animation(AnimationMeta {
            duration: 3,
            width: 10,
            height: 20,
            mime_type: "image/gif".to_string()
        })
    );
    assert_eq!(files[0].file_name, Some("a.gif".to_string()));
    assert_eq!(files[0].path.remote_file, "5");
    assert_eq!(files[0].path.remote_id, "A5");
}

#[test]
fn document_message_has_its_file() {
    let content = MessageContent::MessageDocument {
        document: Document { file_name: "d.pdf".to_string(), document: remote(-7, "", "D7") },
        caption: plain(""),
    };
    let (text, files) = parse_message_content(&content).unwrap();
    assert_eq!(text, Some("".to_string()));
    let files = files.unwrap();
    assert_eq!(files.len(), 1);
    assert_eq!(files[0].file_type, FileType::Document);
    assert_eq!(files[0].file_name, Some("d.pdf".to_string()));
    assert_eq!(files[0].path.remote_file, "-7");
}

#[test]
fn sticker_message_has_a_file_and_no_text() {
    let content = MessageContent::MessageSticker(Sticker {
        width: 512,
        height: 512,
        sticker: remote(9, "", "S9"),
    });
    let (text, files) = parse_message_content(&content).unwrap();
    assert_eq!(text, None);
    let files = files.unwrap();
    assert_eq!(files.len(), 1);
    assert_eq!(files[0].file_type, FileType::Image(ImageMeta { width: 512, height: 512 }));
    assert_eq!(files[0].file_name, None);
}

#[test]
fn audio_and_video_have_their_caption_only() {
    let audio = MessageContent::MessageAudio { caption: plain("song") };
    assert_eq!(parse_message_content(&audio).unwrap(), (Some("song".to_string()), None));
    let video = MessageContent::MessageVideo { caption: plain("clip") };
    assert_eq!(parse_message_content(&video).unwrap(), (Some("clip".to_string()), None));
}

#[test]
fn structural_events_are_refused_by_name() {
    let cases = vec![
        (MessageContent::MessageChatChangePhoto, "messageChatChangePhoto"),
        (MessageContent::MessagePoll, "messagePoll"),
        (MessageContent::MessageChatChangeTitle, "messageChatChangeTitle"),
        (MessageContent::MessageChatDeletePhoto, "messageChatDeletePhoto"),
        (MessageContent::MessageChatJoinByLink, "messageChatJoinByLink"),
        (MessageContent::MessageChatUpgradeFrom, "messageChatUpgradeFrom"),
        (MessageContent::MessageChatUpgradeTo, "messageChatUpgradeTo"),
        (MessageContent::MessageContact, "messageContact"),
        (MessageContent::MessageContactRegistered, "messageContactRegistered"),
        (MessageContent::MessageCustomServiceAction, "messageCustomServiceAction"),
        (MessageContent::MessageExpiredPhoto, "messageExpiredPhoto"),
        (MessageContent::MessageExpiredVideo, "messageExpiredVideo"),
        (MessageContent::MessageInvoice, "messageInvoice"),
        (MessageContent::MessageLocation, "messageLocation"),
        (MessageContent::MessagePassportDataReceived, "messagePassportDataReceived"),
        (MessageContent::MessageScreenshotTaken, "messageScreenshotTaken"),
        (MessageContent::MessageSupergroupChatCreate, "messageSupergroupChatCreate"),
        (MessageContent::MessageVenue, "messageVenue"),
        (MessageContent::MessageVideoNote, "messageVideoNote"),
        (MessageContent::MessageVoiceNote, "messageVoiceNote"),
        (MessageContent::MessageWebsiteConnected, "messageWebsiteConnected"),
    ];
    for (content, name) in cases {
        let failure = parse_message_content(&content).unwrap_err();
        assert_eq!(failure, Error::UpdateNotSupported(name.to_string()));
        assert!(failure.is_skip());
    }
}

#[test]
fn system_events_are_passed_over() {
    let cases = vec![
        MessageContent::Other,
        MessageContent::MessageBasicGroupChatCreate,
        MessageContent::MessageCall,
        MessageContent::MessageChatAddMembers,
        MessageContent::MessageChatDeleteMember,
        MessageContent::MessageChatSetTtl,
        MessageContent::MessageGame,
        MessageContent::MessageGameScore,
        MessageContent::MessagePassportDataSent,
        MessageContent::MessagePaymentSuccessful,
        MessageContent::MessagePaymentSuccessfulBot,
        MessageContent::MessagePinMessage,
        MessageContent::MessageUnsupported,
    ];
    for content in cases {
        assert_eq!(parse_message_content(&content).unwrap(), (None, None));
    }
}

#[test]
fn finished_download_becomes_an_update() {
    let update = TgUpdate::FileDownloaded(remote(42, "/tmp/abc.jpg", "R"));
    let parsed = parse_update(&update).unwrap();
    assert_eq!(
        parsed,
        Some(TelegramUpdate::FileDownloadFinished(TelegramFile {
            local_path: "/tmp/abc.jpg".to_string(),
            remote_file: "42".to_string(),
            remote_id: "R".to_string(),
        }))
    );
}

#[test]
fn new_message_becomes_an_update_with_its_date() {
    let update = TgUpdate::NewMessage(Message {
        id: 7,
        chat_id: 100,
        date: 1700000000,
        content: MessageContent::MessageText(plain("Hi")),
    });
    let parsed = parse_update(&update).unwrap();
    assert_eq!(
        parsed,
        Some(TelegramUpdate::Message(TelegramMessage {
            message_id: 7,
            chat_id: 100,
            date: Some(1700000000),
            content: Some("Hi".to_string()),
            files: None,
        }))
    );
}

#[test]
fn replaced_content_becomes_an_update_without_date() {
    let update = TgUpdate::MessageContent {
        chat_id: 100,
        message_id: 8,
        new_content: MessageContent::MessageText(plain("edited")),
    };
    let parsed = parse_update(&update).unwrap();
    assert_eq!(
        parsed,
        Some(TelegramUpdate::Message(TelegramMessage {
            message_id: 8,
            chat_id: 100,
            date: None,
            content: Some("edited".to_string()),
            files: None,
        }))
    );
}

#[test]
fn message_without_text_and_files_becomes_no_update() {
    let update = TgUpdate::NewMessage(Message {
        id: 7,
        chat_id: 100,
        date: 1,
        content: MessageContent::MessagePinMessage,
    });
    assert_eq!(parse_update(&update).unwrap(), None);
}

#[test]
fn chat_changes_are_refused_by_name() {
    assert_eq!(
        parse_update(&TgUpdate::ChatPhoto).unwrap_err(),
        Error::UpdateNotSupported("updateChatPhoto".to_string())
    );
    assert_eq!(
        parse_update(&TgUpdate::ChatTitle).unwrap_err(),
        Error::UpdateNotSupported("updateChatTitle".to_string())
    );
    let poll = TgUpdate::NewMessage(Message {
        id: 1,
        chat_id: 2,
        date: 3,
        content: MessageContent::MessagePoll,
    });
    assert_eq!(
        parse_update(&poll).unwrap_err(),
        Error::UpdateNotSupported("messagePoll".to_string())
    );
}

#[test]
fn channel_becomes_a_source() {
    let source = channel_to_new_source(Channel {
        chat_id: -1001234,
        title: "News".to_string(),
        username: "news_channel".to_string(),
    });
    assert_eq!(source.name, "News");
    assert_eq!(source.origin, "-1001234");
    assert_eq!(source.kind, "TELEGRAM");
    assert_eq!(source.image, None);
    assert_eq!(source.external_link, "news_channel");
}

#[test]
fn metas_are_taken_from_what_the_network_describes() {
    let size = PhotoSize { width: 3, height: 4, photo: remote(1, "", "p") };
    assert_eq!(ImageMeta::from(&size), ImageMeta { width: 3, height: 4 });
    let sticker = Sticker { width: 5, height: 6, sticker: remote(1, "", "s") };
    assert_eq!(ImageMeta::from(&sticker), ImageMeta { width: 5, height: 6 });
    let poll = Poll {
        question: "q".to_string(),
        options: vec![
            PollOption { text: "a".to_string(), voter_count: 1, vote_percentage: 25 },
            PollOption { text: "b".to_string(), voter_count: 3, vote_percentage: 75 },
        ],
        total_voter_count: 4,
    };
    assert_eq!(
        PollMeta::from_poll(&poll),
        PollMeta {
            question: "q".to_string(),
            options: vec![
                PollOptionMeta { text: "a".to_string(), voter_count: 1, vote_percentage: 25 },
                PollOptionMeta { text: "b".to_string(), voter_count: 3, vote_percentage: 75 },
            ],
            total_voter_count: 4,
        }
    );
}

#[test]
fn file_path_reads_an_empty_local_path_as_none() {
    let here = FilePath::new(&remote(3, "/x/y", "u"));
    assert_eq!(here.local_path, Some("/x/y".to_string()));
    let away = FilePath::new(&remote(3, "", "u"));
    assert_eq!(away.local_path, None);
    assert_eq!(away.remote_file, "3");
    assert_eq!(away.remote_id, "u");
}

#[test]
fn updates_on_their_way_to_the_channel() {
    let message = TgUpdate::NewMessage(Message {
        id: 7,
        chat_id: 100,
        date: 5,
        content: MessageContent::MessageText(plain("Hi")),
    });
    match handle_update(&message) {
        Some(Ok(SourceData::Telegram(TelegramUpdate::Message(m)))) => {
            assert_eq!(m.content, Some("Hi".to_string()));
            assert_eq!(m.date, Some(5));
        }
        other => panic!("unexpected {:?}", other),
    }
    let pinned = TgUpdate::NewMessage(Message {
        id: 7,
        chat_id: 100,
        date: 5,
        content: MessageContent::MessagePinMessage,
    });
    assert_eq!(handle_update(&pinned), None);
    assert_eq!(
        handle_update(&TgUpdate::ChatTitle),
        Some(Err(Error::UpdateNotSupported("updateChatTitle".to_string())))
    );
}
