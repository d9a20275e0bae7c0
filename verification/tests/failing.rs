use news_aggregator::models::{File, NewFile, NewRecord, NewSource, Record, Source};
use news_aggregator::result::Error;
use news_aggregator::storage::{St, Storage, Store};
use news_aggregator::updates::http::{FeedKind, FeedUpdate, HttpSource, Update};
use news_aggregator::updates::tg::content::Channel;
use news_aggregator::updates::UpdatesHandler;
use news_aggregator::updates::tg::source_provider::keep_saved;
use news_aggregator::updates::tg::{
    FilePath, FileType, Step, TelegramFileWithMeta, TelegramMessage, TelegramSource,
    TelegramUpdate,
};

/// A store that refuses what it is told to refuse and is a store in memory
/// for the rest.
struct Flaky {
    inner: St,
    refuse_links: bool,
    refuse_files: bool,
    refuse_origin: Option<String>,
}

impl Flaky {
    fn new() -> Flaky {
        Flaky { inner: St::new(), refuse_links: false, refuse_files: false, refuse_origin: None }
    }
}

fn refused(what: &str) -> Error {
    Error::DbError(format!("{} refused", what))
}

impl Storage for Flaky {
    fn view(&self) -> Store {
        panic!("the tables are looked at through the store in memory")
    }

    fn save_file(&mut self, file: &File) -> Result<(), Error> {
        self.inner.save_file(file)
    }

    fn get_file_by_remote_id(&self, remote_id: &str) -> Result<Option<File>, Error> {
        if self.refuse_files {
            return Err(refused("lookup"));
        }
        self.inner.get_file_by_remote_id(remote_id)
    }

    fn save_files(&mut self, files: &Vec<NewFile>) -> Result<(), Error> {
        self.inner.save_files(files)
    }

    fn set_record_external_link(
        &mut self,
        source_record_id: &str,
        source_id: i32,
        external_link: &str,
    ) -> Result<usize, Error> {
        if self.refuse_links {
            return Err(refused("link"));
        }
        self.inner.set_record_external_link(source_record_id, source_id, external_link)
    }

    fn save_records(&mut self, records: &Vec<NewRecord>, now: i64) -> Result<Vec<Record>, Error> {
        self.inner.save_records(records, now)
    }

    fn set_source_scraped_now(&mut self, source: &Source, now: i64) -> Result<(), Error> {
        self.inner.set_source_scraped_now(source, now)
    }

    fn search_source(&self, query: &str) -> Result<Vec<Source>, Error> {
        self.inner.search_source(query)
    }

    fn get_sources_by_kind(&self, kind: &str) -> Result<Vec<Source>, Error> {
        self.inner.get_sources_by_kind(kind)
    }

    fn get_sources_by_kind_for_scrape(
        &self,
        kind: &str,
        check_secs_interval: i32,
        now: i64,
    ) -> Result<Vec<Source>, Error> {
        self.inner.get_sources_by_kind_for_scrape(kind, check_secs_interval, now)
    }

    fn save_sources(&mut self, sources: &Vec<NewSource>) -> Result<Vec<Source>, Error> {
        if let Some(origin) = &self.refuse_origin {
            if sources.iter().any(|s| &s.origin == origin) {
                return Err(refused("source"));
            }
        }
        self.inner.save_sources(sources)
    }
}

fn chat_provider() -> TelegramSource {
    TelegramSource::builder(1, "hash", "+100", 4, "/data", 30).build()
}

#[test]
fn feed_ingest_fails_where_the_store_fails() {
    let mut store = Flaky::new();
    store.refuse_links = true;
    let feed = FeedUpdate {
        link: "https://x.test/rss".to_string(),
        kind: FeedKind::Rss,
        name: "X".to_string(),
        image: None,
        updates: vec![Update {
            title: None,
            content: "hello".to_string(),
            pub_date: 1,
            guid: "g1".to_string(),
            image_link: None,
        }],
    };
    let failure = HttpSource::builder().build().process_updates(&mut store, &feed, 10);
    assert_eq!(failure, Err(Error::DbError("link refused".to_string())));
}

#[test]
fn channel_that_the_store_does_not_take_is_passed_over() {
    let mut store = Flaky::new();
    store.refuse_origin = Some("-5".to_string());
    let channels = vec![
        Channel { chat_id: -5, title: "Refused".to_string(), username: "".to_string() },
        Channel { chat_id: 100, title: "Taken".to_string(), username: "t".to_string() },
    ];
    let saved = chat_provider().search_source(&mut store, Ok(channels)).unwrap();
    assert_eq!(saved.len(), 1);
    assert_eq!(saved[0].origin, "100");
    assert_eq!(saved[0].name, "Taken");
    assert_eq!(store.inner.sources().len(), 1);
}

#[test]
fn refused_registration_does_not_fail_the_record() {
    let mut store = Flaky::new();
    store.refuse_files = true;
    let file = TelegramFileWithMeta {
        path: FilePath {
            local_path: None,
            remote_file: "3".to_string(),
            remote_id: "D".to_string(),
        },
        file_type: FileType::Document,
        file_name: None,
    };
    assert_eq!(
        chat_provider().handle_new_files(&mut store, &vec![file.clone()], 1),
        Err(Error::DbError("lookup refused".to_string()))
    );
    store.inner.save_sources(&vec![NewSource {
        name: "Chat".to_string(),
        origin: "100".to_string(),
        kind: "TELEGRAM".to_string(),
        image: None,
        external_link: "".to_string(),
    }])
    .unwrap();
    let update = TelegramUpdate::Message(TelegramMessage {
        chat_id: 100,
        message_id: 1,
        date: None,
        content: Some("with file".to_string()),
        files: Some(vec![file]),
    });
    assert_eq!(
        chat_provider().process_updates(&mut store, &update, 5),
        Ok(Step::Register {
            chat_id: 100,
            message_id: 1,
            created: vec![("1".to_string(), 1)],
            downloads: vec![],
        })
    );
    assert_eq!(store.inner.records().len(), 1);
    assert!(store.inner.files().is_empty());
}

#[test]
fn failed_crawl_of_a_known_feed_leaves_its_source_unmarked() {
    let mut store = Flaky::new();
    let feed = |content: &str| FeedUpdate {
        link: "https://x.test/rss".to_string(),
        kind: FeedKind::Rss,
        name: "X".to_string(),
        image: None,
        updates: vec![Update {
            title: None,
            content: "hello".to_string(),
            pub_date: 1,
            guid: content.to_string(),
            image_link: None,
        }],
    };
    let http = HttpSource::builder().build();
    assert_eq!(http.process_updates(&mut store, &feed("g1"), 10), Ok(1));
    assert_eq!(store.inner.sources()[0].last_scrape_time, 10);
    store.refuse_links = true;
    assert_eq!(
        http.process_updates(&mut store, &feed("g2"), 20),
        Err(Error::DbError("link refused".to_string()))
    );
    assert_eq!(store.inner.sources().len(), 1);
    assert_eq!(store.inner.sources()[0].last_scrape_time, 10);
    assert!(store.inner.files().is_empty());
}

#[test]
fn failed_crawl_of_a_new_feed_leaves_its_source_unscraped() {
    let mut store = Flaky::new();
    store.refuse_links = true;
    let feed = FeedUpdate {
        link: "https://y.test/rss".to_string(),
        kind: FeedKind::Atom,
        name: "Y".to_string(),
        image: None,
        updates: vec![Update {
            title: None,
            content: "hello".to_string(),
            pub_date: 1,
            guid: "g1".to_string(),
            image_link: None,
        }],
    };
    let http = HttpSource::builder().build();
    assert!(http.process_updates(&mut store, &feed, 77).is_err());
    let sources = store.inner.sources();
    assert_eq!(sources.len(), 1);
    assert_eq!(sources[0].last_scrape_time, 0);
}

#[test]
fn rows_of_taken_channels_are_kept() {
    let row = |id: i32| Source {
        id,
        name: "n".to_string(),
        origin: "o".to_string(),
        kind: "TELEGRAM".to_string(),
        image: None,
        last_scrape_time: 0,
        external_link: "".to_string(),
    };
    let mut rows = vec![row(1)];
    keep_saved(&mut rows, Err(Error::DbError("refused".to_string())));
    assert_eq!(rows.len(), 1);
    keep_saved(&mut rows, Ok(row(2)));
    assert_eq!(rows.len(), 2);
    assert_eq!(rows[1].id, 2);
}
