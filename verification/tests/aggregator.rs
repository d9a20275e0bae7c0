use news_aggregator::aggregator::{Aggregator, AggregatorBuilder};
use news_aggregator::config::{
    AggregatorConfig, AggregatorConfigBuilder, HttpConfig, HttpConfigBuilder, TelegramConfig,
    TelegramConfigBuilder,
};
use news_aggregator::models::Source as SourceRow;
use news_aggregator::result::Error;
use news_aggregator::storage::{St, Storage};
use news_aggregator::updates::http::{FeedKind, FeedUpdate, HttpSource, Update};
use news_aggregator::updates::tg::{Step, TelegramFile, TelegramSource, TelegramUpdate};
use news_aggregator::updates::{Source, SourceData, SourcesAggregator};

fn web_only() -> Aggregator<St> {
    let config = AggregatorConfig::new(HttpConfig::new(true, 5, 30), TelegramConfig::default());
    AggregatorBuilder::new(&config, St::new()).build()
}

fn feed() -> FeedUpdate {
    FeedUpdate {
        link: "https://x.test/rss".to_string(),
        kind: FeedKind::Rss,
        name: "X".to_string(),
        image: None,
        updates: vec![Update {
            title: None,
            content: "hello".to_string(),
            pub_date: 1,
            guid: "g1".to_string(),
            image_link: None,
        }],
    }
}

fn row(id: i32, name: &str) -> SourceRow {
    SourceRow {
        id,
        name: name.to_string(),
        origin: name.to_string(),
        kind: "WEB".to_string(),
        image: None,
        last_scrape_time: 0,
        external_link: "".to_string(),
    }
}

#[test]
fn synchronize_selects_disabled_kind() {
    let aggregator = web_only();
    let failure = aggregator.synchronize(Some(Source::Telegram)).unwrap_err();
    assert_eq!(failure, Error::SourceKindConflict("Telegram".to_string()));
    assert!(aggregator.handler.storage.sources().is_empty());
    assert!(aggregator.handler.storage.records().is_empty());
    assert!(aggregator.handler.storage.files().is_empty());
}

#[test]
fn synchronize_selects_enabled_kinds() {
    let aggregator = web_only();
    assert_eq!(aggregator.synchronize(Some(Source::Web)), Ok(vec![Source::Web]));
    assert_eq!(aggregator.synchronize(None), Ok(vec![Source::Web]));
    let both = SourcesAggregator::builder()
        .with_storage(St::new())
        .with_http_source(HttpSource::builder().build())
        .with_tg_source(TelegramSource::builder(1, "h", "p", 1, "/data", 1).build())
        .build();
    assert_eq!(both.get_enabled_sources(), vec![Source::Web, Source::Telegram]);
    assert_eq!(both.synchronize(None), Ok(vec![Source::Web, Source::Telegram]));
    assert_eq!(both.synchronize(Some(Source::Telegram)), Ok(vec![Source::Telegram]));
    let none = SourcesAggregator::builder().with_storage(St::new()).build();
    assert_eq!(none.synchronize(None), Ok(vec![]));
    assert_eq!(
        none.synchronize(Some(Source::Web)),
        Err(Error::SourceKindConflict("Web".to_string()))
    );
}

#[test]
fn synchronisation_surfaces_the_first_failure() {
    let aggregator = web_only();
    assert_eq!(aggregator.handler.synchronized(vec![Ok(()), Ok(())]), Ok(()));
    assert_eq!(aggregator.handler.synchronized(vec![]), Ok(()));
    assert_eq!(
        aggregator.handler.synchronized(vec![
            Ok(()),
            Err(Error::TgCollectorError("a".to_string())),
            Err(Error::DbError("b".to_string())),
        ]),
        Err(Error::TgCollectorError("a".to_string()))
    );
}

#[test]
fn builder_enables_what_the_settings_enable() {
    let aggregator = web_only();
    assert_eq!(
        aggregator.handler.http_source,
        Some(HttpSource { sleep_secs: 5, scrape_source_secs_interval: 30 })
    );
    assert_eq!(aggregator.handler.tg_source, None);
    let config = AggregatorConfig::new(
        HttpConfig::default(),
        TelegramConfig::new(
            true,
            "db".to_string(),
            2,
            77,
            "hash".to_string(),
            "+1".to_string(),
            8,
            "/data".to_string(),
            15,
        ),
    );
    let aggregator = AggregatorBuilder::new(&config, St::new()).build();
    assert_eq!(aggregator.handler.http_source, None);
    let tg = aggregator.handler.tg_source.unwrap();
    assert_eq!(tg.files_directory, "/data");
    assert_eq!(tg.collector.api_id, 77);
    assert_eq!(tg.collector.api_hash, "hash");
    assert_eq!(tg.collector.phone_number, "+1");
    assert_eq!(tg.collector.database_directory, "db");
    assert_eq!(tg.collector.log_verbosity_level, 2);
    assert_eq!(tg.collector.max_download_queue_size, 8);
    assert_eq!(tg.collector.log_download_state_secs_interval, 15);
}

#[test]
fn defaults_of_the_settings() {
    let config = AggregatorConfig::default();
    assert!(!config.http().enabled());
    assert_eq!(config.http().sleep_secs(), 60);
    assert_eq!(config.http().scrape_source_secs_interval(), 60);
    assert!(!config.telegram().enabled());
    assert_eq!(config.telegram().database_directory(), "tdlib");
    assert_eq!(config.telegram().log_verbosity_level(), 0);
    assert_eq!(config.telegram().api_id(), 0);
    assert_eq!(config.telegram().api_hash(), "");
    assert_eq!(config.telegram().phone(), "");
    let copy = config.clone();
    assert_eq!(copy.http().sleep_secs(), 60);
}

#[test]
fn chat_builder_keeps_what_it_is_told() {
    let tg = TelegramSource::builder(5, "hash", "+7", 3, "/files", 20)
        .with_log_verbosity_level(4)
        .with_database_directory("state")
        .build();
    assert_eq!(tg.files_directory, "/files");
    assert_eq!(tg.collector.api_id, 5);
    assert_eq!(tg.collector.api_hash, "hash");
    assert_eq!(tg.collector.phone_number, "+7");
    assert_eq!(tg.collector.log_verbosity_level, 4);
    assert_eq!(tg.collector.database_directory, "state");
    assert_eq!(tg.collector.max_download_queue_size, 3);
    assert_eq!(tg.collector.log_download_state_secs_interval, 20);
    let plain = TelegramSource::builder(5, "hash", "+7", 3, "/files", 20).build();
    assert_eq!(plain.collector.log_verbosity_level, 0);
    assert_eq!(plain.collector.database_directory, "tdlib");
}

#[test]
fn updates_go_to_the_provider_of_their_kind() {
    let mut aggregator = web_only();
    let step = aggregator.process_updates(Ok(SourceData::WebFeed(feed())), 10).unwrap();
    assert_eq!(step, Step::Done(1));
    assert_eq!(aggregator.handler.storage.records().len(), 1);
    let download = TelegramUpdate::FileDownloadFinished(TelegramFile {
        local_path: "/tmp/a".to_string(),
        remote_file: "1".to_string(),
        remote_id: "R".to_string(),
    });
    let step = aggregator.process_updates(Ok(SourceData::Telegram(download)), 10).unwrap();
    assert_eq!(step, Step::Done(0));
    let failure = aggregator
        .process_updates(Err(Error::UpdateNotSupported("updateChatTitle".to_string())), 10)
        .unwrap_err();
    assert_eq!(failure, Error::UpdateNotSupported("updateChatTitle".to_string()));
    assert_eq!(aggregator.handler.storage.records().len(), 1);
}

#[test]
fn search_puts_provider_rows_before_stored_rows_each_id_once() {
    let mut aggregator = web_only();
    aggregator.process_updates(Ok(SourceData::WebFeed(feed())), 10).unwrap();
    let stored = aggregator.handler.storage.search_source("x.test").unwrap();
    assert_eq!(stored.len(), 1);
    let found = aggregator
        .search_source(
            "x.test",
            vec![Ok(vec![row(9, "nine"), row(1, "one"), row(9, "again")]), Ok(vec![row(4, "four")])],
        )
        .unwrap();
    let ids: Vec<i32> = found.iter().map(|s| s.id).collect();
    assert_eq!(ids, vec![9, 1, 4]);
    assert_eq!(found[0].name, "nine");
    assert_eq!(found[1].name, "one");
    let failure = aggregator
        .search_source(
            "x.test",
            vec![Ok(vec![row(9, "nine")]), Err(Error::TgCollectorError("down".to_string()))],
        )
        .unwrap_err();
    assert_eq!(failure, Error::TgCollectorError("down".to_string()));
    let alone = aggregator.search_source("x.test", vec![]).unwrap();
    assert_eq!(alone.len(), 1);
    assert_eq!(alone[0].origin, "https://x.test/rss");
}

#[test]
fn builders_of_the_settings() {
    let http = HttpConfigBuilder::default().enabled(true).sleep_secs(5).build().unwrap();
    assert!(http.enabled());
    assert_eq!(http.sleep_secs(), 5);
    assert_eq!(http.scrape_source_secs_interval(), 60);
    let plain = HttpConfigBuilder::default().build().unwrap();
    assert!(!plain.enabled());
    assert_eq!(plain.sleep_secs(), 60);
    let missing = TelegramConfigBuilder::default().enabled(true).build().unwrap_err();
    assert_eq!(missing, "`database_directory` must be initialized");
    let nothing = TelegramConfigBuilder::default().build().unwrap_err();
    assert_eq!(nothing, "`enabled` must be initialized");
    let telegram = TelegramConfigBuilder::default()
        .enabled(true)
        .database_directory("db".to_string())
        .log_verbosity_level(1)
        .api_id(7)
        .api_hash("hash".to_string())
        .phone("+1".to_string())
        .max_download_queue_size(2)
        .files_directory("/data".to_string())
        .log_download_state_secs_interval(9)
        .build()
        .unwrap();
    assert!(telegram.enabled());
    assert_eq!(telegram.database_directory(), "db");
    assert_eq!(telegram.api_id(), 7);
    assert_eq!(telegram.files_directory(), "/data");
    assert_eq!(telegram.max_download_queue_size(), 2);
    assert_eq!(telegram.log_download_state_secs_interval(), 9);
    let config = AggregatorConfigBuilder::default().http(http).build().unwrap();
    assert!(config.http().enabled());
    assert!(!config.telegram().enabled());
    let config = AggregatorConfigBuilder::default().telegram(telegram).build().unwrap();
    assert!(!config.http().enabled());
    assert!(config.telegram().enabled());
    assert_eq!(config.telegram().phone(), "+1");
}
