use news_aggregator::result::Error;
use news_aggregator::storage::{St, Storage};
use news_aggregator::updates::http::{
    crawl_result, normalize_query, DetectError, FeedKind, FeedUpdate, HttpSource,
    HttpSourceBuilder, Update,
};
use news_aggregator::updates::{Source, SourceData, SourceProvider, UpdatesHandler};

// 2024-01-01T00:00:00
const NEW_YEAR: i64 = 1704067200;

fn feed_x(content: &str) -> FeedUpdate {
    FeedUpdate {
        link: "https://x.test/rss".to_string(),
        kind: FeedKind::Rss,
        name: "X".to_string(),
        image: None,
        updates: vec![Update {
            title: Some("T".to_string()),
            content: content.to_string(),
            pub_date: NEW_YEAR,
            guid: "g1".to_string(),
            image_link: None,
        }],
    }
}

#[test]
fn feed_ingest_of_new_item() {
    let mut st = St::new();
    let http = HttpSource::builder().build();
    let n = http.process_updates(&mut st, &feed_x("hello"), 1705000000).unwrap();
    assert_eq!(n, 1);
    let sources = st.sources();
    assert_eq!(sources.len(), 1);
    assert_eq!(sources[0].origin, "https://x.test/rss");
    assert_eq!(sources[0].kind, "WEB");
    assert_eq!(sources[0].name, "X");
    assert_eq!(sources[0].last_scrape_time, 1705000000);
    let records = st.records();
    assert_eq!(records.len(), 1);
    assert_eq!(records[0].source_record_id, "g1");
    assert_eq!(records[0].source_id, sources[0].id);
    assert_eq!(records[0].content, "hello");
    assert_eq!(records[0].title, Some("T".to_string()));
    assert_eq!(records[0].external_link, "g1");
    assert_eq!(records[0].date, NEW_YEAR);
}

#[test]
fn feed_ingest_idempotent() {
    let mut st = St::new();
    let http = HttpSource::builder().build();
    http.process_updates(&mut st, &feed_x("hello"), 1705000000).unwrap();
    let source_id = st.sources()[0].id;
    let record_id = st.records()[0].id;
    st.set_record_external_link("g1", source_id, "https://kept").unwrap();
    let n = http.process_updates(&mut st, &feed_x("hello"), 1705000100).unwrap();
    assert_eq!(n, 0);
    assert_eq!(st.sources().len(), 1);
    assert_eq!(st.sources()[0].id, source_id);
    assert_eq!(st.records().len(), 1);
    assert_eq!(st.records()[0].id, record_id);
    assert_eq!(st.records()[0].content, "hello");
    assert_eq!(st.records()[0].external_link, "https://kept");
    let n = http.process_updates(&mut st, &feed_x("changed"), 1705000200).unwrap();
    assert_eq!(n, 0);
    assert_eq!(st.records()[0].id, record_id);
    assert_eq!(st.records()[0].content, "changed");
    assert_eq!(st.records()[0].title, Some("T".to_string()));
    assert_eq!(st.records()[0].external_link, "https://kept");
    assert_eq!(st.sources()[0].last_scrape_time, 1705000200);
}

#[test]
fn feed_source_is_upserted_by_create_source() {
    let mut st = St::new();
    let http = HttpSource::builder().build();
    let source = http.create_source(&mut st, &feed_x("hello")).unwrap();
    assert_eq!(source.origin, "https://x.test/rss");
    assert_eq!(source.external_link, "https://x.test/rss");
    assert_eq!(source.kind, "WEB");
    let again = http.create_source(&mut st, &feed_x("hello")).unwrap();
    assert_eq!(source.id, again.id);
}

#[test]
fn query_gets_a_scheme_where_it_has_none() {
    assert_eq!(normalize_query("x.test"), "https://x.test");
    assert_eq!(normalize_query("http://x.test"), "http://x.test");
    assert_eq!(normalize_query("https://x.test"), "https://x.test");
    assert_eq!(normalize_query(""), "https://");
    assert_eq!(normalize_query("ftp://x"), "https://ftp://x");
}

#[test]
fn detected_feeds_are_saved_and_ingested() {
    let mut st = St::new();
    let http = HttpSource::builder().build();
    let mut other = feed_x("second");
    other.link = "https://x.test/atom".to_string();
    other.kind = FeedKind::Atom;
    other.name = "X atom".to_string();
    let saved = http.search_source(&mut st, Ok(vec![feed_x("first"), other]), 50).unwrap();
    assert_eq!(saved.len(), 2);
    assert_eq!(saved[0].origin, "https://x.test/rss");
    assert_eq!(saved[1].origin, "https://x.test/atom");
    assert_eq!(st.sources().len(), 2);
    assert_eq!(st.records().len(), 2);
    assert_eq!(st.records()[0].source_id, saved[0].id);
    assert_eq!(st.records()[1].source_id, saved[1].id);
    assert_eq!(st.sources()[0].last_scrape_time, 50);
}

#[test]
fn failed_request_counts_as_no_feeds() {
    let mut st = St::new();
    let http = HttpSource::builder().build();
    let saved = http.search_source(&mut st, Err(DetectError::RequestError), 50).unwrap();
    assert!(saved.is_empty());
    assert!(st.sources().is_empty());
    let failure = http
        .search_source(&mut st, Err(DetectError::Other("broken page".to_string())), 50)
        .unwrap_err();
    assert_eq!(failure, Error::HttpCollectorError("broken page".to_string()));
}

#[test]
fn due_feeds_are_given_by_origin() {
    let mut st = St::new();
    let http = HttpSourceBuilder::new().with_scrape_source_secs_interval(60).build();
    http.process_updates(&mut st, &feed_x("hello"), 1000).unwrap();
    assert!(http.get_sources(&st, 1059).unwrap().is_empty());
    let due = http.get_sources(&st, 1060).unwrap();
    assert_eq!(due, vec![(None, "https://x.test/rss".to_string())]);
}

#[test]
fn builder_sets_what_it_is_told() {
    let http = HttpSourceBuilder::default().with_sleep_secs(5).build();
    assert_eq!(http.sleep_secs, 5);
    assert_eq!(http.scrape_source_secs_interval, 60);
    assert_eq!(http.get_source(), Source::Web);
    assert_eq!(http.synchronize(3600), Ok(()));
}

#[test]
fn crawl_results_go_on_the_channel() {
    assert_eq!(crawl_result(Ok(feed_x("a"))), Ok(SourceData::WebFeed(feed_x("a"))));
    assert_eq!(
        crawl_result(Err("timeout".to_string())),
        Err(Error::HttpCollectorError("timeout".to_string()))
    );
}
