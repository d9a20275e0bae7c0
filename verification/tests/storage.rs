use news_aggregator::models::{File, NewFile, NewRecord, NewSource, Source};
use news_aggregator::result::Error;
use news_aggregator::storage::{St, Storage};

fn new_source(name: &str, origin: &str, kind: &str) -> NewSource {
    NewSource {
        name: name.to_string(),
        origin: origin.to_string(),
        kind: kind.to_string(),
        image: None,
        external_link: origin.to_string(),
    }
}

fn new_record(sri: &str, source_id: i32, title: Option<&str>, content: &str) -> NewRecord {
    NewRecord {
        title: title.map(|t| t.to_string()),
        source_record_id: sri.to_string(),
        source_id,
        content: content.to_string(),
        date: Some(5),
        image: None,
    }
}

fn new_file(record_id: i32, remote_id: Option<&str>, local_path: Option<&str>) -> NewFile {
    NewFile {
        record_id,
        kind: "TELEGRAM".to_string(),
        local_path: local_path.map(|p| p.to_string()),
        remote_path: "17".to_string(),
        remote_id: remote_id.map(|r| r.to_string()),
        file_name: None,
        type_: "IMAGE".to_string(),
        meta: None,
    }
}

#[test]
fn new_store_is_empty() {
    let st = St::new();
    assert!(st.sources().is_empty());
    assert!(st.records().is_empty());
    assert!(st.files().is_empty());
}

#[test]
fn records_with_one_key_make_one_row() {
    let mut st = St::new();
    let first = st.save_records(&vec![new_record("g1", 1, Some("T1"), "one")], 100).unwrap();
    assert_eq!(first.len(), 1);
    let second = st.save_records(&vec![new_record("g1", 1, Some("T2"), "two")], 200).unwrap();
    assert!(second.is_empty());
    let third = st.save_records(&vec![new_record("g1", 1, None, "three")], 300).unwrap();
    assert!(third.is_empty());
    let rows = st.records();
    assert_eq!(rows.len(), 1);
    assert_eq!(rows[0].id, first[0].id);
    assert_eq!(rows[0].content, "three");
    assert_eq!(rows[0].title, Some("T1".to_string()));
    assert_eq!(rows[0].date, 5);
    assert_eq!(rows[0].external_link, "");
}

#[test]
fn records_with_different_keys_make_a_row_each() {
    let mut st = St::new();
    let inserted = st
        .save_records(
            &vec![
                new_record("g1", 1, None, "a"),
                new_record("g2", 1, None, "b"),
                new_record("g1", 2, None, "c"),
                new_record("g1", 1, None, "d"),
            ],
            100,
        )
        .unwrap();
    assert_eq!(inserted.len(), 3);
    let rows = st.records();
    assert_eq!(rows.len(), 3);
    assert_eq!(rows[0].content, "d");
    assert_eq!(rows[1].content, "b");
    assert_eq!(rows[2].content, "c");
    assert_eq!(inserted[0].content, "d");
    let ids: Vec<i32> = rows.iter().map(|r| r.id).collect();
    assert_eq!(ids, vec![1, 2, 3]);
}

#[test]
fn record_without_date_is_dated_by_the_store() {
    let mut st = St::new();
    let mut record = new_record("g", 1, None, "c");
    record.date = None;
    let inserted = st.save_records(&vec![record], 1234).unwrap();
    assert_eq!(inserted[0].date, 1234);
}

#[test]
fn source_upsert_keeps_the_id_and_takes_the_last_name() {
    let mut st = St::new();
    let first = st.save_sources(&vec![new_source("X", "https://x.test/rss", "WEB")]).unwrap();
    let other = st.save_sources(&vec![new_source("Y", "https://y.test/rss", "WEB")]).unwrap();
    let again = st.save_sources(&vec![new_source("X2", "https://x.test/rss", "WEB")]).unwrap();
    assert_eq!(first.len(), 1);
    assert_eq!(again.len(), 1);
    assert_eq!(first[0].id, again[0].id);
    assert_ne!(first[0].id, other[0].id);
    assert_eq!(again[0].name, "X2");
    let rows = st.sources();
    assert_eq!(rows.len(), 2);
    assert_eq!(rows[0].name, "X2");
    assert_eq!(rows[0].last_scrape_time, 0);
    assert_eq!(rows[1].name, "Y");
}

#[test]
fn one_origin_in_two_kinds_is_two_sources() {
    let mut st = St::new();
    let saved = st
        .save_sources(&vec![new_source("a", "100", "WEB"), new_source("b", "100", "TELEGRAM")])
        .unwrap();
    assert_eq!(saved.len(), 2);
    assert_ne!(saved[0].id, saved[1].id);
    assert_eq!(st.sources().len(), 2);
}

#[test]
fn file_upsert_never_doubles_a_remote_id() {
    let mut st = St::new();
    st.save_files(&vec![new_file(1, Some("R"), None)]).unwrap();
    st.save_files(&vec![new_file(1, Some("R"), Some("/tmp/r")), new_file(1, Some("Q"), None)])
        .unwrap();
    st.save_files(&vec![new_file(2, Some("R"), None)]).unwrap();
    let rows = st.files();
    assert_eq!(rows.len(), 2);
    assert_eq!(rows[0].remote_id, Some("R".to_string()));
    assert_eq!(rows[0].record_id, 1);
    assert_eq!(rows[0].local_path, None);
    assert_eq!(rows[1].remote_id, Some("Q".to_string()));
}

#[test]
fn files_without_remote_id_are_always_new() {
    let mut st = St::new();
    st.save_files(&vec![new_file(1, None, None), new_file(1, None, None)]).unwrap();
    assert_eq!(st.files().len(), 2);
}

#[test]
fn file_by_remote_id_is_found_or_not() {
    let mut st = St::new();
    st.save_files(&vec![new_file(1, Some("R"), None)]).unwrap();
    let found = st.get_file_by_remote_id("R").unwrap().unwrap();
    assert_eq!(found.remote_id, Some("R".to_string()));
    assert_eq!(found.id, 1);
    assert!(st.get_file_by_remote_id("Z").unwrap().is_none());
}

#[test]
fn saving_a_file_sets_path_and_name_of_its_row_only() {
    let mut st = St::new();
    st.save_files(&vec![new_file(1, Some("R"), None), new_file(1, Some("Q"), None)]).unwrap();
    let mut row: File = st.get_file_by_remote_id("R").unwrap().unwrap();
    row.local_path = Some("/data/abc.jpg".to_string());
    row.file_name = Some("abc.jpg".to_string());
    st.save_file(&row).unwrap();
    let once = st.files();
    st.save_file(&row).unwrap();
    let twice = st.files();
    assert_eq!(once, twice);
    assert_eq!(once[0].local_path, Some("/data/abc.jpg".to_string()));
    assert_eq!(once[0].file_name, Some("abc.jpg".to_string()));
    assert_eq!(once[1].local_path, None);
    assert_eq!(once[1].file_name, None);
}

#[test]
fn setting_the_link_twice_is_setting_it_once() {
    let mut st = St::new();
    st.save_records(&vec![new_record("g1", 1, None, "a"), new_record("g2", 1, None, "b")], 1)
        .unwrap();
    assert_eq!(st.set_record_external_link("g1", 1, "https://l"), Ok(1));
    let once = st.records();
    assert_eq!(st.set_record_external_link("g1", 1, "https://l"), Ok(1));
    let twice = st.records();
    assert_eq!(once, twice);
    assert_eq!(once[0].external_link, "https://l");
    assert_eq!(once[1].external_link, "");
    assert_eq!(st.set_record_external_link("none", 1, "x"), Ok(0));
    assert_eq!(st.set_record_external_link("g1", 2, "x"), Ok(0));
}

#[test]
fn search_matches_origin_link_and_name() {
    let mut st = St::new();
    st.save_sources(&vec![
        NewSource {
            name: "Alpha".to_string(),
            origin: "https://a.test/rss".to_string(),
            kind: "WEB".to_string(),
            image: None,
            external_link: "https://a.test".to_string(),
        },
        NewSource {
            name: "Beta news".to_string(),
            origin: "100".to_string(),
            kind: "TELEGRAM".to_string(),
            image: None,
            external_link: "beta_channel".to_string(),
        },
    ])
    .unwrap();
    let by_origin: Vec<Source> = st.search_source("a.test/rss").unwrap();
    assert_eq!(by_origin.len(), 1);
    assert_eq!(by_origin[0].name, "Alpha");
    let by_link = st.search_source("beta_ch").unwrap();
    assert_eq!(by_link.len(), 1);
    assert_eq!(by_link[0].name, "Beta news");
    let by_name = st.search_source("news").unwrap();
    assert_eq!(by_name.len(), 1);
    assert_eq!(st.search_source("").unwrap().len(), 2);
    assert!(st.search_source("nothing").unwrap().is_empty());
}

#[test]
fn sources_are_due_once_their_rest_is_over() {
    let mut st = St::new();
    let saved = st
        .save_sources(&vec![
            new_source("a", "https://a", "WEB"),
            new_source("b", "https://b", "WEB"),
            new_source("c", "7", "TELEGRAM"),
        ])
        .unwrap();
    st.set_source_scraped_now(&saved[0], 1000).unwrap();
    assert_eq!(st.sources()[0].last_scrape_time, 1000);
    assert_eq!(st.sources()[1].last_scrape_time, 0);
    let due = st.get_sources_by_kind_for_scrape("WEB", 60, 1059).unwrap();
    assert_eq!(due.len(), 1);
    assert_eq!(due[0].origin, "https://b");
    let due = st.get_sources_by_kind_for_scrape("WEB", 60, 1060).unwrap();
    assert_eq!(due.len(), 2);
    let of_kind = st.get_sources_by_kind("TELEGRAM").unwrap();
    assert_eq!(of_kind.len(), 1);
    assert_eq!(of_kind[0].origin, "7");
}

#[test]
fn errors_of_the_store_are_storage_errors() {
    let e = Error::DbError("x".to_string());
    assert!(!e.is_skip());
    assert_eq!(e.clone(), Error::DbError("x".to_string()));
}
