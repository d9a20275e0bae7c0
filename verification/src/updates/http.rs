//! The feed provider: what a crawl of a feed brings, and how it reaches the
//! store.

use crate::models::Source as SourceRow;
use crate::models::{NewRecord, NewRecordView, NewSource, NewSourceView, RecordView, SourceView};
use crate::result::Error;
use crate::storage::interface::Storage;
use crate::storage::model::{
    first_source, lemma_upsert_sources_keep_times, link_records, mark_scraped, scrape_times_kept,
    search_sources, sources_due, upsert_records, upsert_sources, views, Store,
};
use crate::tools::{clone_opt, has_prefix, opt_text, starts_with};
use crate::updates::{Source, SourceData, SourceProvider, UpdatesHandler};
use vstd::prelude::*;

verus! {

/// The kind of the sources that are feeds.
pub const WEB: &'static str = "WEB";

/// The dialect of a feed.
#[derive(Debug, Clone, Copy, PartialEq, Eq, Structural)]
pub enum FeedKind {
    Rss,
    Atom,
    /// A dialect this library has no name for.
    Other,
}

/// One item of a feed.
#[derive(Debug, PartialEq, Eq)]
pub struct Update {
    pub title: Option<String>,
    pub content: String,
    /// Seconds since the epoch.
    pub pub_date: i64,
    pub guid: String,
    pub image_link: Option<String>,
}

pub struct UpdateView {
    pub title: Option<Seq<char>>,
    pub content: Seq<char>,
    pub pub_date: int,
    pub guid: Seq<char>,
    pub image_link: Option<Seq<char>>,
}

impl View for Update {
    type V = UpdateView;

    open spec fn view(&self) -> UpdateView {
        UpdateView {
            title: opt_text(self.title),
            content: self.content@,
            pub_date: self.pub_date as int,
            guid: self.guid@,
            image_link: opt_text(self.image_link),
        }
    }
}

impl Clone for Update {
    fn clone(&self) -> (r: Update)
        ensures
            r == *self,
    {
        Update {
            title: clone_opt(&self.title),
            content: self.content.clone(),
            pub_date: self.pub_date,
            guid: self.guid.clone(),
            image_link: clone_opt(&self.image_link),
        }
    }
}

/// What one crawl of a feed brought.
#[derive(Debug, Clone, PartialEq, Eq)]
pub struct FeedUpdate {
    pub link: String,
    pub kind: FeedKind,
    pub name: String,
    pub image: Option<String>,
    pub updates: Vec<Update>,
}

pub struct FeedUpdateView {
    pub link: Seq<char>,
    pub kind: FeedKind,
    pub name: Seq<char>,
    pub image: Option<Seq<char>>,
    pub updates: Seq<UpdateView>,
}

impl View for FeedUpdate {
    type V = FeedUpdateView;

    open spec fn view(&self) -> FeedUpdateView {
        FeedUpdateView {
            link: self.link@,
            kind: self.kind,
            name: self.name@,
            image: opt_text(self.image),
            updates: views(self.updates@),
        }
    }
}

/// Collects what an [`HttpSource`] is made of.
pub struct HttpSourceBuilder {
    sleep_secs: u64,
    scrape_source_secs_interval: i32,
}

impl HttpSourceBuilder {
    /// A builder for a provider that sweeps once a minute and lets a feed
    /// rest for a minute.
    pub fn new() -> (b: HttpSourceBuilder)
        ensures
            b.spec_sleep_secs() == 60,
            b.spec_scrape_source_secs_interval() == 60,
    {
        HttpSourceBuilder { sleep_secs: 60, scrape_source_secs_interval: 60 }
    }

    pub closed spec fn spec_sleep_secs(&self) -> u64 {
        self.sleep_secs
    }

    pub closed spec fn spec_scrape_source_secs_interval(&self) -> i32 {
        self.scrape_source_secs_interval
    }

    pub fn with_sleep_secs(self, sleep_secs: u64) -> (b: HttpSourceBuilder)
        ensures
            b.spec_sleep_secs() == sleep_secs,
            b.spec_scrape_source_secs_interval() == self.spec_scrape_source_secs_interval(),
    {
        let mut b = self;
        b.sleep_secs = sleep_secs;
        b
    }

    pub fn with_scrape_source_secs_interval(self, scrape_source_secs_interval: i32) -> (b:
        HttpSourceBuilder)
        ensures
            b.spec_sleep_secs() == self.spec_sleep_secs(),
            b.spec_scrape_source_secs_interval() == scrape_source_secs_interval,
    {
        let mut b = self;
        b.scrape_source_secs_interval = scrape_source_secs_interval;
        b
    }

    pub fn build(self) -> (source: HttpSource)
        ensures
            source.sleep_secs == self.spec_sleep_secs(),
            source.scrape_source_secs_interval == self.spec_scrape_source_secs_interval(),
    {
        HttpSource {
            sleep_secs: self.sleep_secs,
            scrape_source_secs_interval: self.scrape_source_secs_interval,
        }
    }
}

impl Default for HttpSourceBuilder {
    fn default() -> (b: HttpSourceBuilder)
        ensures
            b.spec_sleep_secs() == 60,
            b.spec_scrape_source_secs_interval() == 60,
    {
        HttpSourceBuilder::new()
    }
}

/// The feed provider.
#[derive(Debug, Clone, Copy, PartialEq, Eq)]
pub struct HttpSource {
    /// The pause between two sweeps over the feeds that are due.
    pub sleep_secs: u64,
    /// How long a feed rests once it has been scraped.
    pub scrape_source_secs_interval: i32,
}

/// Why no feeds were detected.
#[derive(Debug, Clone, PartialEq, Eq)]
pub enum DetectError {
    /// The request for the page failed.
    RequestError,
    /// Anything else, in the collector's words.
    Other(String),
}

/// The source that stands for a feed: its link as origin and as link.
pub open spec fn feed_source(update: FeedUpdateView) -> NewSourceView {
    NewSourceView {
        name: update.name,
        origin: update.link,
        kind: WEB@,
        image: update.image,
        external_link: update.link,
    }
}

/// The record that stands for an item of a feed of the source `source_id`.
pub open spec fn feed_record(item: UpdateView, source_id: int) -> NewRecordView {
    NewRecordView {
        title: item.title,
        source_record_id: item.guid,
        source_id,
        content: item.content,
        date: Some(item.pub_date),
        image: item.image_link,
    }
}

/// The records that stand for the items of a feed, in their order.
pub open spec fn feed_records(update: FeedUpdateView, source_id: int) -> Seq<NewRecordView> {
    Seq::new(update.updates.len(), |i: int| feed_record(update.updates[i], source_id))
}

/// The records once each of `inserted` has its own source record id as its
/// link.
pub open spec fn link_each(rows: Seq<RecordView>, inserted: Seq<RecordView>) -> Seq<RecordView>
    decreases inserted.len(),
{
    if inserted.len() == 0 {
        rows
    } else {
        link_records(
            link_each(rows, inserted.drop_last()),
            inserted.last().source_record_id,
            inserted.last().source_id,
            inserted.last().source_record_id,
        )
    }
}

/// The source of a feed: the first source that a search for the feed's
/// link finds or, where it finds none, the feed's own source, upserted.
pub open spec fn feed_source_resolved(
    before: Seq<SourceView>,
    after: Seq<SourceView>,
    update: FeedUpdateView,
    source: SourceView,
) -> bool {
    let found = search_sources(before, update.link);
    if found.len() > 0 {
        after == before && source == found[0]
    } else {
        &&& exists|ids: Seq<int>|
            ids.len() == 1 && after == #[trigger] upsert_sources(
                before,
                seq![feed_source(update)],
                ids,
            )
        &&& Some(source) == first_source(after, update.link, WEB@)
    }
}

/// What the ingest of one crawl of a feed makes of the store: the feed's
/// source is resolved; its items are upserted as records of that source;
/// each record that is new gets its own source record id as its link; the
/// source is marked as scraped at `now`. `inserted` is the number of new
/// records.
pub open spec fn feed_ingested(
    before: Store,
    after: Store,
    update: FeedUpdateView,
    now: int,
    inserted: int,
) -> bool {
    exists|sources: Seq<SourceView>, source: SourceView, ids: Seq<int>|
        #![trigger
            feed_source_resolved(before.sources, sources, update, source),
            upsert_records(before.records, feed_records(update, source.id), now, ids)]
        {
            let records = upsert_records(
                before.records,
                feed_records(update, source.id),
                now,
                ids,
            );
            &&& feed_source_resolved(before.sources, sources, update, source)
            &&& ids.len() == update.updates.len()
            &&& records.len() >= before.records.len()
            &&& inserted == records.len() - before.records.len()
            &&& after.sources == mark_scraped(sources, source.id, now)
            &&& after.records == link_each(
                records,
                records.subrange(before.records.len() as int, records.len() as int),
            )
            &&& after.files == before.files
        }
}

impl HttpSource {
    pub fn builder() -> (b: HttpSourceBuilder)
        ensures
            b.spec_sleep_secs() == 60,
            b.spec_scrape_source_secs_interval() == 60,
    {
        HttpSourceBuilder::new()
    }

    /// A feed has no history beyond what it holds now: nothing is done.
    pub fn synchronize(&self, _secs_depth: i32) -> (r: Result<(), Error>)
        ensures
            r is Ok,
    {
        Ok(())
    }

    /// Upserts the source that stands for a feed.
    pub fn create_source<S: Storage>(&self, storage: &mut S, updates: &FeedUpdate) -> (r: Result<
        SourceRow,
        Error,
    >)
        ensures
            match r {
                Ok(source) => {
                    &&& exists|ids: Seq<int>|
                        ids.len() == 1 && final(storage)@.sources == #[trigger] upsert_sources(
                            old(storage)@.sources,
                            seq![feed_source(updates@)],
                            ids,
                        )
                    &&& Some(source@) == first_source(final(storage)@.sources, updates.link@, WEB@)
                    &&& final(storage)@.records == old(storage)@.records
                    &&& final(storage)@.files == old(storage)@.files
                },
                Err(e) => e is DbError && final(storage)@.records == old(storage)@.records
                    && final(storage)@.files == old(storage)@.files && scrape_times_kept(
                    old(storage)@.sources,
                    final(storage)@.sources,
                ),
            },
    {
        let new_source = NewSource {
            name: updates.name.clone(),
            origin: updates.link.clone(),
            external_link: updates.link.clone(),
            kind: WEB.to_owned(),
            image: clone_opt(&updates.image),
        };
        let batch = vec![new_source];
        assert(views(batch@) =~= seq![feed_source(updates@)]);
        match storage.save_sources(&batch) {
            Ok(saved) => Ok(saved[0].clone()),
            Err(e) => Err(e),
        }
    }
}

impl SourceProvider for HttpSource {
    open spec fn kind(&self) -> Source {
        Source::Web
    }

    fn get_source(&self) -> (kind: Source) {
        Source::Web
    }
}

impl UpdatesHandler<FeedUpdate> for HttpSource {
    type Outcome = usize;

    /// One crawl of a feed is ingested as [`feed_ingested`] says; the
    /// outcome is the number of new records.
    open spec fn taken(
        &self,
        before: Store,
        after: Store,
        updates: FeedUpdate,
        now: int,
        outcome: usize,
    ) -> bool {
        feed_ingested(before, after, updates@, now, outcome as int)
    }

    /// A crawl that fails has written no file and has touched no scrape
    /// time: no source is marked as scraped, and a source that has come to
    /// be was never scraped. Where the source of the feed was known, the
    /// sources are as they were.
    fn process_updates<S: Storage>(&self, storage: &mut S, updates: &FeedUpdate, now: i64) -> (r:
        Result<usize, Error>)
        ensures
            r is Err ==> final(storage)@.files == old(storage)@.files && scrape_times_kept(
                old(storage)@.sources,
                final(storage)@.sources,
            ) && (search_sources(old(storage)@.sources, updates.link@).len() > 0
                ==> final(storage)@.sources == old(storage)@.sources),
    {
        let ghost before = storage@;
        let found = match storage.search_source(updates.link.as_str()) {
            Ok(found) => found,
            Err(e) => {
                return Err(e);
            },
        };
        let source = if found.len() == 0 {
            match self.create_source(storage, updates) {
                Ok(source) => source,
                Err(e) => {
                    return Err(e);
                },
            }
        } else {
            found[0].clone()
        };
        let ghost sources = storage@.sources;
        assert(feed_source_resolved(before.sources, sources, updates@, source@));
        proof {
            if search_sources(before.sources, updates.link@).len() == 0 {
                let ids = choose|ids: Seq<int>|
                    ids.len() == 1 && sources == #[trigger] upsert_sources(
                        before.sources,
                        seq![feed_source(updates@)],
                        ids,
                    );
                lemma_upsert_sources_keep_times(before.sources, seq![feed_source(updates@)], ids);
            }
            assert(scrape_times_kept(before.sources, sources));
        }
        let mut batch: Vec<NewRecord> = Vec::new();
        let mut i: usize = 0;
        while i < updates.updates.len()
            invariant
                i <= updates.updates@.len(),
                batch@.len() == i,
                forall|j: int|
                    0 <= j < i ==> (#[trigger] batch@[j])@ == feed_record(
                        updates.updates@[j]@,
                        source.id as int,
                    ),
            decreases updates.updates@.len() - i,
        {
            let u = &updates.updates[i];
            batch.push(
                NewRecord {
                    date: Some(u.pub_date),
                    title: clone_opt(&u.title),
                    source_record_id: u.guid.clone(),
                    source_id: source.id,
                    content: u.content.clone(),
                    image: clone_opt(&u.image_link),
                },
            );
            i += 1;
        }
        assert(views(batch@) =~= feed_records(updates@, source.id as int));
        let inserted = match storage.save_records(&batch, now) {
            Ok(inserted) => inserted,
            Err(e) => {
                return Err(e);
            },
        };
        let ghost records = storage@.records;
        let ghost ids = choose|ids: Seq<int>|
            ids.len() == batch@.len() && records == #[trigger] upsert_records(
                before.records,
                views(batch@),
                now as int,
                ids,
            );
        let ghost fresh = records.subrange(before.records.len() as int, records.len() as int);
        let mut j: usize = 0;
        assert(fresh.subrange(0, 0) =~= Seq::empty());
        while j < inserted.len()
            invariant
                j <= inserted@.len(),
                views(inserted@) == fresh,
                before == old(storage)@,
                search_sources(before.sources, updates.link@).len() > 0 ==> sources
                    == before.sources,
                scrape_times_kept(before.sources, sources),
                storage@.sources == sources,
                storage@.files == before.files,
                storage@.records == link_each(records, fresh.subrange(0, j as int)),
            decreases inserted@.len() - j,
        {
            let rec = &inserted[j];
            assert(fresh.subrange(0, j + 1).drop_last() =~= fresh.subrange(0, j as int));
            assert(fresh.subrange(0, j + 1).last() == rec@);
            match storage.set_record_external_link(
                rec.source_record_id.as_str(),
                rec.source_id,
                rec.source_record_id.as_str(),
            ) {
                Ok(_) => {},
                Err(e) => {
                    return Err(e);
                },
            }
            j += 1;
        }
        assert(fresh.subrange(0, j as int) =~= fresh);
        match storage.set_source_scraped_now(&source, now) {
            Ok(_) => {},
            Err(e) => {
                return Err(e);
            },
        }
        proof {
            assert(storage@.sources == mark_scraped(sources, source@.id, now as int));
            assert(feed_ingested(before, storage@, updates@, now as int, inserted@.len() as int));
        }
        Ok(inserted.len())
    }
}

/// A query as an address: as it is where it names `http` or `https`, with
/// `https://` in front of it where it does not.
pub open spec fn with_scheme(query: Seq<char>) -> Seq<char> {
    if has_prefix(query, "http://"@) || has_prefix(query, "https://"@) {
        query
    } else {
        "https://"@ + query
    }
}

/// The address at which feeds are looked for when `query` is searched.
pub fn normalize_query(query: &str) -> (address: String)
    ensures
        address@ == with_scheme(query@),
{
    if !starts_with(query, "http://") && !starts_with(query, "https://") {
        let mut address = "https://".to_owned();
        address.append(query);
        address
    } else {
        query.to_owned()
    }
}

/// What a crawl of a feed puts on the update channel: the feed's update,
/// or the collector's failure in its own words.
pub fn crawl_result(result: Result<FeedUpdate, String>) -> (r: Result<SourceData, Error>)
    ensures
        match (result, r) {
            (Ok(feed), Ok(data)) => data == SourceData::WebFeed(feed),
            (Err(message), Err(e)) => e == Error::HttpCollectorError(message),
            _ => false,
        },
{
    match result {
        Ok(feed) => Ok(SourceData::WebFeed(feed)),
        Err(message) => Err(Error::HttpCollectorError(message)),
    }
}

/// The sources that stand for feeds, in their order.
pub open spec fn feed_sources(feeds: Seq<FeedUpdateView>) -> Seq<NewSourceView> {
    Seq::new(feeds.len(), |i: int| feed_source(feeds[i]))
}

/// What the ingest of one crawl makes of the store, whatever the number
/// of new records.
pub open spec fn feed_taken(before: Store, after: Store, update: FeedUpdateView, now: int) -> bool {
    exists|n: int| feed_ingested(before, after, update, now, n)
}

/// What the ingest of some crawls, one after the other, makes of the
/// store: there is a store after each crawl, and each crawl leads from the
/// store before it to the store after it.
pub open spec fn feeds_ingested(
    before: Store,
    after: Store,
    feeds: Seq<FeedUpdateView>,
    now: int,
) -> bool {
    exists|stores: Seq<Store>|
        {
            &&& #[trigger] stores.len() == feeds.len() + 1
            &&& stores[0] == before
            &&& stores[feeds.len() as int] == after
            &&& forall|i: int|
                0 <= i < feeds.len() ==> feed_taken(
                    #[trigger] stores[i],
                    stores[i + 1],
                    feeds[i],
                    now,
                )
        }
}

/// What a search for feeds makes of the store: the sources of the feeds
/// that were detected are upserted, `saved` holds the row of each, and each
/// feed is ingested.
pub open spec fn feeds_found(
    before: Store,
    after: Store,
    feeds: Seq<FeedUpdateView>,
    now: int,
    saved: Seq<SourceView>,
) -> bool {
    exists|mid: Store, ids: Seq<int>|
        #![trigger
            feeds_ingested(mid, after, feeds, now),
            upsert_sources(before.sources, feed_sources(feeds), ids)]
        {
            &&& ids.len() == feeds.len()
            &&& mid.sources == upsert_sources(before.sources, feed_sources(feeds), ids)
            &&& mid.records == before.records
            &&& mid.files == before.files
            &&& saved.len() == feeds.len()
            &&& forall|i: int|
                0 <= i < feeds.len() ==> Some(#[trigger] saved[i]) == first_source(
                    mid.sources,
                    feeds[i].link,
                    WEB@,
                )
            &&& feeds_ingested(mid, after, feeds, now)
        }
}

/// The feeds that a detection counts for: those it found, none where the
/// request for the page failed.
pub open spec fn detected_feeds(detected: Result<Vec<FeedUpdate>, DetectError>) -> Seq<
    FeedUpdateView,
> {
    match detected {
        Ok(feeds) => views(feeds@),
        Err(_) => Seq::empty(),
    }
}

impl HttpSource {
    /// Takes what a detection of feeds brought into the store, and returns
    /// the sources of the feeds. A request that failed counts as no feeds;
    /// any other failure of the detection is handed on and leaves the store
    /// as it is. Apart from that it fails where the store fails, and there
    /// only; the files are then as they were.
    pub fn search_source<S: Storage>(
        &self,
        storage: &mut S,
        detected: Result<Vec<FeedUpdate>, DetectError>,
        now: i64,
    ) -> (r: Result<Vec<SourceRow>, Error>)
        ensures
            match detected {
                Err(DetectError::Other(message)) => r == Err::<Vec<SourceRow>, Error>(
                    Error::HttpCollectorError(message),
                ) && final(storage)@ == old(storage)@,
                _ => match r {
                    Ok(saved) => feeds_found(
                        old(storage)@,
                        final(storage)@,
                        detected_feeds(detected),
                        now as int,
                        views(saved@),
                    ),
                    Err(e) => e is DbError && final(storage)@.files == old(storage)@.files,
                },
            },
    {
        let ghost before = storage@;
        let feeds = match detected {
            Ok(feeds) => feeds,
            Err(DetectError::RequestError) => Vec::new(),
            Err(DetectError::Other(message)) => {
                return Err(Error::HttpCollectorError(message));
            },
        };
        assert(views(feeds@) =~= detected_feeds(detected));
        let mut batch: Vec<NewSource> = Vec::new();
        let mut i: usize = 0;
        while i < feeds.len()
            invariant
                i <= feeds@.len(),
                batch@.len() == i,
                forall|j: int| 0 <= j < i ==> (#[trigger] batch@[j])@ == feed_source(feeds@[j]@),
            decreases feeds@.len() - i,
        {
            let f = &feeds[i];
            batch.push(
                NewSource {
                    name: f.name.clone(),
                    origin: f.link.clone(),
                    external_link: f.link.clone(),
                    kind: WEB.to_owned(),
                    image: clone_opt(&f.image),
                },
            );
            i += 1;
        }
        assert(views(batch@) =~= feed_sources(views(feeds@)));
        let new_sources = match storage.save_sources(&batch) {
            Ok(saved) => saved,
            Err(e) => {
                return Err(e);
            },
        };
        let ghost mid = storage@;
        let ghost ids = choose|ids: Seq<int>|
            ids.len() == batch@.len() && mid.sources == #[trigger] upsert_sources(
                before.sources,
                views(batch@),
                ids,
            );
        let mut k: usize = 0;
        let ghost mut stores: Seq<Store> = seq![mid];
        while k < feeds.len()
            invariant
                k <= feeds@.len(),
                !(detected matches Err(DetectError::Other(_))),
                storage@.files == old(storage)@.files,
                stores.len() == k + 1,
                stores[0] == mid,
                stores[k as int] == storage@,
                forall|i: int|
                    0 <= i < k ==> feed_taken(
                        #[trigger] stores[i],
                        stores[i + 1],
                        feeds@[i]@,
                        now as int,
                    ),
            decreases feeds@.len() - k,
        {
            let ghost so_far = storage@;
            match self.process_updates(storage, &feeds[k], now) {
                Ok(n) => {
                    proof {
                        assert(feed_ingested(
                            so_far,
                            storage@,
                            feeds@[k as int]@,
                            now as int,
                            n as int,
                        ));
                        let longer = stores.push(storage@);
                        assert forall|i: int| 0 <= i < k + 1 implies feed_taken(
                            #[trigger] longer[i],
                            longer[i + 1],
                            feeds@[i]@,
                            now as int,
                        ) by {
                            if i < k {
                                assert(longer[i] == stores[i] && longer[i + 1] == stores[i + 1]);
                            }
                        }
                        stores = longer;
                    }
                },
                Err(e) => {
                    return Err(e);
                },
            }
            k += 1;
        }
        proof {
            assert(stores.len() == views(feeds@).len() + 1);
            assert(feeds_ingested(mid, storage@, views(feeds@), now as int));
            assert forall|i: int| 0 <= i < feeds@.len() implies Some(
                #[trigger] views(new_sources@)[i],
            ) == first_source(mid.sources, views(feeds@)[i].link, WEB@) by {
                assert(new_sources@[i]@ == views(new_sources@)[i]);
                assert(batch@[i].origin@ == feeds@[i].link@);
            }
            assert(feeds_found(
                before,
                storage@,
                views(feeds@),
                now as int,
                views(new_sources@),
            ));
        }
        Ok(new_sources)
    }

    /// The feeds that are due at `now`, as the collector wants them: each by
    /// its origin, its dialect left open. Fails where the store fails, and
    /// there only.
    pub fn get_sources<S: Storage>(&self, storage: &S, now: i64) -> (r: Result<
        Vec<(Option<FeedKind>, String)>,
        Error,
    >)
        ensures
            match r {
                Ok(due) => {
                    let rows = sources_due(
                        storage@.sources,
                        WEB@,
                        self.scrape_source_secs_interval as int,
                        now as int,
                    );
                    &&& due@.len() == rows.len()
                    &&& forall|i: int|
                        0 <= i < rows.len() ==> (#[trigger] due@[i]).0 is None && due@[i].1@
                            == rows[i].origin
                },
                Err(e) => e is DbError,
            },
    {
        let rows = match storage.get_sources_by_kind_for_scrape(
            WEB,
            self.scrape_source_secs_interval,
            now,
        ) {
            Ok(rows) => rows,
            Err(e) => {
                return Err(e);
            },
        };
        let mut due: Vec<(Option<FeedKind>, String)> = Vec::new();
        let mut i: usize = 0;
        while i < rows.len()
            invariant
                i <= rows@.len(),
                due@.len() == i,
                forall|j: int|
                    0 <= j < i ==> (#[trigger] due@[j]).0 is None && due@[j].1@ == rows@[j].origin@,
            decreases rows@.len() - i,
        {
            due.push((None, rows[i].origin.clone()));
            i += 1;
        }
        proof {
            let model = sources_due(
                storage@.sources,
                WEB@,
                self.scrape_source_secs_interval as int,
                now as int,
            );
            assert forall|i: int| 0 <= i < model.len() implies (#[trigger] due@[i]).0 is None
                && due@[i].1@ == model[i].origin by {
                assert(views(rows@)[i] == rows@[i]@);
            }
        }
        Ok(due)
    }
}

} // verus!
