//! The providers of updates, and what is common to them.

pub mod http;
pub mod tg;

use crate::models::{Source as SourceRow, SourceView};
use crate::result::Error;
use crate::storage::interface::Storage;
use crate::storage::model::{search_sources, views, Store};
use crate::updates::http::{feed_ingested, HttpSource};
use crate::updates::tg::TelegramSource;
use crate::updates::tg::updates_handler::{update_taken, Step};
use vstd::prelude::*;

verus! {

/// How many updates the update channel holds before a provider has to
/// wait.
pub const UPDATES_CHANNEL_CAPACITY: usize = 2000;

/// An update on its way from a provider to the store.
#[derive(Debug, Clone, PartialEq, Eq)]
pub enum SourceData {
    WebFeed(http::FeedUpdate),
    Telegram(tg::TelegramUpdate),
}

/// The kinds of upstream.
#[derive(Debug, Clone, Copy, PartialEq, Eq, Structural)]
pub enum Source {
    Web,
    Telegram,
}

/// What every provider says of itself.
pub trait SourceProvider {
    /// The kind of upstream that the provider stands for.
    spec fn kind(&self) -> Source;

    fn get_source(&self) -> (kind: Source)
        ensures
            kind == self.kind(),
    ;
}

/// A provider that takes updates of type `T` into a store.
pub trait UpdatesHandler<T> {
    /// What the provider reports of an update that it took.
    type Outcome;

    /// What an update makes of the store.
    spec fn taken(
        &self,
        before: Store,
        after: Store,
        updates: T,
        now: int,
        outcome: Self::Outcome,
    ) -> bool;

    /// Takes an update into the store. Fails where the store fails, and
    /// there only; the files are then as they were.
    fn process_updates<S: Storage>(&self, storage: &mut S, updates: &T, now: i64) -> (r: Result<
        Self::Outcome,
        Error,
    >)
        ensures
            match r {
                Ok(outcome) => self.taken(
                    old(storage)@,
                    final(storage)@,
                    *updates,
                    now as int,
                    outcome,
                ),
                Err(e) => e is DbError && final(storage)@.files == old(storage)@.files,
            },
    ;
}

impl Source {
    /// The name of the kind.
    pub open spec fn name(self) -> Seq<char> {
        match self {
            Source::Web => "Web"@,
            Source::Telegram => "Telegram"@,
        }
    }

    /// The name of the kind.
    pub fn to_text(&self) -> (s: String)
        ensures
            s@ == self.name(),
    {
        match self {
            Source::Web => "Web".to_owned(),
            Source::Telegram => "Telegram".to_owned(),
        }
    }
}

/// The providers that are enabled, the store they write to, and what they
/// do together.
pub struct SourcesAggregator<S: Storage> {
    pub http_source: Option<HttpSource>,
    pub tg_source: Option<TelegramSource>,
    pub storage: S,
}

/// Collects what a [`SourcesAggregator`] is made of.
pub struct UpdatesHandlerBuilder<S: Storage> {
    pub http_source: Option<HttpSource>,
    pub tg_source: Option<TelegramSource>,
    pub storage: Option<S>,
}

impl<S: Storage> Default for UpdatesHandlerBuilder<S> {
    fn default() -> (b: UpdatesHandlerBuilder<S>)
        ensures
            b.http_source is None,
            b.tg_source is None,
            b.storage is None,
    {
        UpdatesHandlerBuilder { http_source: None, tg_source: None, storage: None }
    }
}

impl<S: Storage> UpdatesHandlerBuilder<S> {
    pub fn with_http_source(self, http_source: HttpSource) -> (b: UpdatesHandlerBuilder<S>)
        ensures
            b.http_source == Some(http_source),
            b.tg_source == self.tg_source,
            b.storage == self.storage,
    {
        let mut b = self;
        b.http_source = Some(http_source);
        b
    }

    pub fn with_tg_source(self, tg_source: TelegramSource) -> (b: UpdatesHandlerBuilder<S>)
        ensures
            b.http_source == self.http_source,
            b.tg_source == Some(tg_source),
            b.storage == self.storage,
    {
        let mut b = self;
        b.tg_source = Some(tg_source);
        b
    }

    pub fn with_storage(self, storage: S) -> (b: UpdatesHandlerBuilder<S>)
        ensures
            b.http_source == self.http_source,
            b.tg_source == self.tg_source,
            b.storage == Some(storage),
    {
        let mut b = self;
        b.storage = Some(storage);
        b
    }

    /// The aggregator that the builder describes. A store must have been
    /// given.
    pub fn build(self) -> (a: SourcesAggregator<S>)
        requires
            self.storage is Some,
        ensures
            a.http_source == self.http_source,
            a.tg_source == self.tg_source,
            Some(a.storage) == self.storage,
    {
        SourcesAggregator {
            http_source: self.http_source,
            tg_source: self.tg_source,
            storage: self.storage.unwrap(),
        }
    }
}

/// The rows without those whose id an earlier row has.
pub open spec fn dedup_by_id(rows: Seq<SourceView>) -> Seq<SourceView>
    decreases rows.len(),
{
    if rows.len() == 0 {
        Seq::empty()
    } else if exists|i: int| 0 <= i < rows.len() - 1 && (#[trigger] rows[i]).id == rows.last().id {
        dedup_by_id(rows.drop_last())
    } else {
        dedup_by_id(rows.drop_last()).push(rows.last())
    }
}

/// The first failure among some results, if there is one.
pub open spec fn first_failure<T>(results: Seq<Result<T, Error>>) -> Option<Error>
    decreases results.len(),
{
    if results.len() == 0 {
        None
    } else {
        match first_failure(results.drop_last()) {
            Some(e) => Some(e),
            None => match results.last() {
                Err(e) => Some(e),
                Ok(_) => None,
            },
        }
    }
}

/// The rows of all results, one result after the other; a failure has none.
pub open spec fn all_rows(results: Seq<Result<Vec<SourceRow>, Error>>) -> Seq<SourceView>
    decreases results.len(),
{
    if results.len() == 0 {
        Seq::empty()
    } else {
        all_rows(results.drop_last()) + match results.last() {
            Ok(rows) => views(rows@),
            Err(_) => Seq::empty(),
        }
    }
}

/// The kinds of the providers that are enabled, feeds first.
pub open spec fn enabled_kinds(http: bool, tg: bool) -> Seq<Source> {
    if http && tg {
        seq![Source::Web, Source::Telegram]
    } else if http {
        seq![Source::Web]
    } else if tg {
        seq![Source::Telegram]
    } else {
        Seq::empty()
    }
}

/// Whether the provider that an update is for is not enabled.
pub open spec fn provider_missing<S: Storage>(
    aggregator: SourcesAggregator<S>,
    update: SourceData,
) -> bool {
    match update {
        SourceData::WebFeed(_) => aggregator.http_source is None,
        SourceData::Telegram(_) => aggregator.tg_source is None,
    }
}

/// What one update makes of the store. An update for a provider that is
/// not enabled changes nothing and counts for nothing.
pub open spec fn update_processed<S: Storage>(
    before: SourcesAggregator<S>,
    after: Store,
    update: SourceData,
    now: int,
    step: Step,
) -> bool {
    match update {
        SourceData::WebFeed(feed) => match before.http_source {
            None => after == before.storage@ && (step matches Step::Done(n) && n == 0),
            Some(_) => step matches Step::Done(n) && feed_ingested(
                before.storage@,
                after,
                feed@,
                now,
                n as int,
            ),
        },
        SourceData::Telegram(telegram_update) => match before.tg_source {
            None => after == before.storage@ && (step matches Step::Done(n) && n == 0),
            Some(source) => update_taken(
                before.storage@,
                after,
                source.files_directory@,
                telegram_update,
                now,
                step,
            ),
        },
    }
}

impl<S: Storage> SourcesAggregator<S> {
    pub fn builder() -> (b: UpdatesHandlerBuilder<S>)
        ensures
            b.http_source is None,
            b.tg_source is None,
            b.storage is None,
    {
        UpdatesHandlerBuilder::default()
    }

    /// The kinds of the providers that are enabled, feeds first.
    pub fn get_enabled_sources(&self) -> (kinds: Vec<Source>)
        ensures
            kinds@ == enabled_kinds(self.http_source is Some, self.tg_source is Some),
    {
        let mut kinds: Vec<Source> = Vec::new();
        if self.http_source.is_some() {
            kinds.push(Source::Web);
        }
        if self.tg_source.is_some() {
            kinds.push(Source::Telegram);
        }
        assert(kinds@ =~= enabled_kinds(self.http_source is Some, self.tg_source is Some));
        kinds
    }

    /// Says which providers a synchronisation runs on: the one of the kind
    /// that is asked for, or all that are enabled where no kind is asked
    /// for. To ask for a kind whose provider is not enabled is an error
    /// that names the kind.
    pub fn synchronize(&self, source: Option<Source>) -> (r: Result<Vec<Source>, Error>)
        ensures
            match source {
                None => r matches Ok(kinds) && kinds@ == enabled_kinds(
                    self.http_source is Some,
                    self.tg_source is Some,
                ),
                Some(kind) => if enabled_kinds(
                    self.http_source is Some,
                    self.tg_source is Some,
                ).contains(kind) {
                    r matches Ok(kinds) && kinds@ == seq![kind]
                } else {
                    r matches Err(e) && e is SourceKindConflict && e.detail() == kind.name()
                },
            },
    {
        let enabled = self.get_enabled_sources();
        match source {
            None => Ok(enabled),
            Some(kind) => {
                let mut i: usize = 0;
                while i < enabled.len()
                    invariant
                        i <= enabled@.len(),
                        source == Some(kind),
                        enabled@ == enabled_kinds(
                            self.http_source is Some,
                            self.tg_source is Some,
                        ),
                        forall|j: int| 0 <= j < i ==> enabled@[j] != kind,
                    decreases enabled@.len() - i,
                {
                    if enabled[i] == kind {
                        assert(enabled@.contains(kind));
                        let kinds = vec![kind];
                        assert(kinds@ =~= seq![kind]);
                        return Ok(kinds);
                    }
                    i += 1;
                }
                assert(!enabled@.contains(kind));
                Err(Error::SourceKindConflict(kind.to_text()))
            },
        }
    }

    /// What a synchronisation comes to once every provider has reported:
    /// the first failure, if there is one.
    pub fn synchronized(&self, results: Vec<Result<(), Error>>) -> (r: Result<(), Error>)
        ensures
            match first_failure(results@) {
                Some(e) => r == Err::<(), Error>(e),
                None => r is Ok,
            },
    {
        let mut i: usize = 0;
        assert(results@.subrange(0, 0) =~= Seq::empty());
        while i < results.len()
            invariant
                i <= results@.len(),
                first_failure(results@.subrange(0, i as int)) is None,
            decreases results@.len() - i,
        {
            assert(results@.subrange(0, i + 1).drop_last() =~= results@.subrange(0, i as int));
            assert(results@.subrange(0, i + 1).last() == results@[i as int]);
            match &results[i] {
                Ok(_) => {},
                Err(e) => {
                    proof {
                        lemma_first_failure_kept(results@, i + 1);
                    }
                    return Err(e.clone());
                },
            }
            i += 1;
        }
        assert(results@.subrange(0, i as int) =~= results@);
        Ok(())
    }

    /// Puts together what a search comes to once every provider has
    /// reported: the rows of the providers in their order, then the rows
    /// that the store finds for the query, each id once. The first failure
    /// of a provider is the failure of the search, and then the store is
    /// not asked. Apart from that it fails where the store fails, and there
    /// only.
    pub fn search_source(&self, query: &str, results: Vec<Result<Vec<SourceRow>, Error>>) -> (r:
        Result<Vec<SourceRow>, Error>)
        ensures
            match first_failure(results@) {
                Some(e) => r == Err::<Vec<SourceRow>, Error>(e),
                None => match r {
                    Ok(found) => views(found@) == dedup_by_id(
                        all_rows(results@) + search_sources(self.storage@.sources, query@),
                    ),
                    Err(e) => e is DbError,
                },
            },
    {
        let mut rows: Vec<SourceRow> = Vec::new();
        let mut i: usize = 0;
        assert(results@.subrange(0, 0) =~= Seq::empty());
        assert(views(rows@) =~= Seq::empty());
        while i < results.len()
            invariant
                i <= results@.len(),
                first_failure(results@.subrange(0, i as int)) is None,
                views(rows@) == all_rows(results@.subrange(0, i as int)),
            decreases results@.len() - i,
        {
            assert(results@.subrange(0, i + 1).drop_last() =~= results@.subrange(0, i as int));
            assert(results@.subrange(0, i + 1).last() == results@[i as int]);
            match &results[i] {
                Ok(more) => {
                    let ghost so_far = views(rows@);
                    extend_rows(&mut rows, more);
                },
                Err(e) => {
                    proof {
                        lemma_first_failure_kept(results@, i + 1);
                    }
                    return Err(e.clone());
                },
            }
            i += 1;
        }
        assert(results@.subrange(0, i as int) =~= results@);
        let stored = match self.storage.search_source(query) {
            Ok(stored) => stored,
            Err(e) => {
                return Err(e);
            },
        };
        extend_rows(&mut rows, &stored);
        Ok(dedup_rows(&rows))
    }

    /// Takes one update from the update channel into the store. A failure
    /// that came over the channel is handed on, and the store stays as it
    /// is. An update for a provider that is not enabled always succeeds: it
    /// counts for nothing and the store stays as it is. Any other update
    /// goes to the provider of its kind; see [`update_processed`]. There it
    /// fails where the store fails, and there only.
    pub fn process_updates(&mut self, update: Result<SourceData, Error>, now: i64) -> (r: Result<
        Step,
        Error,
    >)
        ensures
            final(self).http_source == old(self).http_source,
            final(self).tg_source == old(self).tg_source,
            match update {
                Err(e) => r == Err::<Step, Error>(e) && final(self).storage@ == old(self).storage@,
                Ok(data) => match r {
                    Ok(step) => update_processed(
                        *old(self),
                        final(self).storage@,
                        data,
                        now as int,
                        step,
                    ),
                    Err(e) => e is DbError && !provider_missing(*old(self), data)
                        && final(self).storage@.files == old(self).storage@.files,
                },
            },
    {
        match update {
            Err(e) => Err(e),
            Ok(SourceData::WebFeed(feed)) => match &self.http_source {
                None => Ok(Step::Done(0)),
                Some(source) => match source.process_updates(&mut self.storage, &feed, now) {
                    Ok(n) => Ok(Step::Done(n)),
                    Err(e) => Err(e),
                },
            },
            Ok(SourceData::Telegram(telegram_update)) => match &self.tg_source {
                None => Ok(Step::Done(0)),
                Some(source) => source.process_updates(&mut self.storage, &telegram_update, now),
            },
        }
    }
}

fn extend_rows(rows: &mut Vec<SourceRow>, more: &Vec<SourceRow>)
    ensures
        views(final(rows)@) == views(old(rows)@) + views(more@),
{
    let ghost before = views(rows@);
    let mut j: usize = 0;
    assert(views(rows@) =~= before + views(more@).subrange(0, 0));
    while j < more.len()
        invariant
            j <= more@.len(),
            views(rows@) == before + views(more@).subrange(0, j as int),
        decreases more@.len() - j,
    {
        let ghost so_far = views(rows@);
        rows.push(more[j].clone());
        assert(views(rows@) =~= so_far.push(more@[j as int]@));
        assert(views(rows@) =~= before + views(more@).subrange(0, j + 1));
        j += 1;
    }
    assert(views(more@).subrange(0, j as int) =~= views(more@));
}

fn dedup_rows(rows: &Vec<SourceRow>) -> (kept: Vec<SourceRow>)
    ensures
        views(kept@) == dedup_by_id(views(rows@)),
{
    let mut kept: Vec<SourceRow> = Vec::new();
    let mut i: usize = 0;
    let ghost all = views(rows@);
    assert(all.subrange(0, 0) =~= Seq::empty());
    assert(views(kept@) =~= Seq::empty());
    while i < rows.len()
        invariant
            i <= rows@.len(),
            all == views(rows@),
            views(kept@) == dedup_by_id(all.subrange(0, i as int)),
        decreases rows@.len() - i,
    {
        let ghost upto = all.subrange(0, i + 1);
        assert(upto.drop_last() =~= all.subrange(0, i as int));
        assert(upto.last() == rows@[i as int]@);
        let mut seen = false;
        let mut j: usize = 0;
        while j < i
            invariant
                j <= i < rows@.len(),
                all == views(rows@),
                seen == exists|k: int| 0 <= k < j && (#[trigger] all[k]).id == all[i as int].id,
            decreases i - j,
        {
            if rows[j].id == rows[i].id {
                seen = true;
                assert(all[j as int].id == all[i as int].id);
            }
            j += 1;
        }
        proof {
            if seen {
                let k = choose|k: int| 0 <= k < i && (#[trigger] all[k]).id == all[i as int].id;
                assert(upto[k].id == upto.last().id);
            } else {
                assert forall|k: int| 0 <= k < upto.len() - 1 implies (#[trigger] upto[k]).id
                    != upto.last().id by {
                    assert(upto[k] == all[k]);
                }
            }
        }
        if !seen {
            let ghost so_far = views(kept@);
            kept.push(rows[i].clone());
            assert(views(kept@) =~= so_far.push(rows@[i as int]@));
        }
        i += 1;
    }
    assert(all.subrange(0, i as int) =~= all);
    kept
}

/// A failure among the first `n` results is the first failure of all.
pub proof fn lemma_first_failure_kept<T>(results: Seq<Result<T, Error>>, n: int)
    requires
        0 <= n <= results.len(),
        first_failure(results.subrange(0, n)) is Some,
    ensures
        first_failure(results) == first_failure(results.subrange(0, n)),
    decreases results.len() - n,
{
    if n < results.len() {
        let longer = results.subrange(0, n + 1);
        assert(longer.drop_last() =~= results.subrange(0, n));
        lemma_first_failure_kept(results, n + 1);
    } else {
        assert(results.subrange(0, n) =~= results);
    }
}

} // verus!
