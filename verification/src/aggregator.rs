//! The aggregator as an embedding application sees it.

use crate::config::AggregatorConfig;
use crate::models::Source as SourceRow;
use crate::result::Error;
use crate::storage::interface::Storage;
use crate::storage::model::{search_sources, views};
use crate::updates::http::HttpSource;
use crate::updates::tg::TelegramSource;
use crate::updates::tg::updates_handler::Step;
use crate::updates::{
    all_rows, dedup_by_id, enabled_kinds, first_failure, provider_missing, update_processed, Source,
    SourceData, SourcesAggregator,
};
use vstd::prelude::*;

verus! {

/// The providers that are enabled, over one store.
pub struct Aggregator<S: Storage> {
    pub handler: SourcesAggregator<S>,
}

impl<S: Storage> Aggregator<S> {
    pub fn new(handler: SourcesAggregator<S>) -> (a: Aggregator<S>)
        ensures
            a.handler == handler,
    {
        Aggregator { handler }
    }

    /// Takes one update from the update channel into the store; see
    /// [`SourcesAggregator::process_updates`].
    pub fn process_updates(&mut self, update: Result<SourceData, Error>, now: i64) -> (r: Result<
        Step,
        Error,
    >)
        ensures
            final(self).handler.http_source == old(self).handler.http_source,
            final(self).handler.tg_source == old(self).handler.tg_source,
            match update {
                Err(e) => r == Err::<Step, Error>(e)
                    && final(self).handler.storage@ == old(self).handler.storage@,
                Ok(data) => match r {
                    Ok(step) => update_processed(
                        old(self).handler,
                        final(self).handler.storage@,
                        data,
                        now as int,
                        step,
                    ),
                    Err(e) => e is DbError && !provider_missing(old(self).handler, data)
                        && final(self).handler.storage@.files == old(self).handler.storage@.files,
                },
            },
    {
        self.handler.process_updates(update, now)
    }

    /// Puts together what a search comes to; see
    /// [`SourcesAggregator::search_source`].
    pub fn search_source(&self, query: &str, results: Vec<Result<Vec<SourceRow>, Error>>) -> (r:
        Result<Vec<SourceRow>, Error>)
        ensures
            match first_failure(results@) {
                Some(e) => r == Err::<Vec<SourceRow>, Error>(e),
                None => match r {
                    Ok(found) => views(found@) == dedup_by_id(
                        all_rows(results@) + search_sources(self.handler.storage@.sources, query@),
                    ),
                    Err(e) => e is DbError,
                },
            },
    {
        self.handler.search_source(query, results)
    }

    /// Says which providers a synchronisation runs on; see
    /// [`SourcesAggregator::synchronize`].
    pub fn synchronize(&self, source: Option<Source>) -> (r: Result<Vec<Source>, Error>)
        ensures
            match source {
                None => r matches Ok(kinds) && kinds@ == enabled_kinds(
                    self.handler.http_source is Some,
                    self.handler.tg_source is Some,
                ),
                Some(kind) => if enabled_kinds(
                    self.handler.http_source is Some,
                    self.handler.tg_source is Some,
                ).contains(kind) {
                    r matches Ok(kinds) && kinds@ == seq![kind]
                } else {
                    r matches Err(e) && e is SourceKindConflict && e.detail() == kind.name()
                },
            },
    {
        self.handler.synchronize(source)
    }
}

/// Builds an [`Aggregator`] from its settings.
pub struct AggregatorBuilder<'a, S: Storage> {
    pub config: &'a AggregatorConfig,
    pub storage: S,
}

impl<'a, S: Storage> AggregatorBuilder<'a, S> {
    pub fn new(config: &'a AggregatorConfig, storage: S) -> (b: AggregatorBuilder<'a, S>)
        ensures
            b.config == config,
            b.storage == storage,
    {
        AggregatorBuilder { config, storage }
    }

    /// The aggregator over the given store, with the providers that the
    /// settings enable, each as the settings describe it.
    pub fn build(self) -> (a: Aggregator<S>)
        ensures
            a.handler.storage == self.storage,
            a.handler.http_source == if self.config.http().enabled() {
                Some(
                    HttpSource {
                        sleep_secs: self.config.http().sleep_secs(),
                        scrape_source_secs_interval: self.config.http()
                            .scrape_source_secs_interval(),
                    },
                )
            } else {
                None
            },
            a.handler.tg_source is Some == self.config.telegram().enabled(),
            a.handler.tg_source matches Some(source) ==> {
                let settings = self.config.telegram();
                &&& source.files_directory@ == settings.files_directory()@
                &&& source.collector.api_id == settings.api_id()
                &&& source.collector.api_hash@ == settings.api_hash()@
                &&& source.collector.phone_number@ == settings.phone()@
                &&& source.collector.database_directory@ == settings.database_directory()@
                &&& source.collector.log_verbosity_level == settings.log_verbosity_level()
                &&& source.collector.max_download_queue_size == settings.max_download_queue_size()
                &&& source.collector.log_download_state_secs_interval
                    == settings.log_download_state_secs_interval()
            },
    {
        let mut updates_builder = SourcesAggregator::builder().with_storage(self.storage);
        if self.config.http().enabled() {
            let http_source = HttpSource::builder().with_sleep_secs(
                self.config.http().sleep_secs(),
            ).with_scrape_source_secs_interval(
                self.config.http().scrape_source_secs_interval(),
            ).build();
            updates_builder = updates_builder.with_http_source(http_source);
        }
        if self.config.telegram().enabled() {
            let settings = self.config.telegram();
            let tg_source = TelegramSource::builder(
                settings.api_id(),
                settings.api_hash().as_str(),
                settings.phone().as_str(),
                settings.max_download_queue_size(),
                settings.files_directory().as_str(),
                settings.log_download_state_secs_interval(),
            ).with_database_directory(
                settings.database_directory().as_str(),
            ).with_log_verbosity_level(settings.log_verbosity_level()).build();
            updates_builder = updates_builder.with_tg_source(tg_source);
        }
        Aggregator::new(updates_builder.build())
    }
}

} // verus!
