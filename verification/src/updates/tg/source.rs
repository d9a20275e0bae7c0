//! The chat provider and how it is built.

use vstd::prelude::*;

verus! {

/// The kind of the sources and files that come from the chat network.
pub const TELEGRAM: &'static str = "TELEGRAM";

/// What the chat collector is started with.
#[derive(Debug, PartialEq, Eq)]
pub struct CollectorConfig {
    pub log_verbosity_level: i32,
    pub database_directory: String,
    pub api_id: i64,
    pub api_hash: String,
    pub phone_number: String,
    pub max_download_queue_size: usize,
    pub log_download_state_secs_interval: u64,
}

impl Clone for CollectorConfig {
    fn clone(&self) -> (c: CollectorConfig)
        ensures
            c == *self,
    {
        CollectorConfig {
            log_verbosity_level: self.log_verbosity_level,
            database_directory: self.database_directory.clone(),
            api_id: self.api_id,
            api_hash: self.api_hash.clone(),
            phone_number: self.phone_number.clone(),
            max_download_queue_size: self.max_download_queue_size,
            log_download_state_secs_interval: self.log_download_state_secs_interval,
        }
    }
}

/// Collects what a [`TelegramSource`] is made of.
pub struct TelegramSourceBuilder {
    api_id: i64,
    api_hash: String,
    phone_number: String,
    log_verbosity_level: i32,
    database_directory: String,
    max_download_queue_size: usize,
    log_download_state_secs_interval: u64,
    files_directory: String,
}

/// What a [`TelegramSourceBuilder`] holds, as plain values.
pub struct TelegramSourceSettings {
    pub api_id: int,
    pub api_hash: Seq<char>,
    pub phone_number: Seq<char>,
    pub log_verbosity_level: int,
    pub database_directory: Seq<char>,
    pub max_download_queue_size: int,
    pub log_download_state_secs_interval: int,
    pub files_directory: Seq<char>,
}

impl View for TelegramSourceBuilder {
    type V = TelegramSourceSettings;

    closed spec fn view(&self) -> TelegramSourceSettings {
        TelegramSourceSettings {
            api_id: self.api_id as int,
            api_hash: self.api_hash@,
            phone_number: self.phone_number@,
            log_verbosity_level: self.log_verbosity_level as int,
            database_directory: self.database_directory@,
            max_download_queue_size: self.max_download_queue_size as int,
            log_download_state_secs_interval: self.log_download_state_secs_interval as int,
            files_directory: self.files_directory@,
        }
    }
}

impl TelegramSourceBuilder {
    /// A builder with the given account and places; the collector is quiet
    /// and keeps its state under `tdlib` until told otherwise.
    pub fn new(
        api_id: i64,
        api_hash: &str,
        phone_number: &str,
        max_download_queue_size: usize,
        files_directory: &str,
        log_download_state_secs_interval: u64,
    ) -> (b: TelegramSourceBuilder)
        ensures
            b@ == (TelegramSourceSettings {
                api_id: api_id as int,
                api_hash: api_hash@,
                phone_number: phone_number@,
                log_verbosity_level: 0,
                database_directory: "tdlib"@,
                max_download_queue_size: max_download_queue_size as int,
                log_download_state_secs_interval: log_download_state_secs_interval as int,
                files_directory: files_directory@,
            }),
    {
        TelegramSourceBuilder {
            api_id,
            max_download_queue_size,
            log_download_state_secs_interval,
            files_directory: files_directory.to_owned(),
            phone_number: phone_number.to_owned(),
            api_hash: api_hash.to_owned(),
            log_verbosity_level: 0,
            database_directory: "tdlib".to_owned(),
        }
    }

    pub fn with_log_verbosity_level(self, level: i32) -> (b: TelegramSourceBuilder)
        ensures
            b@ == (TelegramSourceSettings { log_verbosity_level: level as int, ..self@ }),
    {
        let mut b = self;
        b.log_verbosity_level = level;
        b
    }

    pub fn with_database_directory(self, directory: &str) -> (b: TelegramSourceBuilder)
        ensures
            b@ == (TelegramSourceSettings { database_directory: directory@, ..self@ }),
    {
        let mut b = self;
        b.database_directory = directory.to_owned();
        b
    }

    /// The source that the builder describes.
    pub fn build(&self) -> (source: TelegramSource)
        ensures
            source.files_directory@ == self@.files_directory,
            source.collector.log_verbosity_level == self@.log_verbosity_level,
            source.collector.database_directory@ == self@.database_directory,
            source.collector.api_id == self@.api_id,
            source.collector.api_hash@ == self@.api_hash,
            source.collector.phone_number@ == self@.phone_number,
            source.collector.max_download_queue_size == self@.max_download_queue_size,
            source.collector.log_download_state_secs_interval
                == self@.log_download_state_secs_interval,
    {
        TelegramSource {
            collector: CollectorConfig {
                log_verbosity_level: self.log_verbosity_level,
                database_directory: self.database_directory.clone(),
                api_id: self.api_id,
                api_hash: self.api_hash.clone(),
                phone_number: self.phone_number.clone(),
                max_download_queue_size: self.max_download_queue_size,
                log_download_state_secs_interval: self.log_download_state_secs_interval,
            },
            files_directory: self.files_directory.clone(),
        }
    }
}

/// The chat provider.
#[derive(Debug, PartialEq, Eq)]
pub struct TelegramSource {
    /// What its collector is started with.
    pub collector: CollectorConfig,
    /// Where downloaded files end up.
    pub files_directory: String,
}

impl Clone for TelegramSource {
    fn clone(&self) -> (s: TelegramSource)
        ensures
            s == *self,
    {
        TelegramSource {
            collector: self.collector.clone(),
            files_directory: self.files_directory.clone(),
        }
    }
}

impl TelegramSource {
    pub fn builder(
        api_id: i64,
        api_hash: &str,
        phone_number: &str,
        max_download_queue_size: usize,
        files_directory: &str,
        log_download_state_secs_interval: u64,
    ) -> (b: TelegramSourceBuilder)
        ensures
            b@ == (TelegramSourceSettings {
                api_id: api_id as int,
                api_hash: api_hash@,
                phone_number: phone_number@,
                log_verbosity_level: 0,
                database_directory: "tdlib"@,
                max_download_queue_size: max_download_queue_size as int,
                log_download_state_secs_interval: log_download_state_secs_interval as int,
                files_directory: files_directory@,
            }),
    {
        TelegramSourceBuilder::new(
            api_id,
            api_hash,
            phone_number,
            max_download_queue_size,
            files_directory,
            log_download_state_secs_interval,
        )
    }
}

} // verus!
