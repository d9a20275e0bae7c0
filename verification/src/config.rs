//! What an embedding application sets before the aggregator is built.

use vstd::prelude::*;

verus! {

/// The settings of the whole aggregator.
#[derive(Debug)]
pub struct AggregatorConfig {
    http: HttpConfig,
    telegram: TelegramConfig,
}

/// The settings of the feed provider.
#[derive(Debug)]
pub struct HttpConfig {
    enabled: bool,
    sleep_secs: u64,
    scrape_source_secs_interval: i32,
}

/// The settings of the chat provider.
#[derive(Debug)]
pub struct TelegramConfig {
    enabled: bool,
    database_directory: String,
    log_verbosity_level: i32,
    api_id: i64,
    api_hash: String,
    phone: String,
    max_download_queue_size: usize,
    files_directory: String,
    log_download_state_secs_interval: u64,
}

impl AggregatorConfig {
    pub fn new(http: HttpConfig, telegram: TelegramConfig) -> (c: AggregatorConfig)
        ensures
            *c.spec_http() == http,
            *c.spec_telegram() == telegram,
    {
        AggregatorConfig { http, telegram }
    }

    pub closed spec fn spec_http(&self) -> &HttpConfig {
        &self.http
    }

    pub closed spec fn spec_telegram(&self) -> &TelegramConfig {
        &self.telegram
    }

    #[verifier::when_used_as_spec(spec_http)]
    pub fn http(&self) -> (r: &HttpConfig)
        ensures
            r == self.spec_http(),
    {
        &self.http
    }

    #[verifier::when_used_as_spec(spec_telegram)]
    pub fn telegram(&self) -> (r: &TelegramConfig)
        ensures
            r == self.spec_telegram(),
    {
        &self.telegram
    }
}

impl Default for AggregatorConfig {
    /// Both providers with their own defaults.
    fn default() -> (c: AggregatorConfig)
        ensures
            !c.http().enabled(),
            c.http().sleep_secs() == 60,
            c.http().scrape_source_secs_interval() == 60,
            !c.telegram().enabled(),
    {
        AggregatorConfig { http: HttpConfig::default(), telegram: TelegramConfig::default() }
    }
}

impl Clone for AggregatorConfig {
    fn clone(&self) -> (c: AggregatorConfig)
        ensures
            c == *self,
    {
        AggregatorConfig { http: self.http.clone(), telegram: self.telegram.clone() }
    }
}

impl HttpConfig {
    pub fn new(enabled: bool, sleep_secs: u64, scrape_source_secs_interval: i32) -> (c: HttpConfig)
        ensures
            c.enabled() == enabled,
            c.sleep_secs() == sleep_secs,
            c.scrape_source_secs_interval() == scrape_source_secs_interval,
    {
        HttpConfig { enabled, sleep_secs, scrape_source_secs_interval }
    }

    pub closed spec fn spec_enabled(&self) -> bool {
        self.enabled
    }

    pub closed spec fn spec_sleep_secs(&self) -> u64 {
        self.sleep_secs
    }

    pub closed spec fn spec_scrape_source_secs_interval(&self) -> i32 {
        self.scrape_source_secs_interval
    }

    /// Whether the feed provider runs.
    #[verifier::when_used_as_spec(spec_enabled)]
    pub fn enabled(&self) -> (r: bool)
        ensures
            r == self.spec_enabled(),
    {
        self.enabled
    }

    /// The pause between two sweeps over the feeds that are due.
    #[verifier::when_used_as_spec(spec_sleep_secs)]
    pub fn sleep_secs(&self) -> (r: u64)
        ensures
            r == self.spec_sleep_secs(),
    {
        self.sleep_secs
    }

    /// How long a feed rests once it has been scraped.
    #[verifier::when_used_as_spec(spec_scrape_source_secs_interval)]
    pub fn scrape_source_secs_interval(&self) -> (r: i32)
        ensures
            r == self.spec_scrape_source_secs_interval(),
    {
        self.scrape_source_secs_interval
    }
}

impl Default for HttpConfig {
    /// Disabled, with a minute between sweeps and a minute of rest.
    fn default() -> (c: HttpConfig)
        ensures
            !c.enabled(),
            c.sleep_secs() == 60,
            c.scrape_source_secs_interval() == 60,
    {
        HttpConfig { enabled: false, sleep_secs: 60, scrape_source_secs_interval: 60 }
    }
}

impl Clone for HttpConfig {
    fn clone(&self) -> (c: HttpConfig)
        ensures
            c == *self,
    {
        HttpConfig {
            enabled: self.enabled,
            sleep_secs: self.sleep_secs,
            scrape_source_secs_interval: self.scrape_source_secs_interval,
        }
    }
}

impl TelegramConfig {
    pub fn new(
        enabled: bool,
        database_directory: String,
        log_verbosity_level: i32,
        api_id: i64,
        api_hash: String,
        phone: String,
        max_download_queue_size: usize,
        files_directory: String,
        log_download_state_secs_interval: u64,
    ) -> (c: TelegramConfig)
        ensures
            c.enabled() == enabled,
            *c.database_directory() == database_directory,
            c.log_verbosity_level() == log_verbosity_level,
            c.api_id() == api_id,
            *c.api_hash() == api_hash,
            *c.phone() == phone,
            c.max_download_queue_size() == max_download_queue_size,
            *c.files_directory() == files_directory,
            c.log_download_state_secs_interval() == log_download_state_secs_interval,
    {
        TelegramConfig {
            enabled,
            database_directory,
            log_verbosity_level,
            api_id,
            api_hash,
            phone,
            max_download_queue_size,
            files_directory,
            log_download_state_secs_interval,
        }
    }

    pub closed spec fn spec_enabled(&self) -> bool {
        self.enabled
    }

    pub closed spec fn spec_database_directory(&self) -> &String {
        &self.database_directory
    }

    pub closed spec fn spec_log_verbosity_level(&self) -> i32 {
        self.log_verbosity_level
    }

    pub closed spec fn spec_api_id(&self) -> i64 {
        self.api_id
    }

    pub closed spec fn spec_api_hash(&self) -> &String {
        &self.api_hash
    }

    pub closed spec fn spec_phone(&self) -> &String {
        &self.phone
    }

    pub closed spec fn spec_max_download_queue_size(&self) -> usize {
        self.max_download_queue_size
    }

    pub closed spec fn spec_files_directory(&self) -> &String {
        &self.files_directory
    }

    pub closed spec fn spec_log_download_state_secs_interval(&self) -> u64 {
        self.log_download_state_secs_interval
    }

    /// Whether the chat provider runs.
    #[verifier::when_used_as_spec(spec_enabled)]
    pub fn enabled(&self) -> (r: bool)
        ensures
            r == self.spec_enabled(),
    {
        self.enabled
    }

    /// Where the chat collector keeps its own state.
    #[verifier::when_used_as_spec(spec_database_directory)]
    pub fn database_directory(&self) -> (r: &String)
        ensures
            r == self.spec_database_directory(),
    {
        &self.database_directory
    }

    #[verifier::when_used_as_spec(spec_log_verbosity_level)]
    pub fn log_verbosity_level(&self) -> (r: i32)
        ensures
            r == self.spec_log_verbosity_level(),
    {
        self.log_verbosity_level
    }

    #[verifier::when_used_as_spec(spec_api_id)]
    pub fn api_id(&self) -> (r: i64)
        ensures
            r == self.spec_api_id(),
    {
        self.api_id
    }

    #[verifier::when_used_as_spec(spec_api_hash)]
    pub fn api_hash(&self) -> (r: &String)
        ensures
            r == self.spec_api_hash(),
    {
        &self.api_hash
    }

    #[verifier::when_used_as_spec(spec_phone)]
    pub fn phone(&self) -> (r: &String)
        ensures
            r == self.spec_phone(),
    {
        &self.phone
    }

    /// How many downloads the chat collector keeps waiting.
    #[verifier::when_used_as_spec(spec_max_download_queue_size)]
    pub fn max_download_queue_size(&self) -> (r: usize)
        ensures
            r == self.spec_max_download_queue_size(),
    {
        self.max_download_queue_size
    }

    /// Where downloaded files end up.
    #[verifier::when_used_as_spec(spec_files_directory)]
    pub fn files_directory(&self) -> (r: &String)
        ensures
            r == self.spec_files_directory(),
    {
        &self.files_directory
    }

    /// The pause between two reports on the downloads under way.
    #[verifier::when_used_as_spec(spec_log_download_state_secs_interval)]
    pub fn log_download_state_secs_interval(&self) -> (r: u64)
        ensures
            r == self.spec_log_download_state_secs_interval(),
    {
        self.log_download_state_secs_interval
    }
}

impl Default for TelegramConfig {
    /// Disabled, with the collector's state under `tdlib`, downloaded files
    /// under `files`, one download waiting at most and a minute between
    /// reports; no account is set.
    fn default() -> (c: TelegramConfig)
        ensures
            !c.enabled(),
            c.database_directory()@ == "tdlib"@,
            c.log_verbosity_level() == 0,
            c.api_id() == 0,
            c.api_hash()@ == ""@,
            c.phone()@ == ""@,
            c.max_download_queue_size() == 1,
            c.files_directory()@ == "files"@,
            c.log_download_state_secs_interval() == 60,
    {
        TelegramConfig {
            enabled: false,
            database_directory: "tdlib".to_owned(),
            log_verbosity_level: 0,
            api_id: 0,
            api_hash: "".to_owned(),
            phone: "".to_owned(),
            max_download_queue_size: 1,
            files_directory: "files".to_owned(),
            log_download_state_secs_interval: 60,
        }
    }
}

impl Clone for TelegramConfig {
    fn clone(&self) -> (c: TelegramConfig)
        ensures
            c == *self,
    {
        TelegramConfig {
            enabled: self.enabled,
            database_directory: self.database_directory.clone(),
            log_verbosity_level: self.log_verbosity_level,
            api_id: self.api_id,
            api_hash: self.api_hash.clone(),
            phone: self.phone.clone(),
            max_download_queue_size: self.max_download_queue_size,
            files_directory: self.files_directory.clone(),
            log_download_state_secs_interval: self.log_download_state_secs_interval,
        }
    }
}

/// Collects the settings of the feed provider; what is not set is as
/// [`HttpConfig::default`] has it.
pub struct HttpConfigBuilder {
    pub enabled: Option<bool>,
    pub sleep_secs: Option<u64>,
    pub scrape_source_secs_interval: Option<i32>,
}

impl Default for HttpConfigBuilder {
    /// A builder with nothing set.
    fn default() -> (b: HttpConfigBuilder)
        ensures
            b.enabled is None,
            b.sleep_secs is None,
            b.scrape_source_secs_interval is None,
    {
        HttpConfigBuilder { enabled: None, sleep_secs: None, scrape_source_secs_interval: None }
    }
}

impl HttpConfigBuilder {
    pub fn enabled(&mut self, value: bool) -> (b: &mut HttpConfigBuilder)
        ensures
            *b == (HttpConfigBuilder { enabled: Some(value), ..*old(self) }),
            *final(self) == *final(b),
    {
        self.enabled = Some(value);
        self
    }

    pub fn sleep_secs(&mut self, value: u64) -> (b: &mut HttpConfigBuilder)
        ensures
            *b == (HttpConfigBuilder { sleep_secs: Some(value), ..*old(self) }),
            *final(self) == *final(b),
    {
        self.sleep_secs = Some(value);
        self
    }

    pub fn scrape_source_secs_interval(&mut self, value: i32) -> (b: &mut HttpConfigBuilder)
        ensures
            *b == (HttpConfigBuilder { scrape_source_secs_interval: Some(value), ..*old(self) }),
            *final(self) == *final(b),
    {
        self.scrape_source_secs_interval = Some(value);
        self
    }
    /// The settings that were collected. This never fails.
    pub fn build(&self) -> (r: Result<HttpConfig, String>)
        ensures
            r matches Ok(c) && c.enabled() == (match self.enabled {
                Some(v) => v,
                None => false,
            }) && c.sleep_secs() == (match self.sleep_secs {
                Some(v) => v,
                None => 60,
            }) && c.scrape_source_secs_interval() == (match self.scrape_source_secs_interval {
                Some(v) => v,
                None => 60,
            }),
    {
        let unset = HttpConfig::default();
        Ok(
            HttpConfig {
                enabled: match self.enabled {
                    Some(v) => v,
                    None => unset.enabled,
                },
                sleep_secs: match self.sleep_secs {
                    Some(v) => v,
                    None => unset.sleep_secs,
                },
                scrape_source_secs_interval: match self.scrape_source_secs_interval {
                    Some(v) => v,
                    None => unset.scrape_source_secs_interval,
                },
            },
        )
    }
}

/// Collects the settings of the chat provider. Every one of them has to be
/// set.
pub struct TelegramConfigBuilder {
    pub enabled: Option<bool>,
    pub database_directory: Option<String>,
    pub log_verbosity_level: Option<i32>,
    pub api_id: Option<i64>,
    pub api_hash: Option<String>,
    pub phone: Option<String>,
    pub max_download_queue_size: Option<usize>,
    pub files_directory: Option<String>,
    pub log_download_state_secs_interval: Option<u64>,
}

impl Default for TelegramConfigBuilder {
    /// A builder with nothing set.
    fn default() -> (b: TelegramConfigBuilder)
        ensures
            b.enabled is None,
            b.database_directory is None,
            b.log_verbosity_level is None,
            b.api_id is None,
            b.api_hash is None,
            b.phone is None,
            b.max_download_queue_size is None,
            b.files_directory is None,
            b.log_download_state_secs_interval is None,
    {
        TelegramConfigBuilder {
            enabled: None,
            database_directory: None,
            log_verbosity_level: None,
            api_id: None,
            api_hash: None,
            phone: None,
            max_download_queue_size: None,
            files_directory: None,
            log_download_state_secs_interval: None,
        }
    }
}

impl TelegramConfigBuilder {
    pub fn enabled(&mut self, value: bool) -> (b: &mut TelegramConfigBuilder)
        ensures
            *b == (TelegramConfigBuilder { enabled: Some(value), ..*old(self) }),
            *final(self) == *final(b),
    {
        self.enabled = Some(value);
        self
    }

    pub fn database_directory(&mut self, value: String) -> (b: &mut TelegramConfigBuilder)
        ensures
            *b == (TelegramConfigBuilder { database_directory: Some(value), ..*old(self) }),
            *final(self) == *final(b),
    {
        self.database_directory = Some(value);
        self
    }

    pub fn log_verbosity_level(&mut self, value: i32) -> (b: &mut TelegramConfigBuilder)
        ensures
            *b == (TelegramConfigBuilder { log_verbosity_level: Some(value), ..*old(self) }),
            *final(self) == *final(b),
    {
        self.log_verbosity_level = Some(value);
        self
    }

    pub fn api_id(&mut self, value: i64) -> (b: &mut TelegramConfigBuilder)
        ensures
            *b == (TelegramConfigBuilder { api_id: Some(value), ..*old(self) }),
            *final(self) == *final(b),
    {
        self.api_id = Some(value);
        self
    }

    pub fn api_hash(&mut self, value: String) -> (b: &mut TelegramConfigBuilder)
        ensures
            *b == (TelegramConfigBuilder { api_hash: Some(value), ..*old(self) }),
            *final(self) == *final(b),
    {
        self.api_hash = Some(value);
        self
    }

    pub fn phone(&mut self, value: String) -> (b: &mut TelegramConfigBuilder)
        ensures
            *b == (TelegramConfigBuilder { phone: Some(value), ..*old(self) }),
            *final(self) == *final(b),
    {
        self.phone = Some(value);
        self
    }

    pub fn max_download_queue_size(&mut self, value: usize) -> (b: &mut TelegramConfigBuilder)
        ensures
            *b == (TelegramConfigBuilder { max_download_queue_size: Some(value), ..*old(self) }),
            *final(self) == *final(b),
    {
        self.max_download_queue_size = Some(value);
        self
    }

    pub fn files_directory(&mut self, value: String) -> (b: &mut TelegramConfigBuilder)
        ensures
            *b == (TelegramConfigBuilder { files_directory: Some(value), ..*old(self) }),
            *final(self) == *final(b),
    {
        self.files_directory = Some(value);
        self
    }

    pub fn log_download_state_secs_interval(&mut self, value: u64) -> (b:
        &mut TelegramConfigBuilder)
        ensures
            *b == (TelegramConfigBuilder {
                log_download_state_secs_interval: Some(value),
                ..*old(self)
            }),
            *final(self) == *final(b),
    {
        self.log_download_state_secs_interval = Some(value);
        self
    }
    /// The name of the first setting that is not set, in the order of the
    /// settings.
    pub open spec fn first_unset(&self) -> Option<Seq<char>> {
        if self.enabled is None {
            Some("enabled"@)
        } else if self.database_directory is None {
            Some("database_directory"@)
        } else if self.log_verbosity_level is None {
            Some("log_verbosity_level"@)
        } else if self.api_id is None {
            Some("api_id"@)
        } else if self.api_hash is None {
            Some("api_hash"@)
        } else if self.phone is None {
            Some("phone"@)
        } else if self.max_download_queue_size is None {
            Some("max_download_queue_size"@)
        } else if self.files_directory is None {
            Some("files_directory"@)
        } else if self.log_download_state_secs_interval is None {
            Some("log_download_state_secs_interval"@)
        } else {
            None
        }
    }

    /// What a build without the setting `name` fails with.
    pub open spec fn missing(name: Seq<char>) -> Seq<char> {
        "`"@ + name + "` must be initialized"@
    }

    /// The settings that were collected, where every one of them is set;
    /// else a message that names the first that is not.
    pub fn build(&self) -> (r: Result<TelegramConfig, String>)
        ensures
            match self.first_unset() {
                Some(name) => r matches Err(message) && message@ == Self::missing(name),
                None => r matches Ok(c) && {
                    &&& c.enabled() == self.enabled->0
                    &&& *c.database_directory() == self.database_directory->0
                    &&& c.log_verbosity_level() == self.log_verbosity_level->0
                    &&& c.api_id() == self.api_id->0
                    &&& *c.api_hash() == self.api_hash->0
                    &&& *c.phone() == self.phone->0
                    &&& c.max_download_queue_size() == self.max_download_queue_size->0
                    &&& *c.files_directory() == self.files_directory->0
                    &&& c.log_download_state_secs_interval()
                        == self.log_download_state_secs_interval->0
                },
            },
    {
        let enabled = match &self.enabled {
            Some(v) => *v,
            None => {
                return Err(uninitialized("enabled"));
            },
        };
        let database_directory = match &self.database_directory {
            Some(v) => v.clone(),
            None => {
                return Err(uninitialized("database_directory"));
            },
        };
        let log_verbosity_level = match &self.log_verbosity_level {
            Some(v) => *v,
            None => {
                return Err(uninitialized("log_verbosity_level"));
            },
        };
        let api_id = match &self.api_id {
            Some(v) => *v,
            None => {
                return Err(uninitialized("api_id"));
            },
        };
        let api_hash = match &self.api_hash {
            Some(v) => v.clone(),
            None => {
                return Err(uninitialized("api_hash"));
            },
        };
        let phone = match &self.phone {
            Some(v) => v.clone(),
            None => {
                return Err(uninitialized("phone"));
            },
        };
        let max_download_queue_size = match &self.max_download_queue_size {
            Some(v) => *v,
            None => {
                return Err(uninitialized("max_download_queue_size"));
            },
        };
        let files_directory = match &self.files_directory {
            Some(v) => v.clone(),
            None => {
                return Err(uninitialized("files_directory"));
            },
        };
        let log_download_state_secs_interval = match &self.log_download_state_secs_interval {
            Some(v) => *v,
            None => {
                return Err(uninitialized("log_download_state_secs_interval"));
            },
        };
        Ok(
            TelegramConfig {
                enabled,
                database_directory,
                log_verbosity_level,
                api_id,
                api_hash,
                phone,
                max_download_queue_size,
                files_directory,
                log_download_state_secs_interval,
            },
        )
    }
}

fn uninitialized(name: &str) -> (message: String)
    ensures
        message@ == TelegramConfigBuilder::missing(name@),
{
    let mut message = "`".to_owned();
    message.append(name);
    message.append("` must be initialized");
    message
}

/// Collects the settings of the aggregator; a provider whose settings are
/// not set has its defaults.
pub struct AggregatorConfigBuilder {
    pub http: Option<HttpConfig>,
    pub telegram: Option<TelegramConfig>,
}

impl Default for AggregatorConfigBuilder {
    /// A builder with nothing set.
    fn default() -> (b: AggregatorConfigBuilder)
        ensures
            b.http is None,
            b.telegram is None,
    {
        AggregatorConfigBuilder { http: None, telegram: None }
    }
}

impl AggregatorConfigBuilder {
    pub fn http(&mut self, value: HttpConfig) -> (b: &mut AggregatorConfigBuilder)
        ensures
            *b == (AggregatorConfigBuilder { http: Some(value), ..*old(self) }),
            *final(self) == *final(b),
    {
        self.http = Some(value);
        self
    }

    pub fn telegram(&mut self, value: TelegramConfig) -> (b: &mut AggregatorConfigBuilder)
        ensures
            *b == (AggregatorConfigBuilder { telegram: Some(value), ..*old(self) }),
            *final(self) == *final(b),
    {
        self.telegram = Some(value);
        self
    }
    /// The settings that were collected. This never fails.
    pub fn build(&self) -> (r: Result<AggregatorConfig, String>)
        ensures
            r matches Ok(c) && (self.http matches Some(http) ==> *c.http() == http) && (
            self.telegram matches Some(telegram) ==> *c.telegram() == telegram) && (self.http
                is None ==> !c.http().enabled() && c.http().sleep_secs() == 60
                && c.http().scrape_source_secs_interval() == 60) && (self.telegram is None
                ==> !c.telegram().enabled()),
    {
        Ok(
            AggregatorConfig {
                http: match &self.http {
                    Some(http) => http.clone(),
                    None => HttpConfig::default(),
                },
                telegram: match &self.telegram {
                    Some(telegram) => telegram.clone(),
                    None => TelegramConfig::default(),
                },
            },
        )
    }
}

} // verus!
