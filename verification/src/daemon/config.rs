//! Configuration: what the daemon listens on, how it runs searches and how each kind of search
//! is read off a result page.
use vstd::prelude::*;

use crate::daemon::model::SearchKind;
use crate::ordered_map::OrderedMap;
use crate::text::{optional_text, texts};

verus! {

/// The whole configuration of the daemon.
#[derive(Debug)]
pub struct Config {
    pub server: ServerConfig,
    pub bridge: BridgeConfig,
    pub executor: ExecutorConfig,
    pub search: SearchConfig,
}

/// What the command line of the daemon says.
#[derive(Debug)]
pub struct Cli {
    /// Where the configuration file is.
    pub config: Option<String>,
    pub listen: Option<String>,
    pub bridge_listen: Option<String>,
    pub api_token: Option<String>,
    pub extension_token: Option<String>,
    pub max_concurrency: Option<usize>,
}

/// The tokens that had to be generated because none were given.
#[derive(Debug)]
pub struct GeneratedTokens {
    pub api_token: Option<String>,
    pub extension_token: Option<String>,
}

/// The HTTP API.
#[derive(Debug)]
pub struct ServerConfig {
    pub listen: String,
    pub api_token: String,
    pub allow_cors: bool,
}

/// The bridge that the browser extension connects to.
#[derive(Debug)]
pub struct BridgeConfig {
    pub listen: String,
    pub extension_token: String,
    pub browser_instance_id: String,
    pub ping_interval_seconds: u64,
}

/// How searches are run.
#[derive(Debug)]
pub struct ExecutorConfig {
    pub max_concurrency: usize,
    /// Extension tab-opening interval, restarted by completed page cleanup, in milliseconds.
    pub min_operation_interval: u32,
    pub max_queue_size: usize,
    pub max_timeout_ms: u64,
    pub load_timeout_ms: u64,
    pub selector_timeout_ms: u64,
}

/// The rules for every kind of search.
#[derive(Debug)]
pub struct SearchConfig {
    pub common: SearchCommonConfig,
    pub web: SearchProfile,
    pub news: SearchProfile,
    pub images: SearchProfile,
    pub videos: SearchProfile,
    pub forums: SearchProfile,
}

/// What all kinds of search share.
#[derive(Debug)]
pub struct SearchCommonConfig {
    pub base_url: String,
    pub query_parameter: String,
    pub start_parameter: String,
    pub limit_parameter: String,
    pub params: OrderedMap<String>,
}

/// The rules for one kind of search.
#[derive(Debug)]
pub struct SearchProfile {
    pub params: OrderedMap<String>,
    pub limit: Option<u32>,
    pub root_selectors: Vec<String>,
    pub dedupe_field: String,
    pub fields: OrderedMap<FieldRule>,
}

/// How one field of a result is found.
#[derive(Debug)]
pub struct FieldRule {
    pub enabled: bool,
    pub selectors: Vec<String>,
    pub attribute: Option<String>,
    pub transform: FieldTransform,
    pub required: bool,
    pub max_length: Option<usize>,
}

/// What is done to the text of a field.
#[derive(Debug, Clone, Copy, PartialEq, Eq, Structural)]
pub enum FieldTransform {
    /// The text is taken as it is.
    Unchanged,
    AbsoluteUrl,
    GoogleUrl,
}

/// The contents of a [`FieldRule`].
pub struct FieldRuleView {
    pub enabled: bool,
    pub selectors: Seq<Seq<char>>,
    pub attribute: Option<Seq<char>>,
    pub transform: FieldTransform,
    pub required: bool,
    pub max_length: Option<usize>,
}

/// The contents of a [`SearchProfile`].
pub struct ProfileView {
    pub params: Seq<(Seq<char>, Seq<char>)>,
    pub limit: Option<u32>,
    pub root_selectors: Seq<Seq<char>>,
    pub dedupe_field: Seq<char>,
    pub fields: Seq<(Seq<char>, FieldRuleView)>,
}

/// The contents of a [`SearchCommonConfig`].
pub struct CommonView {
    pub base_url: Seq<char>,
    pub query_parameter: Seq<char>,
    pub start_parameter: Seq<char>,
    pub limit_parameter: Seq<char>,
    pub params: Seq<(Seq<char>, Seq<char>)>,
}

impl View for FieldRule {
    type V = FieldRuleView;

    open spec fn view(&self) -> FieldRuleView {
        FieldRuleView {
            enabled: self.enabled,
            selectors: texts(self.selectors@),
            attribute: optional_text(self.attribute),
            transform: self.transform,
            required: self.required,
            max_length: self.max_length,
        }
    }
}

impl View for SearchProfile {
    type V = ProfileView;

    open spec fn view(&self) -> ProfileView {
        ProfileView {
            params: self.params@,
            limit: self.limit,
            root_selectors: texts(self.root_selectors@),
            dedupe_field: self.dedupe_field@,
            fields: self.fields@,
        }
    }
}

impl View for SearchCommonConfig {
    type V = CommonView;

    open spec fn view(&self) -> CommonView {
        CommonView {
            base_url: self.base_url@,
            query_parameter: self.query_parameter@,
            start_parameter: self.start_parameter@,
            limit_parameter: self.limit_parameter@,
            params: self.params@,
        }
    }
}

/// Why a configuration cannot be used.
#[derive(Debug)]
pub struct ConfigError {
    pub message: String,
    /// The message of the error that led to this one.
    pub cause: Option<String>,
}

impl ConfigError {
    /// Whether this error has exactly these contents.
    pub open spec fn says(self, message: Seq<char>, cause: Option<Seq<char>>) -> bool {
        self.message@ == message && optional_text(self.cause) == cause
    }

    /// An error that no other error led to.
    pub fn new(message: String) -> (result: Self)
        ensures
            result == (ConfigError { message, cause: None }),
    {
        ConfigError { message, cause: None }
    }
}

/// The most slots and queue places that can be set up.
pub const MAX_PLACES: usize = usize::MAX / 8;

impl ExecutorConfig {
    /// Whether a scheduler can be set up: there is at least one place to queue in, and the numbers
    /// of places and of slots can be counted.
    pub open spec fn runnable(self) -> bool {
        &&& 0 < self.max_queue_size <= MAX_PLACES
        &&& self.max_concurrency <= MAX_PLACES
    }

    /// Tells whether a scheduler can be set up.
    pub fn is_runnable(&self) -> (result: bool)
        ensures
            result == self.runnable(),
    {
        0 < self.max_queue_size && self.max_queue_size <= MAX_PLACES && self.max_concurrency
            <= MAX_PLACES
    }
}

impl SearchConfig {
    /// The rules for one kind of search.
    pub open spec fn rules(self, kind: SearchKind) -> SearchProfile {
        match kind {
            SearchKind::Web => self.web,
            SearchKind::News => self.news,
            SearchKind::Images => self.images,
            SearchKind::Videos => self.videos,
            SearchKind::Forums => self.forums,
        }
    }

    pub fn profile(&self, kind: SearchKind) -> (result: &SearchProfile)
        ensures
            *result == self.rules(kind),
    {
        match kind {
            SearchKind::Web => &self.web,
            SearchKind::News => &self.news,
            SearchKind::Images => &self.images,
            SearchKind::Videos => &self.videos,
            SearchKind::Forums => &self.forums,
        }
    }
}

} // verus!
