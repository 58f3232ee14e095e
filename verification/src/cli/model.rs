//! What the command line client and the daemon tell each other.
use vstd::prelude::*;

verus! {

/// The kinds of search that can be asked for.
#[derive(Debug, Clone, Copy, PartialEq, Eq, Structural)]
pub enum SearchKind {
    Web,
    News,
    Images,
    Videos,
    Forums,
}

impl SearchKind {
    /// The name of the kind.
    pub open spec fn name(self) -> Seq<char> {
        match self {
            SearchKind::Web => "web"@,
            SearchKind::News => "news"@,
            SearchKind::Images => "images"@,
            SearchKind::Videos => "videos"@,
            SearchKind::Forums => "forums"@,
        }
    }

    pub fn as_str(self) -> (result: &'static str)
        ensures
            result@ == self.name(),
    {
        match self {
            SearchKind::Web => "web",
            SearchKind::News => "news",
            SearchKind::Images => "images",
            SearchKind::Videos => "videos",
            SearchKind::Forums => "forums",
        }
    }

    pub fn is_images(self) -> (result: bool)
        ensures
            result == (self == SearchKind::Images),
    {
        matches!(self, SearchKind::Images)
    }
}

/// A request for one page of results. What is left open is left to the daemon.
#[derive(Debug)]
pub struct SearchRequest {
    pub query: String,
    pub start: Option<u32>,
    pub limit: Option<u32>,
    pub timeout_ms: Option<u64>,
}

/// The contents of a [`SearchRequest`].
pub struct PageView {
    pub query: Seq<char>,
    pub start: Option<u32>,
    pub limit: Option<u32>,
    pub timeout_ms: Option<u64>,
}

impl View for SearchRequest {
    type V = PageView;

    open spec fn view(&self) -> PageView {
        PageView {
            query: self.query@,
            start: self.start,
            limit: self.limit,
            timeout_ms: self.timeout_ms,
        }
    }
}

impl Clone for SearchRequest {
    fn clone(&self) -> (result: Self)
        ensures
            result == *self,
    {
        SearchRequest {
            query: self.query.clone(),
            start: self.start,
            limit: self.limit,
            timeout_ms: self.timeout_ms,
        }
    }
}

/// What the daemon says about itself.
#[derive(Debug)]
pub struct StatusResponse {
    pub extension_connected: bool,
    pub max_concurrency: usize,
}

/// The body of an error response.
#[derive(Debug)]
pub struct ErrorEnvelope {
    pub error: ApiErrorDetail,
}

/// An error as the daemon reports it.
#[derive(Debug)]
pub struct ApiErrorDetail {
    pub code: String,
    pub message: String,
    pub retryable: bool,
}

} // verus!
