//! Pages of results: which are asked for, how many at a time, and how they are merged.
use vstd::prelude::*;

use crate::cli::error::CliError;
use crate::cli::model::{PageView, SearchKind, SearchRequest, StatusResponse};
use crate::cli::results::{
    deduped, identity_of, no_identity_stays_twice, stable_dedupe, SearchResult,
};

verus! {

/// How many results a page has.
pub const PAGE_SIZE: u32 = 10;

/// What became of a request for a page.
pub type PageOutcome = Result<Vec<SearchResult>, CliError>;

/// How many pages hold the given number of results.
pub open spec fn page_count(search_num: u32) -> nat {
    ((search_num + PAGE_SIZE - 1) / PAGE_SIZE as int) as nat
}

/// The requests for the given number of results. Image searches come in one page.
pub open spec fn page_plan(
    kind: SearchKind,
    query: Seq<char>,
    search_num: u32,
    timeout_ms: Option<u64>,
) -> Seq<PageView> {
    if kind == SearchKind::Images {
        seq![PageView { query, start: None, limit: None, timeout_ms }]
    } else {
        Seq::new(
            page_count(search_num),
            |i: int|
                PageView {
                    query,
                    start: Some((i * PAGE_SIZE) as u32),
                    limit: Some(PAGE_SIZE),
                    timeout_ms,
                },
        )
    }
}

/// The contents of requests.
pub open spec fn page_views(requests: Seq<SearchRequest>) -> Seq<PageView> {
    requests.map_values(|request: SearchRequest| request@)
}

/// The requests for the given number of results.
pub fn page_requests(kind: SearchKind, query: &str, search_num: u32, timeout_ms: Option<u64>) -> (requests:
    Vec<SearchRequest>)
    ensures
        page_views(requests@) == page_plan(kind, query@, search_num, timeout_ms),
{
    let mut requests: Vec<SearchRequest> = Vec::new();
    if kind.is_images() {
        requests.push(
            SearchRequest { query: query.to_owned(), start: None, limit: None, timeout_ms },
        );
        assert(page_views(requests@) =~= page_plan(kind, query@, search_num, timeout_ms));
        return requests;
    }
    let count: u32 = search_num / PAGE_SIZE + if search_num % PAGE_SIZE == 0 {
        0
    } else {
        1
    };
    assert(count == page_count(search_num));
    let mut page: u32 = 0;
    while page < count
        invariant
            page <= count,
            count == page_count(search_num),
            kind != SearchKind::Images,
            requests@.len() == page,
            forall|i: int|
                0 <= i < page ==> (#[trigger] requests@[i])@ == page_plan(
                    kind,
                    query@,
                    search_num,
                    timeout_ms,
                )[i],
        decreases count - page,
    {
        assert(page * PAGE_SIZE < search_num);
        requests.push(
            SearchRequest {
                query: query.to_owned(),
                start: Some(page * PAGE_SIZE),
                limit: Some(PAGE_SIZE),
                timeout_ms,
            },
        );
        page += 1;
    }
    assert(page_views(requests@) =~= page_plan(kind, query@, search_num, timeout_ms));
    requests
}

/// The pages follow each other without gaps, hold all results that are asked for, and none is
/// superfluous.
pub proof fn pages_cover_the_results(
    kind: SearchKind,
    query: Seq<char>,
    search_num: u32,
    timeout_ms: Option<u64>,
    i: int,
)
    requires
        kind != SearchKind::Images,
        0 <= i < page_plan(kind, query, search_num, timeout_ms).len(),
    ensures
        ({
            let plan = page_plan(kind, query, search_num, timeout_ms);
            &&& plan[i].start == Some((i * PAGE_SIZE) as u32)
            &&& i * PAGE_SIZE < search_num
            &&& plan[i].limit == Some(PAGE_SIZE)
            &&& search_num <= plan.len() * PAGE_SIZE
        }),
{
}

/// How many requests may be under way at the same time.
pub open spec fn allowed_concurrency(max_concurrency: usize, requests: nat) -> nat {
    let wanted = if max_concurrency == 0 {
        1
    } else {
        max_concurrency as nat
    };
    if wanted <= requests {
        wanted
    } else {
        requests
    }
}

/// Refuses to search where no extension serves the daemon.
pub fn check_status(status: &StatusResponse) -> (result: Result<(), CliError>)
    ensures
        result is Ok == status.extension_connected,
        result matches Err(error) ==> error.is_runtime("Chrome extension is not connected"@),
{
    if status.extension_connected {
        Ok(())
    } else {
        Err(CliError::runtime("Chrome extension is not connected".to_owned()))
    }
}

/// The requests for all pages, under way or not, and what became of them.
pub struct PageRun {
    requests: Vec<SearchRequest>,
    pages: Vec<Option<PageOutcome>>,
    next: usize,
    in_flight: usize,
    concurrency: usize,
    failed: bool,
}

/// The state of a [`PageRun`].
pub struct PageRunView {
    pub requests: Seq<PageView>,
    /// What became of each request, as far as it is known.
    pub pages: Seq<Option<PageOutcome>>,
    /// How many requests were started.
    pub started: nat,
    /// How many requests are under way.
    pub in_flight: nat,
    pub concurrency: nat,
    /// A request has failed.
    pub failed: bool,
}

/// How many of the first `n` pages are not there yet.
pub open spec fn missing(pages: Seq<Option<PageOutcome>>, n: nat) -> nat
    decreases n,
{
    if n == 0 {
        0
    } else {
        missing(pages, (n - 1) as nat) + if pages[n - 1] is None {
            1nat
        } else {
            0nat
        }
    }
}

impl PageRunView {
    /// No more requests are under way than allowed, and it is known which ones.
    pub open spec fn wf(self) -> bool {
        &&& self.pages.len() == self.requests.len()
        &&& self.started <= self.requests.len()
        &&& self.in_flight == missing(self.pages, self.started)
        &&& self.in_flight <= self.concurrency
        &&& forall|i: int| self.started <= i < self.pages.len() ==> (#[trigger] self.pages[i]) is None
        &&& self.failed == exists|i: int|
            0 <= i < self.pages.len() && (#[trigger] self.pages[i]) is Some && self.pages[i]->0 is Err
    }

    /// Whether another request is to be started now.
    pub open spec fn can_start(self) -> bool {
        !self.failed && self.in_flight < self.concurrency && self.started < self.requests.len()
    }

    /// Whether the request is under way.
    pub open spec fn awaits(self, index: int) -> bool {
        0 <= index < self.started && self.pages[index] is None
    }

    /// Whether nothing is under way and nothing is left to start.
    pub open spec fn is_done(self) -> bool {
        self.in_flight == 0 && (self.failed || self.started == self.requests.len())
    }
}

impl View for PageRun {
    type V = PageRunView;

    closed spec fn view(&self) -> PageRunView {
        PageRunView {
            requests: page_views(self.requests@),
            pages: self.pages@,
            started: self.next as nat,
            in_flight: self.in_flight as nat,
            concurrency: self.concurrency as nat,
            failed: self.failed,
        }
    }
}

proof fn lemma_missing_update(
    pages: Seq<Option<PageOutcome>>,
    n: nat,
    index: int,
    outcome: PageOutcome,
)
    requires
        n <= pages.len(),
        0 <= index < pages.len(),
        pages[index] is None,
    ensures
        missing(pages.update(index, Some(outcome)), n) == missing(pages, n) - if index < n {
            1int
        } else {
            0int
        },
    decreases n,
{
    if n > 0 {
        lemma_missing_update(pages, (n - 1) as nat, index, outcome);
    }
}

proof fn lemma_nothing_missing(pages: Seq<Option<PageOutcome>>, n: nat, index: int)
    requires
        n <= pages.len(),
        0 <= index < n,
        missing(pages, n) == 0,
    ensures
        pages[index] is Some,
    decreases n,
{
    if index < n - 1 {
        lemma_nothing_missing(pages, (n - 1) as nat, index);
    }
}

impl PageRun {
    /// Sets up the requests, of which as many may be under way as the daemon can take.
    pub fn new(requests: Vec<SearchRequest>, max_concurrency: usize) -> (result: Self)
        ensures
            result@.wf(),
            result@.requests == page_views(requests@),
            result@.pages == Seq::new(requests@.len(), |i: int| None::<PageOutcome>),
            result@.started == 0,
            result@.in_flight == 0,
            result@.concurrency == allowed_concurrency(max_concurrency, requests@.len()),
            !result@.failed,
    {
        let concurrency = max_concurrency.max(1).min(requests.len());
        let mut pages: Vec<Option<PageOutcome>> = Vec::new();
        let mut i: usize = 0;
        while i < requests.len()
            invariant
                i <= requests@.len(),
                pages@.len() == i,
                forall|k: int| 0 <= k < i ==> (#[trigger] pages@[k]) is None,
            decreases requests@.len() - i,
        {
            pages.push(None);
            i += 1;
        }
        assert(pages@ =~= Seq::new(requests@.len(), |i: int| None::<PageOutcome>));
        PageRun { requests, pages, next: 0, in_flight: 0, concurrency, failed: false }
    }

    /// The next request to start, with its place, unless none is to be started now.
    pub fn start_next(&mut self) -> (result: Option<(usize, SearchRequest)>)
        requires
            old(self)@.wf(),
        ensures
            final(self)@.wf(),
            result is Some == old(self)@.can_start(),
            match result {
                Some((index, request)) => {
                    &&& index == old(self)@.started
                    &&& request@ == old(self)@.requests[index as int]
                    &&& final(self)@ == (PageRunView {
                        started: old(self)@.started + 1,
                        in_flight: old(self)@.in_flight + 1,
                        ..old(self)@
                    })
                    &&& final(self)@.awaits(index as int)
                },
                None => final(self)@ == old(self)@,
            },
    {
        if self.failed || self.in_flight >= self.concurrency || self.next >= self.requests.len() {
            return None;
        }
        let index = self.next;
        let request = self.requests[index].clone();
        assert(self@.pages[index as int] is None);
        self.next = index + 1;
        self.in_flight = self.in_flight + 1;
        Some((index, request))
    }

    /// Tells whether the request is under way.
    pub fn is_under_way(&self, index: usize) -> (result: bool)
        requires
            self@.wf(),
        ensures
            result == self@.awaits(index as int),
    {
        index < self.next && self.pages[index].is_none()
    }

    /// Takes in what became of a request that is under way.
    pub fn finish(&mut self, index: usize, outcome: PageOutcome)
        requires
            old(self)@.wf(),
            old(self)@.awaits(index as int),
        ensures
            final(self)@.wf(),
            final(self)@ == (PageRunView {
                pages: old(self)@.pages.update(index as int, Some(outcome)),
                in_flight: (old(self)@.in_flight - 1) as nat,
                failed: old(self)@.failed || outcome is Err,
                ..old(self)@
            }),
    {
        let ghost before = self@;
        proof {
            lemma_missing_update(before.pages, before.started, index as int, outcome);
        }
        if outcome.is_err() {
            self.failed = true;
        }
        self.pages.set(index, Some(outcome));
        self.in_flight = self.in_flight - 1;
        proof {
            if before.failed {
                let i = choose|i: int|
                    0 <= i < before.pages.len() && (#[trigger] before.pages[i]) is Some
                        && before.pages[i]->0 is Err;
                assert(self@.pages[i] == before.pages[i]);
            }
            if outcome is Err {
                assert(self@.pages[index as int] == Some(outcome));
            }
            if exists|i: int|
                0 <= i < self@.pages.len() && (#[trigger] self@.pages[i]) is Some
                    && self@.pages[i]->0 is Err {
                let i = choose|i: int|
                    0 <= i < self@.pages.len() && (#[trigger] self@.pages[i]) is Some
                        && self@.pages[i]->0 is Err;
                if i != index {
                    assert(before.pages[i] == self@.pages[i]);
                }
            }
        }
    }

    /// Tells whether nothing is under way and nothing is left to start.
    pub fn is_done(&self) -> (result: bool)
        ensures
            result == self@.is_done(),
    {
        self.in_flight == 0 && (self.failed || self.next == self.requests.len())
    }

    /// What became of the requests, in their order.
    pub fn into_pages(self) -> (result: Vec<Option<PageOutcome>>)
        ensures
            result@ == self@.pages,
    {
        self.pages
    }
}

/// The error of the first page that failed.
pub open spec fn first_failure(pages: Seq<Option<PageOutcome>>) -> Option<CliError>
    decreases pages.len(),
{
    if pages.len() == 0 {
        None
    } else {
        match first_failure(pages.drop_last()) {
            Some(error) => Some(error),
            None => match pages.last() {
                Some(Err(error)) => Some(error),
                _ => None,
            },
        }
    }
}

/// The results of all pages, page after page.
pub open spec fn gathered(pages: Seq<Option<PageOutcome>>) -> Seq<SearchResult>
    decreases pages.len(),
{
    if pages.len() == 0 {
        Seq::empty()
    } else {
        gathered(pages.drop_last()) + match pages.last() {
            Some(Ok(results)) => results@,
            _ => Seq::empty(),
        }
    }
}

/// The first `n` results, or all where there are fewer.
pub open spec fn at_most(results: Seq<SearchResult>, n: nat) -> Seq<SearchResult> {
    if results.len() <= n {
        results
    } else {
        results.take(n as int)
    }
}

/// Merges pages in their order: without repeated results, and no more than were asked for.
pub fn merge_pages(pages: Vec<Option<PageOutcome>>, search_num: u32) -> (result: PageOutcome)
    ensures
        match first_failure(pages@) {
            Some(error) => result == Err::<Vec<SearchResult>, CliError>(error),
            None => {
                &&& result matches Ok(results)
                &&& results@ == at_most(deduped(gathered(pages@)), search_num as nat)
                &&& results@.len() <= search_num
                &&& results@.len() < search_num ==> results@.len() == deduped(
                    gathered(pages@),
                ).len()
                &&& forall|i: int|
                    0 <= i < results@.len() ==> #[trigger] results@[i] == deduped(
                        gathered(pages@),
                    )[i]
            },
        },
{
    let ghost all = pages@;
    let mut merged: Vec<SearchResult> = Vec::new();
    assert(gathered(all.take(0)) =~= merged@);
    for page in iter: pages
        invariant
            iter.seq() == all,
            first_failure(all.take(iter.index() as int)) is None,
            merged@ == gathered(all.take(iter.index() as int)),
    {
        proof {
            let i = iter.index() as int;
            assert(all.take(i + 1).drop_last() =~= all.take(i));
            assert(all.take(i + 1).last() == page);
            if page is Some && page->0 is Err {
                lemma_failure_stays(all, i + 1);
            }
        }
        match page {
            Some(Ok(results)) => {
                let mut results = results;
                merged.append(&mut results);
            },
            Some(Err(error)) => {
                return Err(error);
            },
            None => {
                assert(merged@ + Seq::<SearchResult>::empty() =~= merged@);
            },
        }
    }
    assert(all.take(all.len() as int) =~= all);
    stable_dedupe(&mut merged);
    merged.truncate(search_num as usize);
    Ok(merged)
}

proof fn lemma_failure_stays(pages: Seq<Option<PageOutcome>>, n: int)
    requires
        0 <= n <= pages.len(),
        first_failure(pages.take(n)) is Some,
    ensures
        first_failure(pages) == first_failure(pages.take(n)),
    decreases pages.len(),
{
    if n < pages.len() {
        assert(pages.drop_last().take(n) =~= pages.take(n));
        lemma_failure_stays(pages.drop_last(), n);
    } else {
        assert(pages.take(n) =~= pages);
    }
}

/// As long as pages are to come, something is under way or can be started.
pub proof fn page_runs_do_not_get_stuck(run: PageRunView)
    requires
        run.wf(),
        run.concurrency > 0,
        !run.is_done(),
    ensures
        run.in_flight > 0 || run.can_start(),
{
}

/// After a failure no further request is started.
pub proof fn failures_stop_the_run(run: PageRunView)
    requires
        run.failed,
    ensures
        !run.can_start(),
{
}

/// A run that ends without a failure has all its pages.
pub proof fn complete_runs_have_all_pages(run: PageRunView, i: int)
    requires
        run.wf(),
        run.is_done(),
        !run.failed,
        0 <= i < run.requests.len(),
    ensures
        run.pages[i] matches Some(Ok(_)),
{
    lemma_nothing_missing(run.pages, run.started, i);
}

/// A daemon that takes any request at all is sent at least one and never more than it can take.
pub proof fn the_daemon_is_not_overloaded(max_concurrency: usize, requests: nat)
    requires
        requests > 0,
    ensures
        allowed_concurrency(max_concurrency, requests) >= 1,
        max_concurrency >= 1 ==> allowed_concurrency(max_concurrency, requests) <= max_concurrency,
{
}

/// Merged results are no more than were asked for, and no two of them are the same.
pub proof fn merged_results_are_different(
    pages: Seq<Option<PageOutcome>>,
    search_num: u32,
    i: int,
    j: int,
)
    requires
        0 <= i < j < at_most(deduped(gathered(pages)), search_num as nat).len(),
    ensures
        ({
            let merged = at_most(deduped(gathered(pages)), search_num as nat);
            &&& merged.len() <= search_num
            &&& identity_of(merged[i]) != identity_of(merged[j])
        }),
{
    let merged = at_most(deduped(gathered(pages)), search_num as nat);
    no_identity_stays_twice(gathered(pages));
    assert(merged[i] == deduped(gathered(pages))[i]);
    assert(merged[j] == deduped(gathered(pages))[j]);
}

} // verus!
