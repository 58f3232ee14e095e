//! Requests, commands and results, and the messages of the bridge protocol.
use vstd::prelude::*;

use vstd::string::StrSliceExecFns;

use crate::daemon::config::{Config, FieldTransform};
use crate::daemon::error::{ErrorCode, ErrorDetail};
use crate::ordered_map::{
    ascending, entries_are_found, entries_differ, found_values_are_entries,
    leaving_out_entries_keeps_the_order, lookup, OrderedMap,
};
use crate::text::{
    decimal, decimal_text, is_white_space, joined, optional_text, same_text, texts, trim, trimmed,
    trimming_drops_only_outer_white_space, trimming_is_idempotent,
};
use crate::web_address::pair_texts;

verus! {

/// The kinds of search that the daemon offers.
#[derive(Debug, Clone, Copy, PartialEq, Eq, Structural)]
pub enum SearchKind {
    Web,
    News,
    Images,
    Videos,
    Forums,
}

impl SearchKind {
    /// The name of the kind.
    pub open spec fn name(self) -> Seq<char> {
        match self {
            SearchKind::Web => "web"@,
            SearchKind::News => "news"@,
            SearchKind::Images => "images"@,
            SearchKind::Videos => "videos"@,
            SearchKind::Forums => "forums"@,
        }
    }

    pub fn as_str(self) -> (result: &'static str)
        ensures
            result@ == self.name(),
    {
        match self {
            SearchKind::Web => "web",
            SearchKind::News => "news",
            SearchKind::Images => "images",
            SearchKind::Videos => "videos",
            SearchKind::Forums => "forums",
        }
    }

    /// The kind with the given name, if there is one.
    pub open spec fn named(name: Seq<char>) -> Option<SearchKind> {
        if name == "web"@ {
            Some(SearchKind::Web)
        } else if name == "news"@ {
            Some(SearchKind::News)
        } else if name == "images"@ {
            Some(SearchKind::Images)
        } else if name == "videos"@ {
            Some(SearchKind::Videos)
        } else if name == "forums"@ {
            Some(SearchKind::Forums)
        } else {
            None
        }
    }

    /// The kind with the given name.
    pub fn from_str(value: &str) -> (result: Result<SearchKind, ErrorDetail>)
        ensures
            match result {
                Ok(kind) => SearchKind::named(value@) == Some(kind),
                Err(error) => {
                    &&& SearchKind::named(value@) is None
                    &&& error.says(
                        ErrorCode::InvalidRequest,
                        "搜索类型必须是 web、news、images、videos 或 forums"@,
                        false,
                    )
                },
            },
    {
        if same_text(value, "web") {
            Ok(SearchKind::Web)
        } else if same_text(value, "news") {
            Ok(SearchKind::News)
        } else if same_text(value, "images") {
            Ok(SearchKind::Images)
        } else if same_text(value, "videos") {
            Ok(SearchKind::Videos)
        } else if same_text(value, "forums") {
            Ok(SearchKind::Forums)
        } else {
            Err(
                ErrorDetail::invalid_request(
                    "搜索类型必须是 web、news、images、videos 或 forums".to_owned(),
                ),
            )
        }
    }

    /// The fields that come first in a result of this kind, in their order.
    pub open spec fn leading_fields(self) -> Seq<Seq<char>> {
        match self {
            SearchKind::Web => seq!["title"@, "description"@, "url"@],
            SearchKind::News => seq!["title"@, "description"@, "url"@, "source"@, "time"@],
            SearchKind::Images => seq!["title"@, "imgurl"@, "url"@],
            SearchKind::Videos => seq!["title"@, "description"@, "url"@, "duration"@],
            SearchKind::Forums => seq!["title"@, "description"@, "url"@],
        }
    }

    pub fn result_field_order(self) -> (result: Vec<&'static str>)
        ensures
            result@.map_values(|field: &'static str| field@) == self.leading_fields(),
    {
        let result = match self {
            SearchKind::Web => vec!["title", "description", "url"],
            SearchKind::News => vec!["title", "description", "url", "source", "time"],
            SearchKind::Images => vec!["title", "imgurl", "url"],
            SearchKind::Videos => vec!["title", "description", "url", "duration"],
            SearchKind::Forums => vec!["title", "description", "url"],
        };
        assert(result@.map_values(|field: &'static str| field@) =~= self.leading_fields());
        result
    }
}

/// A kind is found under its name, and under no other.
pub proof fn kinds_are_found_under_their_names(kind: SearchKind, name: Seq<char>)
    ensures
        SearchKind::named(name) == Some(kind) <==> name == kind.name(),
{
    reveal_strlit("web");
    reveal_strlit("news");
    reveal_strlit("images");
    reveal_strlit("videos");
    reveal_strlit("forums");
    assert("web"@[0] != "news"@[0]);
    assert("images"@[0] != "videos"@[0]);
    assert("forums"@[0] != "videos"@[0]);
    assert("images"@[0] != "forums"@[0]);
}

/// The instructions for one search, as the extension receives them.
#[derive(Debug)]
pub struct SearchCommand {
    pub kind: SearchKind,
    pub query: String,
    pub start: u32,
    pub limit: u32,
    pub timeout_ms: u64,
    pub load_timeout_ms: u64,
    pub selector_timeout_ms: u64,
    pub url: String,
    pub extraction: ExtractionRules,
}

/// How results are read off a page.
#[derive(Debug)]
pub struct ExtractionRules {
    pub root_selectors: Vec<String>,
    pub dedupe_field: String,
    pub fields: OrderedMap<ExtractionFieldRule>,
}

/// How one field of a result is read off a page.
#[derive(Debug)]
pub struct ExtractionFieldRule {
    pub selectors: Vec<String>,
    pub attribute: Option<String>,
    pub transform: FieldTransform,
    pub required: bool,
    pub max_length: Option<usize>,
}

/// One result: field names with their texts, in the order of the names.
pub type SearchResult = OrderedMap<String>;

/// The contents of a [`SearchCommand`].
pub struct CommandView {
    pub kind: SearchKind,
    pub query: Seq<char>,
    pub start: u32,
    pub limit: u32,
    pub timeout_ms: u64,
    pub load_timeout_ms: u64,
    pub selector_timeout_ms: u64,
    pub url: Seq<char>,
    pub extraction: ExtractionView,
}

/// The contents of [`ExtractionRules`].
pub struct ExtractionView {
    pub root_selectors: Seq<Seq<char>>,
    pub dedupe_field: Seq<char>,
    pub fields: Seq<(Seq<char>, ExtractionFieldView)>,
}

/// The contents of an [`ExtractionFieldRule`].
pub struct ExtractionFieldView {
    pub selectors: Seq<Seq<char>>,
    pub attribute: Option<Seq<char>>,
    pub transform: FieldTransform,
    pub required: bool,
    pub max_length: Option<usize>,
}

impl View for ExtractionFieldRule {
    type V = ExtractionFieldView;

    open spec fn view(&self) -> ExtractionFieldView {
        ExtractionFieldView {
            selectors: texts(self.selectors@),
            attribute: optional_text(self.attribute),
            transform: self.transform,
            required: self.required,
            max_length: self.max_length,
        }
    }
}

impl View for ExtractionRules {
    type V = ExtractionView;

    open spec fn view(&self) -> ExtractionView {
        ExtractionView {
            root_selectors: texts(self.root_selectors@),
            dedupe_field: self.dedupe_field@,
            fields: self.fields@,
        }
    }
}

impl View for SearchCommand {
    type V = CommandView;

    open spec fn view(&self) -> CommandView {
        CommandView {
            kind: self.kind,
            query: self.query@,
            start: self.start,
            limit: self.limit,
            timeout_ms: self.timeout_ms,
            load_timeout_ms: self.load_timeout_ms,
            selector_timeout_ms: self.selector_timeout_ms,
            url: self.url@,
            extraction: self.extraction@,
        }
    }
}

impl Clone for ExtractionFieldRule {
    fn clone(&self) -> (result: Self)
        ensures
            result@ == self@,
    {
        ExtractionFieldRule {
            selectors: self.selectors.clone(),
            attribute: self.attribute.clone(),
            transform: self.transform,
            required: self.required,
            max_length: self.max_length,
        }
    }
}

impl Clone for ExtractionRules {
    fn clone(&self) -> (result: Self)
        ensures
            result@ == self@,
    {
        ExtractionRules {
            root_selectors: self.root_selectors.clone(),
            dedupe_field: self.dedupe_field.clone(),
            fields: self.fields.clone(),
        }
    }
}

impl Clone for SearchCommand {
    fn clone(&self) -> (result: Self)
        ensures
            result@ == self@,
    {
        SearchCommand {
            kind: self.kind,
            query: self.query.clone(),
            start: self.start,
            limit: self.limit,
            timeout_ms: self.timeout_ms,
            load_timeout_ms: self.load_timeout_ms,
            selector_timeout_ms: self.selector_timeout_ms,
            url: self.url.clone(),
            extraction: self.extraction.clone(),
        }
    }
}

/// How many results a request asks for when it does not say.
pub fn default_limit() -> (result: u32)
    ensures
        result == 10,
{
    10
}

/// How long a search may take when the request does not say, in milliseconds.
pub const DEFAULT_TIMEOUT_MS: u64 = 30_000;

/// The most characters that a query may have.
pub const MAX_QUERY: usize = 512;

/// A search as a caller asks for it.
#[derive(Debug)]
pub struct SearchRequest {
    pub query: String,
    pub start: u32,
    pub limit: u32,
    pub timeout_ms: Option<u64>,
}

impl Clone for SearchRequest {
    fn clone(&self) -> (result: Self)
        ensures
            result == *self,
    {
        SearchRequest {
            query: self.query.clone(),
            start: self.start,
            limit: self.limit,
            timeout_ms: self.timeout_ms,
        }
    }
}

/// A search that is ready to be run.
#[derive(Debug)]
pub struct NormalizedSearchRequest {
    pub query: String,
    pub start: u32,
    pub limit: u32,
    pub timeout_ms: u64,
}

impl Clone for NormalizedSearchRequest {
    fn clone(&self) -> (result: Self)
        ensures
            result == *self,
    {
        NormalizedSearchRequest {
            query: self.query.clone(),
            start: self.start,
            limit: self.limit,
            timeout_ms: self.timeout_ms,
        }
    }
}

/// The contents of a [`NormalizedSearchRequest`].
pub struct RequestView {
    pub query: Seq<char>,
    pub start: u32,
    pub limit: u32,
    pub timeout_ms: u64,
}

impl View for NormalizedSearchRequest {
    type V = RequestView;

    open spec fn view(&self) -> RequestView {
        RequestView {
            query: self.query@,
            start: self.start,
            limit: self.limit,
            timeout_ms: self.timeout_ms,
        }
    }
}

impl SearchRequest {
    /// How long the search may take: what the request says, or the default as far as the
    /// configuration allows it.
    pub open spec fn effective_timeout(self, max_timeout_ms: u64) -> u64 {
        match self.timeout_ms {
            Some(timeout_ms) => timeout_ms,
            None => if DEFAULT_TIMEOUT_MS <= max_timeout_ms {
                DEFAULT_TIMEOUT_MS
            } else {
                max_timeout_ms
            },
        }
    }

    /// What is wrong with the request first, if anything is.
    pub open spec fn fault(self, max_timeout_ms: u64) -> Option<Seq<char>> {
        if trimmed(self.query@).len() == 0 {
            Some("query 不能为空"@)
        } else if trimmed(self.query@).len() > MAX_QUERY {
            Some("query 不能超过 512 个字符"@)
        } else if self.start > 1_000 {
            Some("start 不能超过 1000"@)
        } else if !(1 <= self.limit <= 100) {
            Some("limit 必须在 1 到 100 之间"@)
        } else if !(1_000 <= self.effective_timeout(max_timeout_ms) <= max_timeout_ms) {
            Some("timeoutMs 必须在 1000 到 "@ + decimal(max_timeout_ms as nat) + " 之间"@)
        } else {
            None
        }
    }

    /// The request with what it leaves open.
    pub open spec fn normal_form(self, max_timeout_ms: u64) -> RequestView {
        RequestView {
            query: trimmed(self.query@),
            start: self.start,
            limit: self.limit,
            timeout_ms: self.effective_timeout(max_timeout_ms),
        }
    }

    /// Checks the request and fills in what it leaves open.
    pub fn normalized(self, config: &Config) -> (result: Result<
        NormalizedSearchRequest,
        ErrorDetail,
    >)
        ensures
            match result {
                Ok(request) => {
                    &&& self.fault(config.executor.max_timeout_ms) is None
                    &&& request@ == self.normal_form(config.executor.max_timeout_ms)
                },
                Err(error) => {
                    &&& self.fault(config.executor.max_timeout_ms) matches Some(message)
                    &&& error.says(ErrorCode::InvalidRequest, message, false)
                },
            },
    {
        let query: String = trim(self.query.as_str()).to_owned();
        let length = query.as_str().unicode_len();
        if length == 0 {
            return Err(ErrorDetail::invalid_request("query 不能为空".to_owned()));
        }
        if length > MAX_QUERY {
            return Err(ErrorDetail::invalid_request("query 不能超过 512 个字符".to_owned()));
        }
        if self.start > 1_000 {
            return Err(ErrorDetail::invalid_request("start 不能超过 1000".to_owned()));
        }
        if self.limit < 1 || self.limit > 100 {
            return Err(ErrorDetail::invalid_request("limit 必须在 1 到 100 之间".to_owned()));
        }
        let max_timeout_ms = config.executor.max_timeout_ms;
        let timeout_ms = match self.timeout_ms {
            Some(timeout_ms) => timeout_ms,
            None => DEFAULT_TIMEOUT_MS.min(max_timeout_ms),
        };
        if timeout_ms < 1_000 || timeout_ms > max_timeout_ms {
            let range = joined("timeoutMs 必须在 1000 到 ", decimal_text(max_timeout_ms).as_str());
            return Err(ErrorDetail::invalid_request(joined(range.as_str(), " 之间")));
        }
        Ok(NormalizedSearchRequest { query, start: self.start, limit: self.limit, timeout_ms })
    }
}

/// A request that was accepted once is accepted again as it came out, and comes out the same.
pub proof fn normalized_requests_stay_as_they_are(
    request: SearchRequest,
    again: SearchRequest,
    max_timeout_ms: u64,
)
    requires
        request.fault(max_timeout_ms) is None,
        ({
            let normal = request.normal_form(max_timeout_ms);
            &&& again.query@ == normal.query
            &&& again.start == normal.start
            &&& again.limit == normal.limit
            &&& again.timeout_ms == Some(normal.timeout_ms)
        }),
    ensures
        again.fault(max_timeout_ms) is None,
        again.normal_form(max_timeout_ms) == request.normal_form(max_timeout_ms),
{
    trimming_is_idempotent(request.query@);
}

/// An accepted request has a query of one to 512 characters without outer white space, and its
/// numbers are within their bounds.
pub proof fn accepted_requests_stay_within_bounds(request: SearchRequest, max_timeout_ms: u64)
    requires
        request.fault(max_timeout_ms) is None,
    ensures
        ({
            let normal = request.normal_form(max_timeout_ms);
            &&& 1 <= normal.query.len() <= MAX_QUERY
            &&& !is_white_space(normal.query[0])
            &&& !is_white_space(normal.query.last())
            &&& normal.start <= 1_000
            &&& 1 <= normal.limit <= 100
            &&& 1_000 <= normal.timeout_ms <= max_timeout_ms
        }),
{
    trimming_drops_only_outer_white_space(request.query@);
}

/// The results of a search, to be written out field by field.
pub struct SearchResponse {
    pub kind: SearchKind,
    pub results: Vec<SearchResult>,
}

/// The entries under the given keys, as far as there are any, in the order of the keys.
pub open spec fn selected(entries: Seq<(Seq<char>, Seq<char>)>, keys: Seq<Seq<char>>) -> Seq<
    (Seq<char>, Seq<char>),
>
    decreases keys.len(),
{
    if keys.len() == 0 {
        Seq::empty()
    } else {
        let before = selected(entries, keys.drop_last());
        match lookup(entries, keys.last()) {
            Some(value) => before.push((keys.last(), value)),
            None => before,
        }
    }
}

/// The entries of a result in the order in which they are written: first the leading fields of
/// the kind, then the others by name.
pub open spec fn ordered_fields(kind: SearchKind, entries: Seq<(Seq<char>, Seq<char>)>) -> Seq<
    (Seq<char>, Seq<char>),
> {
    selected(entries, kind.leading_fields()) + entries.filter(
        |entry: (Seq<char>, Seq<char>)| !kind.leading_fields().contains(entry.0),
    )
}

impl SearchResponse {
    pub fn new(kind: SearchKind, results: Vec<SearchResult>) -> (result: Self)
        ensures
            result == (SearchResponse { kind, results }),
    {
        SearchResponse { kind, results }
    }

    /// All results with their fields in the order in which they are written.
    pub fn ordered(&self) -> (lists: Vec<Vec<(String, String)>>)
        ensures
            lists@.len() == self.results@.len(),
            forall|i: int|
                0 <= i < lists@.len() ==> pair_texts((#[trigger] lists@[i])@) == ordered_fields(
                    self.kind,
                    self.results@[i]@,
                ),
    {
        let mut lists: Vec<Vec<(String, String)>> = Vec::new();
        let mut i: usize = 0;
        while i < self.results.len()
            invariant
                i <= self.results@.len(),
                lists@.len() == i,
                forall|k: int|
                    0 <= k < lists@.len() ==> pair_texts((#[trigger] lists@[k])@)
                        == ordered_fields(self.kind, self.results@[k]@),
            decreases self.results@.len() - i,
        {
            lists.push(ordered_result(self.kind, &self.results[i]));
            i += 1;
        }
        lists
    }
}

/// The fields of one result in the order in which they are written.
pub fn ordered_result(kind: SearchKind, result: &SearchResult) -> (list: Vec<(String, String)>)
    ensures
        pair_texts(list@) == ordered_fields(kind, result@),
{
    let order = kind.result_field_order();
    let ghost keys = order@.map_values(|field: &'static str| field@);
    let ghost others = |entry: (Seq<char>, Seq<char>)|
        !kind.leading_fields().contains(entry.0);
    let mut list: Vec<(String, String)> = Vec::new();
    let mut i: usize = 0;
    assert(pair_texts(list@) =~= selected(result@, keys.take(0)));
    while i < order.len()
        invariant
            i <= order@.len(),
            keys == order@.map_values(|field: &'static str| field@),
            pair_texts(list@) == selected(result@, keys.take(i as int)),
        decreases order@.len() - i,
    {
        let field = order[i];
        let ghost before = list@;
        proof {
            assert(keys.take(i + 1).drop_last() =~= keys.take(i as int));
            assert(keys.take(i + 1).last() == field@);
        }
        match result.get(field) {
            Some(value) => {
                list.push((field.to_owned(), value.clone()));
                assert(pair_texts(list@) =~= pair_texts(before).push((field@, value@)));
            },
            None => {},
        }
        i += 1;
    }
    proof {
        assert(keys.take(keys.len() as int) =~= keys);
        reveal(Seq::filter);
        assert(result@.take(0).filter(others) =~= Seq::empty());
    }
    let mut j: usize = 0;
    while j < result.len()
        invariant
            j <= result@.len(),
            keys == order@.map_values(|field: &'static str| field@),
            keys == kind.leading_fields(),
            others == (|entry: (Seq<char>, Seq<char>)|
                !kind.leading_fields().contains(entry.0)),
            pair_texts(list@) == selected(result@, keys) + result@.take(j as int).filter(others),
        decreases result@.len() - j,
    {
        let field = result.key_at(j);
        let ghost before = list@;
        let ghost entry = result@[j as int];
        proof {
            reveal(Seq::filter);
            assert(result@.take(j + 1).drop_last() =~= result@.take(j as int));
            assert(result@.take(j + 1).last() == entry);
        }
        if !contains_text(&order, field.as_str()) {
            let value = result.value_at(j);
            list.push((field.clone(), value.clone()));
            assert(pair_texts(list@) =~= pair_texts(before).push(entry));
            assert(pair_texts(list@) =~= selected(result@, keys) + result@.take(j + 1).filter(
                others,
            ));
        }
        j += 1;
    }
    assert(result@.take(result@.len() as int) =~= result@);
    list
}

/// Tells whether a text is in a list.
fn contains_text(list: &Vec<&'static str>, text: &str) -> (found: bool)
    ensures
        found == list@.map_values(|entry: &'static str| entry@).contains(text@),
{
    let ghost entries = list@.map_values(|entry: &'static str| entry@);
    let mut i: usize = 0;
    while i < list.len()
        invariant
            i <= list@.len(),
            entries == list@.map_values(|entry: &'static str| entry@),
            forall|k: int| 0 <= k < i ==> (#[trigger] entries[k]) != text@,
        decreases list@.len() - i,
    {
        if same_text(list[i], text) {
            assert(entries[i as int] == text@);
            return true;
        }
        assert(entries[i as int] == list@[i as int]@);
        i += 1;
    }
    false
}

proof fn lemma_selected(entries: Seq<(Seq<char>, Seq<char>)>, keys: Seq<Seq<char>>)
    requires
        keys.no_duplicates(),
    ensures
        forall|i: int|
            0 <= i < selected(entries, keys).len() ==> keys.contains(
                (#[trigger] selected(entries, keys)[i]).0,
            ) && lookup(entries, selected(entries, keys)[i].0) == Some(
                selected(entries, keys)[i].1,
            ),
        forall|i: int, j: int|
            0 <= i < j < selected(entries, keys).len() ==> (#[trigger] selected(entries, keys)[i]).0
                != (#[trigger] selected(entries, keys)[j]).0,
        forall|k: int|
            0 <= k < keys.len() && lookup(entries, #[trigger] keys[k]) is Some ==> selected(
                entries,
                keys,
            ).contains((keys[k], lookup(entries, keys[k])->0)),
    decreases keys.len(),
{
    if keys.len() > 0 {
        let rest = keys.drop_last();
        let before = selected(entries, rest);
        let all = selected(entries, keys);
        lemma_selected(entries, rest);
        assert forall|i: int| 0 <= i < all.len() implies keys.contains((#[trigger] all[i]).0)
            && lookup(entries, all[i].0) == Some(all[i].1) by {
            if i < before.len() {
                assert(all[i] == before[i]);
                let k = rest.index_of(before[i].0);
                assert(keys[k] == before[i].0);
            } else {
                assert(keys[keys.len() - 1] == all[i].0);
            }
        }
        assert forall|i: int, j: int| 0 <= i < j < all.len() implies (#[trigger] all[i]).0 != (
        #[trigger] all[j]).0 by {
            assert(all[i] == before[i]);
            if j < before.len() {
                assert(all[j] == before[j]);
            } else {
                let k = rest.index_of(before[i].0);
                assert(keys[k] == before[i].0);
                assert(keys[keys.len() - 1] == all[j].0);
            }
        }
        assert forall|k: int|
            0 <= k < keys.len() && lookup(entries, #[trigger] keys[k]) is Some implies all.contains(
            (keys[k], lookup(entries, keys[k])->0),
        ) by {
            let entry = (keys[k], lookup(entries, keys[k])->0);
            if k < rest.len() {
                assert(rest[k] == keys[k]);
                let i = before.index_of(entry);
                assert(all[i] == entry);
            } else {
                assert(all[all.len() - 1] == entry);
            }
        }
    }
}

proof fn lemma_leading_fields_differ(kind: SearchKind)
    ensures
        kind.leading_fields().no_duplicates(),
{
    reveal_strlit("title");
    reveal_strlit("description");
    reveal_strlit("url");
    reveal_strlit("source");
    reveal_strlit("time");
    reveal_strlit("imgurl");
    reveal_strlit("duration");
    let fields = kind.leading_fields();
    assert forall|i: int, j: int| 0 <= i < j < fields.len() implies fields[i] != fields[j] by {
        assert(fields[i].len() != fields[j].len() || fields[i][0] != fields[j][0]);
    }
}

/// Ordering the fields of a result loses none, adds none and repeats none.
pub proof fn ordering_keeps_the_fields(kind: SearchKind, entries: Seq<(Seq<char>, Seq<char>)>)
    requires
        ascending(entries),
    ensures
        ordered_fields(kind, entries).no_duplicates(),
        forall|entry: (Seq<char>, Seq<char>)| #[trigger]
            ordered_fields(kind, entries).contains(entry) <==> entries.contains(entry),
{
    let keys = kind.leading_fields();
    let others = |entry: (Seq<char>, Seq<char>)| !keys.contains(entry.0);
    let first = selected(entries, keys);
    let last = entries.filter(others);
    let all = ordered_fields(kind, entries);
    lemma_leading_fields_differ(kind);
    lemma_selected(entries, keys);
    leaving_out_entries_keeps_the_order(entries, others);
    entries_differ(last);
    assert forall|i: int, j: int| 0 <= i < j < all.len() implies all[i] != all[j] by {
        if i < first.len() && j >= first.len() {
            entries.lemma_filter_pred(others, j - first.len());
            assert(all[i] == first[i]);
            assert(all[j] == last[j - first.len()]);
        }
    }
    assert forall|entry: (Seq<char>, Seq<char>)| #[trigger]
        all.contains(entry) <==> entries.contains(entry) by {
        if all.contains(entry) {
            let i = all.index_of(entry);
            if i < first.len() {
                assert(first[i] == entry);
                let k = found_values_are_entries(entries, entry.0);
                assert(entries[k] == entry);
            } else {
                assert(last[i - first.len()] == entry);
                entries.lemma_filter_contains_rev(others, entry);
            }
        }
        if entries.contains(entry) {
            let k = entries.index_of(entry);
            entries_are_found(entries, k);
            if keys.contains(entry.0) {
                let n = keys.index_of(entry.0);
                let i = first.index_of((keys[n], lookup(entries, keys[n])->0));
                assert(all[i] == entry);
            } else {
                entries.lemma_filter_contains(others, k);
                let i = last.index_of(entry);
                assert(all[first.len() + i] == entry);
            }
        }
    }
}

/// The results that the extension found.
#[derive(Debug)]
pub struct SearchResultPayload {
    pub results: Vec<SearchResult>,
}

/// The answer to a health check.
#[derive(Debug)]
pub struct HealthResponse {
    pub status: &'static str,
    pub version: &'static str,
}

/// How busy the daemon is and which extension serves it.
#[derive(Debug)]
pub struct StatusResponse {
    pub extension_connected: bool,
    pub browser_instance_id: Option<String>,
    pub extension_version: Option<String>,
    pub active_jobs: usize,
    pub queued_jobs: usize,
    pub max_concurrency: usize,
}

/// How an extension introduces itself.
#[derive(Debug)]
pub struct HelloPayload {
    pub extension_token: String,
    pub browser_instance_id: String,
    pub browser_name: String,
    pub extension_version: String,
    pub protocol_version: u32,
}

impl Clone for HelloPayload {
    fn clone(&self) -> (result: Self)
        ensures
            result == *self,
    {
        HelloPayload {
            extension_token: self.extension_token.clone(),
            browser_instance_id: self.browser_instance_id.clone(),
            browser_name: self.browser_name.clone(),
            extension_version: self.extension_version.clone(),
            protocol_version: self.protocol_version,
        }
    }
}

/// What is known of the connected extension.
#[derive(Debug)]
pub struct BridgeMetadata {
    pub browser_instance_id: String,
    pub browser_name: String,
    pub extension_version: String,
    pub protocol_version: u32,
}

impl Clone for BridgeMetadata {
    fn clone(&self) -> (result: Self)
        ensures
            result == *self,
    {
        BridgeMetadata {
            browser_instance_id: self.browser_instance_id.clone(),
            browser_name: self.browser_name.clone(),
            extension_version: self.extension_version.clone(),
            protocol_version: self.protocol_version,
        }
    }
}

} // verus!
