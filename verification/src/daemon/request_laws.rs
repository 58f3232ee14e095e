//! What is promised of requests, commands, results and answers, said of inputs and results alone.
use vstd::prelude::*;
use vstd::utf8::{encode_utf8, is_ascii_chars, is_ascii_chars_encode_utf8};

use crate::daemon::api::{plan_fault, saturating_sum};
use crate::daemon::command::{
    command_at, effective_limit, extraction_field, extraction_of, query_pairs, search_address,
};
use crate::daemon::config::{
    Config, FieldRule, FieldRuleView, ProfileView, SearchCommonConfig, SearchConfig, SearchProfile,
};
use crate::daemon::error::{status_of, ErrorCode, ErrorDetail};
use crate::daemon::model::{
    ordered_fields, selected, ExtractionFieldRule, ExtractionRules, NormalizedSearchRequest,
    RequestView, SearchCommand, SearchKind, SearchRequest,
};
use crate::ordered_map::{ascending, leaving_out_entries_keeps_the_order, lookup, overlay};
use crate::text::{
    decimal, different_numbers_are_written_differently, is_digit, lemma_decimal, text_less,
    these_are_digits, trimmed,
};
use crate::web_address::{
    encoded, encoded_byte, encoded_pairs, parameters_are_added_one_by_one, AddressParts,
};

verus! {

/// A request is accepted exactly if its query has one to 512 characters within its outer white
/// space, its start is at most 1000, its limit one to a hundred, and its timeout, or the default of
/// 30 seconds as far as it is allowed, lies between a second and what is allowed.
pub proof fn requests_are_accepted_iff_within_bounds(request: SearchRequest, max_timeout_ms: u64)
    ensures
        request.fault(max_timeout_ms) is None <==> {
            &&& 1 <= trimmed(request.query@).len() <= 512
            &&& request.start <= 1_000
            &&& 1 <= request.limit <= 100
            &&& match request.timeout_ms {
                Some(timeout_ms) => 1_000 <= timeout_ms <= max_timeout_ms,
                None => 1_000 <= max_timeout_ms,
            }
        },
{
}

/// A refusal names the first thing that is wrong with a request.
pub proof fn refusals_name_the_first_fault(request: SearchRequest, max_timeout_ms: u64)
    ensures
        ({
            let length = trimmed(request.query@).len();
            let query_is_fine = 1 <= length <= 512;
            &&& length == 0 ==> request.fault(max_timeout_ms) == Some("query 不能为空"@)
            &&& length > 512 ==> request.fault(max_timeout_ms) == Some("query 不能超过 512 个字符"@)
            &&& query_is_fine && request.start > 1_000 ==> request.fault(max_timeout_ms) == Some(
                "start 不能超过 1000"@,
            )
            &&& query_is_fine && request.start <= 1_000 && !(1 <= request.limit <= 100)
                ==> request.fault(max_timeout_ms) == Some("limit 必须在 1 到 100 之间"@)
            &&& query_is_fine && request.start <= 1_000 && 1 <= request.limit <= 100
                && request.fault(max_timeout_ms) is Some ==> request.fault(max_timeout_ms) == Some(
                "timeoutMs 必须在 1000 到 "@ + decimal(max_timeout_ms as nat) + " 之间"@,
            )
        }),
{
}

/// A normalized request asks for what the request asked for: the query without outer white space,
/// the same start and limit, and the same timeout, or the default of 30 seconds as far as it is
/// allowed.
pub proof fn normalizing_keeps_what_was_asked(request: SearchRequest, max_timeout_ms: u64)
    ensures
        ({
            let normal = request.normal_form(max_timeout_ms);
            &&& normal.query == trimmed(request.query@)
            &&& normal.start == request.start
            &&& normal.limit == request.limit
            &&& request.timeout_ms matches Some(timeout_ms) ==> normal.timeout_ms == timeout_ms
            &&& request.timeout_ms is None && max_timeout_ms >= 30_000 ==> normal.timeout_ms
                == 30_000
            &&& request.timeout_ms is None && max_timeout_ms < 30_000 ==> normal.timeout_ms
                == max_timeout_ms
        }),
{
}

/// The kinds of search and their names.
pub proof fn kinds_have_their_names(name: Seq<char>)
    ensures
        SearchKind::Web.name() == "web"@,
        SearchKind::News.name() == "news"@,
        SearchKind::Images.name() == "images"@,
        SearchKind::Videos.name() == "videos"@,
        SearchKind::Forums.name() == "forums"@,
        SearchKind::named(name) is Some <==> name == "web"@ || name == "news"@ || name == "images"@
            || name == "videos"@ || name == "forums"@,
{
}

/// Each kind of search has its own rules.
pub proof fn kinds_have_their_own_rules(search: SearchConfig)
    ensures
        search.rules(SearchKind::Web) == search.web,
        search.rules(SearchKind::News) == search.news,
        search.rules(SearchKind::Images) == search.images,
        search.rules(SearchKind::Videos) == search.videos,
        search.rules(SearchKind::Forums) == search.forums,
{
}

/// The fields that lead a result of each kind.
pub proof fn results_lead_with_these_fields()
    ensures
        SearchKind::Web.leading_fields() == seq!["title"@, "description"@, "url"@],
        SearchKind::News.leading_fields() == seq![
            "title"@,
            "description"@,
            "url"@,
            "source"@,
            "time"@,
        ],
        SearchKind::Images.leading_fields() == seq!["title"@, "imgurl"@, "url"@],
        SearchKind::Videos.leading_fields() == seq!["title"@, "description"@, "url"@, "duration"@],
        SearchKind::Forums.leading_fields() == seq!["title"@, "description"@, "url"@],
{
}

proof fn lemma_selected_in_order(
    entries: Seq<(Seq<char>, Seq<char>)>,
    keys: Seq<Seq<char>>,
) -> (places: Seq<int>)
    ensures
        places.len() == selected(entries, keys).len(),
        forall|k: int|
            0 <= k < places.len() ==> 0 <= #[trigger] places[k] < keys.len() && selected(
                entries,
                keys,
            )[k].0 == keys[places[k]],
        forall|k: int, l: int|
            0 <= k < l < places.len() ==> #[trigger] places[k] < #[trigger] places[l],
    decreases keys.len(),
{
    if keys.len() == 0 {
        Seq::empty()
    } else {
        let before = lemma_selected_in_order(entries, keys.drop_last());
        if lookup(entries, keys.last()) is Some {
            before.push(keys.len() - 1)
        } else {
            before
        }
    }
}

/// In a written result the leading fields of the kind come first, in their order, and the others
/// follow by name.
pub proof fn fields_are_written_in_order(
    kind: SearchKind,
    entries: Seq<(Seq<char>, Seq<char>)>,
    i: int,
    j: int,
)
    requires
        ascending(entries),
        0 <= i < j < ordered_fields(kind, entries).len(),
    ensures
        ({
            let first = ordered_fields(kind, entries)[i].0;
            let second = ordered_fields(kind, entries)[j].0;
            let keys = kind.leading_fields();
            &&& keys.contains(second) ==> exists|p: int, q: int|
                #![trigger keys[p], keys[q]]
                0 <= p < q < keys.len() && keys[p] == first && keys[q] == second
            &&& !keys.contains(first) ==> !keys.contains(second) && text_less(first, second)
        }),
{
    let keys = kind.leading_fields();
    let others = |entry: (Seq<char>, Seq<char>)| !keys.contains(entry.0);
    let start = selected(entries, keys);
    let last = entries.filter(others);
    let all = ordered_fields(kind, entries);
    let places = lemma_selected_in_order(entries, keys);
    leaving_out_entries_keeps_the_order(entries, others);
    if i < start.len() {
        assert(all[i] == start[i]);
        assert(keys[places[i]] == all[i].0);
    }
    if j < start.len() {
        assert(all[j] == start[j]);
        assert(places[i] < places[j]);
    } else {
        assert(all[j] == last[j - start.len()]);
        entries.lemma_filter_pred(others, j - start.len());
        if i >= start.len() {
            assert(all[i] == last[i - start.len()]);
            entries.lemma_filter_pred(others, i - start.len());
        }
    }
}

/// The parameters of a search address, one after the other: those of the configuration, the query,
/// the start unless images are searched for or it has no name, and the limit unless it has no name.
/// The limit is that of the rules, or else that of the request.
pub proof fn addresses_carry_what_was_asked(
    kind: SearchKind,
    request: RequestView,
    search: SearchConfig,
)
    ensures
        ({
            let common = search.common;
            let params = overlay(common.params@, search.rules(kind).params@);
            let pairs = query_pairs(kind, request, search);
            let n = params.len() as int;
            let has_start = !(kind is Images) && common.start_parameter@.len() > 0;
            let has_limit = common.limit_parameter@.len() > 0;
            let limit = match search.rules(kind).limit {
                Some(limit) => limit,
                None => request.limit,
            };
            &&& pairs.len() == n + 1 + (if has_start {
                1int
            } else {
                0int
            }) + (if has_limit {
                1int
            } else {
                0int
            })
            &&& forall|i: int| 0 <= i < n ==> #[trigger] pairs[i] == params[i]
            &&& pairs[n] == (common.query_parameter@, request.query)
            &&& has_start ==> pairs[n + 1] == (
                common.start_parameter@,
                decimal(request.start as nat),
            )
            &&& has_limit ==> pairs[pairs.len() - 1] == (
                common.limit_parameter@,
                decimal(limit as nat),
            )
            &&& effective_limit(kind, request.limit, search) == limit
        }),
{
}

proof fn lemma_digits_are_encoded_as_they_are(n: nat)
    ensures
        is_ascii_chars(decimal(n)),
        encoded(encode_utf8(decimal(n))) == decimal(n),
{
    lemma_decimal(n);
    let text = decimal(n);
    assert(is_ascii_chars(text)) by {
        assert forall|i: int| 0 <= i < text.len() implies '\0' <= #[trigger] text[i] <= '\u{7f}' by {
            these_are_digits(text[i]);
        }
    }
    is_ascii_chars_encode_utf8(text);
    lemma_plain_bytes(encode_utf8(text), text);
}

proof fn lemma_plain_bytes(bytes: Seq<u8>, text: Seq<char>)
    requires
        bytes.len() == text.len(),
        forall|i: int| 0 <= i < text.len() ==> is_digit(#[trigger] text[i]) && bytes[i] == text[i] as u8,
    ensures
        encoded(bytes) == text,
    decreases bytes.len(),
{
    if bytes.len() > 0 {
        let rest = bytes.drop_last();
        let start = text.drop_last();
        assert forall|i: int| 0 <= i < start.len() implies is_digit(#[trigger] start[i]) && rest[i]
            == start[i] as u8 by {
            assert(start[i] == text[i]);
        }
        lemma_plain_bytes(rest, start);
        let c = text[text.len() - 1];
        assert(is_digit(c));
        lemma_digit_byte(c, bytes.last());
        assert(encoded(bytes) =~= start.push(c));
        assert(start.push(c) =~= text);
    } else {
        assert(encoded(bytes) =~= text);
    }
}

proof fn lemma_digit_byte(c: char, byte: u8)
    requires
        is_digit(c),
        byte == c as u8,
    ensures
        encoded_byte(byte) == seq![c],
{
}

proof fn lemma_same_middle(start: Seq<char>, a: Seq<char>, b: Seq<char>, end: Seq<char>)
    requires
        start + a + end == start + b + end,
    ensures
        a == b,
{
    let left = start + a + end;
    let right = start + b + end;
    assert(left.len() == right.len());
    assert(a =~= left.subrange(start.len() as int, (start.len() + a.len()) as int));
    assert(b =~= right.subrange(start.len() as int, (start.len() + b.len()) as int));
}

/// Searches for different pages are sent to different addresses: two requests that differ in their
/// start have different addresses, unless images are searched for or the start has no name.
pub proof fn different_pages_have_different_addresses(
    kind: SearchKind,
    request: RequestView,
    start: u32,
    search: SearchConfig,
    base_url: Result<AddressParts, Seq<char>>,
)
    requires
        !(kind is Images),
        search.common.start_parameter@.len() > 0,
        start != request.start,
        search_address(kind, request, search, base_url) is Ok,
        search_address(kind, (RequestView { start, ..request }), search, base_url) is Ok,
    ensures
        search_address(kind, request, search, base_url) != search_address(
            kind,
            (RequestView { start, ..request }),
            search,
            base_url,
        ),
{
    let other = RequestView { start, ..request };
    let address = base_url->Ok_0;
    let common = search.common@;
    let first = overlay(common.params, search.rules(kind)@.params).push(
        (common.query_parameter, request.query),
    );
    let limit = (
        common.limit_parameter,
        decimal(effective_limit(kind, request.limit, search) as nat),
    );
    let a = query_pairs(kind, request, search);
    let b = query_pairs(kind, other, search);
    let has_limit = common.limit_parameter.len() > 0;
    different_numbers_are_written_differently(request.start as nat, start as nat);
    lemma_encoded_start(first, common.start_parameter, request.start as nat, limit, has_limit);
    lemma_encoded_start(first, common.start_parameter, start as nat, limit, has_limit);
    let before = encoded_before(first, common.start_parameter);
    let after = encoded_after(limit, has_limit);
    lemma_address_parts(address, a);
    lemma_address_parts(address, b);
    let head = address_before(address);
    let end = address_after(address);
    let x = decimal(request.start as nat);
    let y = decimal(start as nat);
    assert(address.with_pairs(a) == head + (before + x + after) + end);
    assert(address.with_pairs(b) == head + (before + y + after) + end);
    lemma_regroup(head, before, x, after, end);
    lemma_regroup(head, before, y, after, end);
    if address.with_pairs(a) == address.with_pairs(b) {
        lemma_same_middle(head + before, x, y, after + end);
    }
}

spec fn encoded_before(first: Seq<(Seq<char>, Seq<char>)>, name: Seq<char>) -> Seq<char> {
    encoded_pairs(first) + seq!['&'] + encoded(encode_utf8(name)) + seq!['=']
}

spec fn encoded_after(limit: (Seq<char>, Seq<char>), has_limit: bool) -> Seq<char> {
    if has_limit {
        seq!['&'] + encoded(encode_utf8(limit.0)) + seq!['='] + encoded(encode_utf8(limit.1))
    } else {
        Seq::empty()
    }
}

spec fn address_before(address: AddressParts) -> Seq<char> {
    address.head() + match address.query {
        None => seq!['?'],
        Some(query) => if query.len() > 0 {
            seq!['&']
        } else {
            Seq::empty()
        },
    }
}

spec fn address_after(address: AddressParts) -> Seq<char> {
    match address.fragment {
        Some(fragment) => seq!['#'] + fragment,
        None => Seq::empty(),
    }
}

proof fn lemma_encoded_start(
    first: Seq<(Seq<char>, Seq<char>)>,
    name: Seq<char>,
    n: nat,
    limit: (Seq<char>, Seq<char>),
    has_limit: bool,
)
    requires
        first.len() > 0,
    ensures
        encoded_pairs(
            if has_limit {
                first.push((name, decimal(n))).push(limit)
            } else {
                first.push((name, decimal(n)))
            },
        ) == encoded_before(first, name) + decimal(n) + encoded_after(limit, has_limit),
{
    lemma_digits_are_encoded_as_they_are(n);
    parameters_are_added_one_by_one(first, name, decimal(n));
    let pairs = first.push((name, decimal(n)));
    let start = encoded_before(first, name) + decimal(n);
    assert(encoded_pairs(pairs) == start);
    if has_limit {
        parameters_are_added_one_by_one(pairs, limit.0, limit.1);
        assert(pairs.push(limit) == pairs.push((limit.0, limit.1)));
        assert(start + seq!['&'] + encoded(encode_utf8(limit.0)) + seq!['='] + encoded(
            encode_utf8(limit.1),
        ) =~= start + encoded_after(limit, true));
    } else {
        assert(start + encoded_after(limit, false) =~= start);
    }
}

proof fn lemma_address_parts(address: AddressParts, pairs: Seq<(Seq<char>, Seq<char>)>)
    requires
        pairs.len() > 0,
    ensures
        address.with_pairs(pairs) == address_before(address) + encoded_pairs(pairs) + address_after(
            address,
        ),
{
    assert(address.with_pairs(pairs) =~= address_before(address) + encoded_pairs(pairs)
        + address_after(address));
}

proof fn lemma_regroup(
    head: Seq<char>,
    before: Seq<char>,
    x: Seq<char>,
    after: Seq<char>,
    end: Seq<char>,
)
    ensures
        head + (before + x + after) + end == (head + before) + x + (after + end),
{
    assert(head + (before + x + after) + end =~= (head + before) + x + (after + end));
}

/// A search has an address exactly if the base address is one with room for the parameters.
pub proof fn searches_have_an_address_iff_the_base_is_one(
    kind: SearchKind,
    request: RequestView,
    search: SearchConfig,
    address: AddressParts,
    text: Seq<char>,
)
    ensures
        search_address(kind, request, search, Err(text)) == Err::<Seq<char>, Seq<char>>(text),
        search_address(kind, request, search, Ok(address)) is Ok <==> address.has_room_for(
            query_pairs(kind, request, search),
        ),
        search_address(kind, request, search, Ok(address)) is Ok ==> search_address(
            kind,
            request,
            search,
            Ok(address),
        ) == Ok::<Seq<char>, Seq<char>>(address.with_pairs(query_pairs(kind, request, search))),
{
}

/// The extension is told what was asked for and how the rules of the kind read the page. No step may
/// take longer than the configuration allows or than the whole search.
pub proof fn commands_say_what_was_asked(
    kind: SearchKind,
    request: RequestView,
    config: Config,
    url: Seq<char>,
)
    ensures
        ({
            let command = command_at(kind, request, config, url);
            let profile = config.search.rules(kind);
            &&& command.kind == kind
            &&& command.query == request.query
            &&& command.start == request.start
            &&& command.limit == match profile.limit {
                Some(limit) => limit,
                None => request.limit,
            }
            &&& command.timeout_ms == request.timeout_ms
            &&& command.load_timeout_ms <= request.timeout_ms
            &&& command.load_timeout_ms <= config.executor.load_timeout_ms
            &&& command.load_timeout_ms == request.timeout_ms || command.load_timeout_ms
                == config.executor.load_timeout_ms
            &&& command.selector_timeout_ms <= request.timeout_ms
            &&& command.selector_timeout_ms <= config.executor.selector_timeout_ms
            &&& command.selector_timeout_ms == request.timeout_ms || command.selector_timeout_ms
                == config.executor.selector_timeout_ms
            &&& command.url == url
            &&& command.extraction.root_selectors == profile@.root_selectors
            &&& command.extraction.dedupe_field == profile@.dedupe_field
        }),
{
}

/// What the extension is told about a field is what its rule says.
pub proof fn fields_are_told_as_their_rules_say(rule: FieldRuleView, profile: ProfileView)
    ensures
        extraction_field(rule).selectors == rule.selectors,
        extraction_field(rule).attribute == rule.attribute,
        extraction_field(rule).transform == rule.transform,
        extraction_field(rule).required == rule.required,
        extraction_field(rule).max_length == rule.max_length,
        extraction_of(profile).root_selectors == profile.root_selectors,
        extraction_of(profile).dedupe_field == profile.dedupe_field,
        extraction_of(profile).fields.len() <= profile.fields.len(),
{
    profile.fields.lemma_filter_len(|entry: (Seq<char>, FieldRuleView)| entry.1.enabled);
}

/// The rules and commands are seen as what they hold.
pub proof fn rules_are_seen_as_they_are(
    rule: FieldRule,
    profile: SearchProfile,
    common: SearchCommonConfig,
    i: int,
)
    ensures
        rule@.enabled == rule.enabled,
        rule@.selectors.len() == rule.selectors@.len(),
        0 <= i < rule.selectors@.len() ==> rule@.selectors[i] == rule.selectors@[i]@,
        rule@.attribute is Some == rule.attribute is Some,
        rule.attribute matches Some(attribute) ==> rule@.attribute == Some(attribute@),
        rule@.transform == rule.transform,
        rule@.required == rule.required,
        rule@.max_length == rule.max_length,
        profile@.params == profile.params@,
        profile@.limit == profile.limit,
        profile@.root_selectors.len() == profile.root_selectors@.len(),
        0 <= i < profile.root_selectors@.len() ==> profile@.root_selectors[i]
            == profile.root_selectors@[i]@,
        profile@.dedupe_field == profile.dedupe_field@,
        profile@.fields == profile.fields@,
        common@.base_url == common.base_url@,
        common@.query_parameter == common.query_parameter@,
        common@.start_parameter == common.start_parameter@,
        common@.limit_parameter == common.limit_parameter@,
        common@.params == common.params@,
{
}

/// Commands and requests are seen as what they hold.
pub proof fn commands_are_seen_as_they_are(
    command: SearchCommand,
    rules: ExtractionRules,
    field: ExtractionFieldRule,
    request: NormalizedSearchRequest,
    i: int,
)
    ensures
        command@.kind == command.kind,
        command@.query == command.query@,
        command@.start == command.start,
        command@.limit == command.limit,
        command@.timeout_ms == command.timeout_ms,
        command@.load_timeout_ms == command.load_timeout_ms,
        command@.selector_timeout_ms == command.selector_timeout_ms,
        command@.url == command.url@,
        command@.extraction == command.extraction@,
        rules@.root_selectors.len() == rules.root_selectors@.len(),
        0 <= i < rules.root_selectors@.len() ==> rules@.root_selectors[i]
            == rules.root_selectors@[i]@,
        rules@.dedupe_field == rules.dedupe_field@,
        rules@.fields == rules.fields@,
        field@.selectors.len() == field.selectors@.len(),
        0 <= i < field.selectors@.len() ==> field@.selectors[i] == field.selectors@[i]@,
        field@.attribute is Some == field.attribute is Some,
        field.attribute matches Some(attribute) ==> field@.attribute == Some(attribute@),
        field@.transform == field.transform,
        field@.required == field.required,
        field@.max_length == field.max_length,
        request@.query == request.query@,
        request@.start == request.start,
        request@.limit == request.limit,
        request@.timeout_ms == request.timeout_ms,
{
}

/// A search is planned exactly if its kind exists, its body can be read and is accepted, and there
/// is an address for it. A request is refused for the first of these that fails.
pub proof fn searches_are_planned_iff_nothing_is_wrong(
    name: Seq<char>,
    payload: Result<SearchRequest, String>,
    config: Config,
    base_url: Result<AddressParts, Seq<char>>,
)
    ensures
        ({
            let fault = plan_fault(name, payload, config, base_url);
            let kind = SearchKind::named(name);
            &&& kind is None ==> fault == Some(
                (
                    ErrorCode::InvalidRequest,
                    "搜索类型必须是 web、news、images、videos 或 forums"@,
                ),
            )
            &&& kind is Some ==> (payload matches Err(text) ==> fault == Some(
                (ErrorCode::InvalidRequest, "请求 JSON 无效: "@ + text@),
            ))
            &&& kind is Some ==> (payload matches Ok(request) ==> {
                let limit = config.executor.max_timeout_ms;
                let address = search_address(
                    kind->0,
                    request.normal_form(limit),
                    config.search,
                    base_url,
                );
                &&& request.fault(limit) matches Some(message) ==> fault == Some(
                    (ErrorCode::InvalidRequest, message),
                )
                &&& request.fault(limit) is None ==> (fault is None <==> address is Ok)
                &&& request.fault(limit) is None ==> (address matches Err(text) ==> fault == Some(
                    (ErrorCode::InternalError, "搜索 base_url 无效: "@ + text),
                ))
            })
        }),
{
}

/// A caller is kept waiting a second longer than the search may take.
pub proof fn callers_wait_a_second_longer(timeout_ms: u64)
    ensures
        timeout_ms + 1_000 <= u64::MAX ==> saturating_sum(timeout_ms, 1_000) == timeout_ms + 1_000,
        timeout_ms + 1_000 > u64::MAX ==> saturating_sum(timeout_ms, 1_000) == u64::MAX,
{
}

/// Which status stands for which error.
pub proof fn errors_have_their_statuses()
    ensures
        status_of(ErrorCode::Unauthorized) == 401,
        status_of(ErrorCode::InvalidRequest) == 400,
        status_of(ErrorCode::ProtocolError) == 400,
        status_of(ErrorCode::BrowserUnavailable) == 503,
        status_of(ErrorCode::InstanceConflict) == 503,
        status_of(ErrorCode::QueueFull) == 429,
        status_of(ErrorCode::Timeout) == 504,
        status_of(ErrorCode::Cancelled) == 409,
        status_of(ErrorCode::NavigationFailed) == 422,
        status_of(ErrorCode::ExtractionFailed) == 422,
        status_of(ErrorCode::InternalError) == 500,
{
}

/// An error says exactly its code, its message and whether a retry can help.
pub proof fn errors_say_what_they_hold(
    error: ErrorDetail,
    code: ErrorCode,
    message: Seq<char>,
    retryable: bool,
)
    ensures
        error.says(code, message, retryable) <==> error.code == code && error.message@ == message
            && error.retryable == retryable,
{
}

} // verus!
