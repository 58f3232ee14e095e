//! What the client promises, said of its inputs and results alone.
use vstd::prelude::*;

use crate::cli::args::{SearchArgs, SearchCommand};
use crate::cli::client::{response_fault, shortened, spaced, words};
use crate::cli::environment::{base_fault, ends_in_slash, trimmed_value, Environment};
use crate::cli::error::CliError;
use crate::cli::model::{ErrorEnvelope, SearchKind, SearchRequest};
use crate::cli::pages::{
    allowed_concurrency, at_most, first_failure, gathered, page_plan, page_views, PageOutcome,
    PageRunView,
};
use crate::cli::results::{
    deduped, has_identity, identity_of, result_entries, the_first_result_stays, SearchResult,
};
use crate::ordered_map::lookup;
use crate::text::{decimal, is_white_space, trimmed};
use crate::web_address::AddressParts;

verus! {

/// Each planned request carries the query and the timeout that were asked for. An image search is
/// one request without start and limit. Any other search is planned in pages of ten, one after the
/// other from the first result on, as many as it takes and no more.
pub proof fn planned_requests_carry_what_was_asked(
    kind: SearchKind,
    query: Seq<char>,
    search_num: u32,
    timeout_ms: Option<u64>,
)
    ensures
        ({
            let plan = page_plan(kind, query, search_num, timeout_ms);
            &&& forall|i: int|
                0 <= i < plan.len() ==> (#[trigger] plan[i]).query == query && plan[i].timeout_ms
                    == timeout_ms
            &&& kind is Images ==> plan.len() == 1 && plan[0].start is None && plan[0].limit is None
            &&& !(kind is Images) ==> {
                &&& search_num <= plan.len() * 10 < search_num + 10
                &&& forall|i: int|
                    0 <= i < plan.len() ==> {
                        &&& (#[trigger] plan[i]).start matches Some(start)
                        &&& start == i * 10
                        &&& plan[i].limit == Some(10u32)
                    }
            }
        }),
{
}

/// The contents of a list of requests are those of its requests, one by one.
pub proof fn requests_are_seen_one_by_one(requests: Seq<SearchRequest>, i: int)
    requires
        0 <= i < requests.len(),
    ensures
        page_views(requests).len() == requests.len(),
        page_views(requests)[i].query == requests[i].query@,
        page_views(requests)[i].start == requests[i].start,
        page_views(requests)[i].limit == requests[i].limit,
        page_views(requests)[i].timeout_ms == requests[i].timeout_ms,
{
}

/// As many requests may be under way as the daemon takes, at least one, but no more than there are.
pub proof fn concurrency_is_that_of_the_daemon(max_concurrency: usize, requests: nat)
    ensures
        requests == 0 ==> allowed_concurrency(max_concurrency, requests) == 0,
        requests > 0 && max_concurrency == 0 ==> allowed_concurrency(max_concurrency, requests)
            == 1,
        0 < max_concurrency <= requests ==> allowed_concurrency(max_concurrency, requests)
            == max_concurrency,
        max_concurrency > requests ==> allowed_concurrency(max_concurrency, requests) == requests,
{
}

/// A request is started exactly if none has failed, one more may be under way, and one is left. The
/// run is over exactly if nothing is under way and nothing can be started any more for good.
pub proof fn requests_are_started_as_widely_as_allowed(run: PageRunView, index: int)
    ensures
        run.can_start() <==> !run.failed && run.in_flight < run.concurrency && run.started
            < run.requests.len(),
        run.is_done() <==> run.in_flight == 0 && (run.failed || run.started == run.requests.len()),
        run.awaits(index) <==> 0 <= index < run.started && run.pages[index] is None,
        run.wf() ==> run.in_flight <= run.concurrency && run.pages.len() == run.requests.len(),
        run.wf() && 0 <= index < run.pages.len() && run.pages[index] is Some
            && run.pages[index]->0 is Err ==> run.failed,
{
}

/// A run has failed only if some request has.
pub proof fn runs_fail_only_with_a_request(run: PageRunView) -> (i: int)
    requires
        run.wf(),
        run.failed,
    ensures
        0 <= i < run.pages.len(),
        run.pages[i] matches Some(Err(_)),
{
    choose|i: int|
        0 <= i < run.pages.len() && (#[trigger] run.pages[i]) is Some && run.pages[i]->0 is Err
}

/// Merging fails exactly if a page has failed, with the error of the first page that has.
pub proof fn merging_reports_the_first_failure(pages: Seq<Option<PageOutcome>>) -> (at: int)
    ensures
        match first_failure(pages) {
            None => forall|i: int|
                0 <= i < pages.len() ==> !((#[trigger] pages[i]) matches Some(Err(_))),
            Some(error) => {
                &&& 0 <= at < pages.len()
                &&& pages[at] matches Some(Err(found))
                &&& found == error
                &&& forall|i: int| 0 <= i < at ==> !((#[trigger] pages[i]) matches Some(Err(_)))
            },
        },
    decreases pages.len(),
{
    if pages.len() == 0 {
        0
    } else {
        let rest = pages.drop_last();
        let at = merging_reports_the_first_failure(rest);
        assert forall|i: int| 0 <= i < rest.len() implies #[trigger] pages[i] == rest[i] by {}
        if first_failure(rest) is Some {
            at
        } else {
            pages.len() - 1
        }
    }
}

/// The results of pages are gathered page after page: those of one page as they are, and those of
/// more pages after those of the first ones.
pub proof fn pages_are_gathered_in_order(
    first: Seq<Option<PageOutcome>>,
    second: Seq<Option<PageOutcome>>,
    results: Vec<SearchResult>,
    error: CliError,
)
    ensures
        gathered(first + second) == gathered(first) + gathered(second),
        gathered(seq![Some(Ok(results))]) == results@,
        gathered(seq![Some(Err(error))]).len() == 0,
        gathered(seq![None]).len() == 0,
        gathered(Seq::empty()).len() == 0,
    decreases second.len(),
{
    reveal_with_fuel(gathered, 2);
    assert(seq![Some(Ok::<Vec<SearchResult>, CliError>(results))].drop_last() =~= Seq::empty());
    assert(seq![Some(Err::<Vec<SearchResult>, CliError>(error))].drop_last() =~= Seq::empty());
    assert(seq![None::<PageOutcome>].drop_last() =~= Seq::empty());
    assert(Seq::<SearchResult>::empty() + results@ =~= results@);
    if second.len() == 0 {
        assert(first + second =~= first);
        assert(gathered(first) + gathered(second) =~= gathered(first));
    } else {
        pages_are_gathered_in_order(first, second.drop_last(), results, error);
        assert((first + second).drop_last() =~= first + second.drop_last());
        assert((first + second).last() == second.last());
        assert(gathered(first + second) =~= gathered(first) + gathered(second));
    }
}

/// Of merged results the first ones are kept, as many as were asked for or as there are.
pub proof fn the_first_results_are_kept(results: Seq<SearchResult>, n: nat)
    ensures
        at_most(results, n).len() == if results.len() < n {
            results.len()
        } else {
            n
        },
        forall|i: int|
            0 <= i < at_most(results, n).len() ==> #[trigger] at_most(results, n)[i] == results[i],
{
}

/// A result stays exactly if no earlier one is the same: has the same address, or, where neither has
/// one, holds the same entries in the same order. What stays keeps its order: `places` says where it
/// was.
pub proof fn results_stay_unless_repeated(results: Seq<SearchResult>) -> (places: Seq<int>)
    ensures
        places.len() == deduped(results).len(),
        forall|k: int, l: int|
            0 <= k < l < places.len() ==> #[trigger] places[k] < #[trigger] places[l],
        forall|k: int|
            0 <= k < places.len() ==> 0 <= #[trigger] places[k] < results.len() && deduped(
                results,
            )[k] == results[places[k]],
        forall|i: int| #![trigger results[i]]
            0 <= i < results.len() ==> (places.contains(i) <==> forall|j: int| #![trigger results[j]]
                0 <= j < i ==> {
                    let a = result_entries(results[i]);
                    let b = result_entries(results[j]);
                    let a_address = lookup(a, "url"@) is Some && lookup(a, "url"@)->0.len() > 0;
                    let b_address = lookup(b, "url"@) is Some && lookup(b, "url"@)->0.len() > 0;
                    &&& !(a_address && b_address && lookup(a, "url"@) == lookup(b, "url"@))
                    &&& !(!a_address && !b_address && a == b)
                }),
{
    let places = the_first_result_stays(results);
    lemma_first_ones_stay(results, places);
    assert forall|i: int| #![trigger results[i]] 0 <= i < results.len() implies (places.contains(i)
        <==> forall|j: int| #![trigger results[j]]
        0 <= j < i ==> {
            let a = result_entries(results[i]);
            let b = result_entries(results[j]);
            let a_address = lookup(a, "url"@) is Some && lookup(a, "url"@)->0.len() > 0;
            let b_address = lookup(b, "url"@) is Some && lookup(b, "url"@)->0.len() > 0;
            &&& !(a_address && b_address && lookup(a, "url"@) == lookup(b, "url"@))
            &&& !(!a_address && !b_address && a == b)
        }) by {
        let first = results.take(i);
        let key = identity_of(results[i]);
        assert(places.contains(i) <==> !has_identity(first, key));
        assert forall|j: int| #![trigger results[j]]
            0 <= j < i && identity_of(results[j]) == key implies has_identity(first, key) by {
            assert(first[j] == results[j]);
        }
        if has_identity(first, key) {
            let j = choose|j: int| 0 <= j < first.len() && identity_of(#[trigger] first[j]) == key;
            assert(results[j] == first[j]);
        }
    }
    places
}

proof fn lemma_first_ones_stay(results: Seq<SearchResult>, places: Seq<int>)
    requires
        places.len() == deduped(results).len(),
        forall|k: int|
            0 <= k < places.len() ==> {
                &&& 0 <= #[trigger] places[k] < results.len()
                &&& deduped(results)[k] == results[places[k]]
                &&& !has_identity(results.take(places[k]), identity_of(results[places[k]]))
            },
    ensures
        forall|i: int| #![trigger results[i]]
            0 <= i < results.len() ==> (places.contains(i) <==> !has_identity(
                results.take(i),
                identity_of(results[i]),
            )),
{
    crate::cli::results::every_identity_stays(results);
    assert forall|i: int| #![trigger results[i]] 0 <= i < results.len() implies (places.contains(i)
        <==> !has_identity(results.take(i), identity_of(results[i]))) by {
        let key = identity_of(results[i]);
        if places.contains(i) {
            let k = places.index_of(i);
            assert(places[k] == i);
        }
        if !has_identity(results.take(i), key) {
            assert(has_identity(results, key));
            assert(has_identity(deduped(results), key));
            let k = choose|k: int|
                0 <= k < deduped(results).len() && identity_of(#[trigger] deduped(results)[k])
                    == key;
            let place = places[k];
            if place < i {
                assert(results.take(i)[place] == results[place]);
            } else if place > i {
                assert(results.take(place)[i] == results[i]);
            }
            assert(place == i);
            assert(places[k] == i);
        }
    }
}

/// Options are accepted exactly if the query has one to 512 characters within its outer white space,
/// the timeout is not zero, and a page timeout is positive, at least two seconds shorter and can be
/// told in milliseconds.
pub proof fn options_are_accepted_iff_they_make_sense(args: SearchArgs)
    ensures
        args.fault() is None <==> {
            &&& 1 <= trimmed(args.query@).len() <= 512
            &&& args.timeout > 0
            &&& args.search_timeout matches Some(seconds) ==> {
                &&& seconds > 0
                &&& seconds + 2 <= args.timeout
                &&& seconds * 1_000 <= u64::MAX
            }
        },
{
}

/// A refusal names the first option that is at fault.
pub proof fn refusals_name_the_first_faulty_option(args: SearchArgs)
    ensures
        trimmed(args.query@).len() == 0 ==> args.fault() == Some("--query must not be empty"@),
        trimmed(args.query@).len() > 512 ==> args.fault() == Some(
            "--query must not exceed 512 characters"@,
        ),
        1 <= trimmed(args.query@).len() <= 512 && args.timeout == 0 ==> args.fault() == Some(
            "--timeout must be greater than 0"@,
        ),
        1 <= trimmed(args.query@).len() <= 512 && args.timeout > 0 ==> (
        args.search_timeout matches Some(seconds) ==> {
            &&& seconds == 0 ==> args.fault() == Some("--search-timeout must be greater than 0"@)
            &&& seconds > 0 && args.timeout < seconds + 2 ==> args.fault() == Some(
                "--timeout must be at least two seconds greater than --search-timeout"@,
            )
            &&& seconds > 0 && args.timeout >= seconds + 2 && seconds * 1_000 > u64::MAX
                ==> args.fault() == Some(
                "--search-timeout is too large to convert to milliseconds"@,
            )
        }),
{
}

/// Each subcommand searches its own kind with the options it was given.
pub proof fn subcommands_search_their_kinds(args: SearchArgs)
    ensures
        SearchCommand::Web(args).kind_of() is Web,
        SearchCommand::News(args).kind_of() is News,
        SearchCommand::Images(args).kind_of() is Images,
        SearchCommand::Videos(args).kind_of() is Videos,
        SearchCommand::Forums(args).kind_of() is Forums,
        SearchCommand::Web(args).args_of() == args,
        SearchCommand::News(args).args_of() == args,
        SearchCommand::Images(args).args_of() == args,
        SearchCommand::Videos(args).args_of() == args,
        SearchCommand::Forums(args).args_of() == args,
{
}

/// The names of the kinds of search.
pub proof fn kinds_have_their_names()
    ensures
        SearchKind::Web.name() == "web"@,
        SearchKind::News.name() == "news"@,
        SearchKind::Images.name() == "images"@,
        SearchKind::Videos.name() == "videos"@,
        SearchKind::Forums.name() == "forums"@,
{
}

/// The daemon is looked for where the environment says, without outer white space, or else at its
/// usual address.
pub proof fn the_base_address_is_that_of_the_environment(environment: Environment)
    ensures
        match environment.base_url {
            None => environment.base_text() == "http://127.0.0.1:17330"@,
            Some(text) => if trimmed(text@).len() == 0 {
                environment.base_text() == "http://127.0.0.1:17330"@
            } else {
                environment.base_text() == trimmed(text@)
            },
        },
        match environment.api_token {
            None => trimmed_value(environment.api_token).len() == 0,
            Some(token) => trimmed_value(environment.api_token) == trimmed(token@),
        },
{
}

/// A base address is refused exactly if it is none, has a query or a fragment, or has no room for
/// the slash that it needs.
pub proof fn base_addresses_are_refused_for_a_reason(address: AddressParts, text: Seq<char>)
    ensures
        base_fault(Err(text)) == Some("SEARCH_BASE_URL is invalid: "@ + text),
        base_fault(Ok(address)) is None <==> {
            &&& address.query is None
            &&& address.fragment is None
            &&& (address.path.len() > 0 && address.path[address.path.len() - 1] == '/')
                || address.has_room_for_slash()
        },
        ends_in_slash(address.path) <==> address.path.len() > 0 && address.path[address.path.len()
            - 1] == '/',
        address.query is Some || address.fragment is Some ==> base_fault(Ok(address)) == Some(
            "SEARCH_BASE_URL must not contain a query string or fragment"@,
        ),
{
}

/// A response is taken as what was asked for exactly if its status is 200 and its body can be read
/// so. Any other response is an error that tells the status.
pub proof fn responses_succeed_with_status_200<T>(
    status: u16,
    envelope: Option<ErrorEnvelope>,
    preview: Seq<char>,
    value: Result<T, String>,
)
    ensures
        response_fault(status, envelope, preview, value) is None <==> status == 200 && value is Ok,
        status < 200 || status >= 300 ==> response_fault(status, envelope, preview, value) == Some(
            match envelope {
                Some(envelope) => "API returned "@ + decimal(status as nat) + " ("@
                    + envelope.error.code@ + "): "@ + envelope.error.message@,
                None => if preview.len() == 0 {
                    "API returned HTTP "@ + decimal(status as nat)
                } else {
                    "API returned HTTP "@ + decimal(status as nat) + ": "@ + preview
                },
            },
        ),
        200 < status < 300 ==> response_fault(status, envelope, preview, value) == Some(
            "API returned unexpected success status "@ + decimal(status as nat),
        ),
        status == 200 ==> (value matches Err(text) ==> response_fault(
            status,
            envelope,
            preview,
            value,
        ) == Some("API response is invalid JSON: "@ + text@)),
{
}

/// A preview shows a text of up to 300 characters as it is, and of a longer one the first 300 and
/// three dots.
pub proof fn previews_show_the_start(text: Seq<char>)
    ensures
        text.len() <= 300 ==> shortened(text) == text,
        text.len() > 300 ==> {
            &&& shortened(text).len() == 303
            &&& forall|i: int| 0 <= i < 300 ==> #[trigger] shortened(text)[i] == text[i]
            &&& shortened(text)[300] == '.'
            &&& shortened(text)[301] == '.'
            &&& shortened(text)[302] == '.'
        },
{
    reveal_strlit("...");
}

/// A text without white space is one word.
pub proof fn solid_texts_are_words(text: Seq<char>)
    requires
        text.len() > 0,
        forall|i: int| 0 <= i < text.len() ==> !is_white_space(#[trigger] text[i]),
    ensures
        words(text) == seq![text],
    decreases text.len(),
{
    let rest = text.drop_last();
    if rest.len() == 0 {
        assert(words(rest) =~= Seq::empty());
        assert(text =~= seq![text.last()]);
        assert(words(text) =~= seq![text]);
    } else {
        assert forall|i: int| 0 <= i < rest.len() implies !is_white_space(#[trigger] rest[i]) by {
            assert(rest[i] == text[i]);
        }
        solid_texts_are_words(rest);
        assert(rest.push(text.last()) =~= text);
        assert(words(text) =~= seq![text]);
    }
}

/// White space parts words: the words of two texts with white space in between are those of the
/// first and then those of the second.
pub proof fn white_space_parts_words(first: Seq<char>, space: char, second: Seq<char>)
    requires
        is_white_space(space),
    ensures
        words(first.push(space) + second) == words(first) + words(second),
        words(Seq::empty()).len() == 0,
    decreases second.len(),
{
    let all = first.push(space) + second;
    if second.len() == 0 {
        assert(all =~= first.push(space));
        assert(all.drop_last() =~= first);
        assert(words(first) + words(second) =~= words(first));
    } else {
        let rest = second.drop_last();
        white_space_parts_words(first, space, rest);
        assert(all.drop_last() =~= first.push(space) + rest);
        assert(all.last() == second.last());
        if second.len() == 1 {
            assert(all[all.len() - 2] == space);
        } else {
            assert(all[all.len() - 2] == second[second.len() - 2]);
            crate::cli::client::lemma_words(rest);
            assert(rest.last() == second[second.len() - 2]);
        }
        assert(words(all) =~= words(first) + words(second));
    }
}

/// Words are set apart by single spaces.
pub proof fn words_are_set_apart_by_spaces(list: Seq<Seq<char>>, word: Seq<char>)
    ensures
        spaced(Seq::empty()).len() == 0,
        spaced(seq![word]) == word,
        list.len() > 0 ==> spaced(list.push(word)) == spaced(list) + seq![' '] + word,
{
    assert(list.push(word).drop_last() =~= list);
    if list.len() > 0 {
        assert(spaced(list).push(' ') + word =~= spaced(list) + seq![' '] + word);
    }
}

/// An error says what it was made of.
pub proof fn errors_say_what_they_were_made_of(message: String, text: Seq<char>)
    ensures
        CliError::Usage(message).text() == message@,
        CliError::Runtime(message).text() == message@,
        CliError::Usage(message).is_usage(text) <==> message@ == text,
        !CliError::Usage(message).is_runtime(text),
        CliError::Runtime(message).is_runtime(text) <==> message@ == text,
        !CliError::Runtime(message).is_usage(text),
{
}

} // verus!
