use browser_search::cli::args::{parse_search_num, Cli, SearchArgs, SearchCommand};
use browser_search::cli::client::{
    client_error, compact, endpoint, interpret_response, parse_response, request_error,
    response_preview, search_action, search_path, shorten, usable_endpoint, RawResponse,
    RESPONSE_PREVIEW_MAX, STATUS_PATH,
};
use browser_search::cli::environment::{has_final_slash, usable_base, Environment};
use browser_search::cli::error::CliError;
use browser_search::cli::model::{ApiErrorDetail, ErrorEnvelope, SearchKind, StatusResponse};
use browser_search::cli::pages::{check_status, merge_pages, page_requests, PageOutcome, PageRun};
use browser_search::cli::results::{
    address_identity, first_occurrences, stable_dedupe, SearchResult,
};
use indexmap::IndexMap;

fn arguments(query: &str, timeout: u64, search_timeout: Option<u64>) -> SearchArgs {
    SearchArgs {
        query: query.to_owned(),
        search_num: 10,
        timeout,
        search_timeout,
    }
}

fn web(arguments: SearchArgs) -> Cli {
    Cli {
        command: SearchCommand::Web(arguments),
    }
}

fn usage(arguments: SearchArgs) -> String {
    let error = web(arguments).resolve().unwrap_err();
    assert_eq!(error.exit_code(), 2);
    error.message().to_owned()
}

fn found(position: u32) -> SearchResult {
    let mut result = IndexMap::new();
    result.insert("title".to_owned(), format!("result-{position}"));
    result.insert("description".to_owned(), format!("description-{position}"));
    result.insert("url".to_owned(), format!("https://example.com/{position}"));
    result
}

fn page(start: u32, count: u32) -> Vec<SearchResult> {
    (start..start + count).map(found).collect()
}

#[test]
fn resolves_shared_search_options() {
    let cli = Cli {
        command: SearchCommand::Videos(SearchArgs {
            query: "  Tokyo travel  ".to_owned(),
            search_num: parse_search_num("25").unwrap(),
            timeout: 45,
            search_timeout: Some(30),
        }),
    };
    let resolved = cli.resolve().unwrap();
    assert_eq!(resolved.kind.as_str(), "videos");
    assert_eq!(resolved.query, "Tokyo travel");
    assert_eq!(resolved.search_num, 25);
    assert_eq!(resolved.timeout_seconds, 45);
    assert_eq!(resolved.search_timeout_ms, Some(30_000));
}

#[test]
fn rejects_invalid_counts_and_timeouts() {
    for count in ["0", "101"] {
        assert!(parse_search_num(count).is_err());
    }

    let zero_timeout = web(arguments("x", 0, None));
    assert!(zero_timeout.resolve().is_err());

    let zero_search_timeout = web(arguments("x", 120, Some(0)));
    assert!(zero_search_timeout.resolve().is_err());

    for timeout in [120, 121] {
        let conflicting_timeouts = web(arguments("x", timeout, Some(120)));
        assert!(conflicting_timeouts.resolve().is_err());
    }

    let safe_timeouts = web(arguments("x", 122, Some(120)));
    assert!(safe_timeouts.resolve().is_ok());
}

#[test]
fn counts_are_read() {
    assert_eq!(parse_search_num("1"), Ok(1));
    assert_eq!(parse_search_num("+100"), Ok(100));
    assert_eq!(parse_search_num("007"), Ok(7));
    for count in ["", "+", "-1", " 5", "5.0", "4294967297", "ten"] {
        assert_eq!(
            parse_search_num(count),
            Err("must be an integer from 1 to 100".to_owned())
        );
    }
}

#[test]
fn faulty_options_are_refused_one_fault_at_a_time() {
    assert_eq!(
        usage(arguments(" ", 0, Some(0))),
        "--query must not be empty"
    );
    assert_eq!(
        usage(arguments(&"é".repeat(513), 0, Some(0))),
        "--query must not exceed 512 characters"
    );
    assert_eq!(
        usage(arguments("x", 0, Some(0))),
        "--timeout must be greater than 0"
    );
    assert_eq!(
        usage(arguments("x", 1, Some(0))),
        "--search-timeout must be greater than 0"
    );
    assert_eq!(
        usage(arguments("x", u64::MAX, Some(u64::MAX))),
        "--timeout must be at least two seconds greater than --search-timeout"
    );
    assert_eq!(
        usage(arguments("x", u64::MAX, Some(u64::MAX - 2))),
        "--search-timeout is too large to convert to milliseconds"
    );
}

#[test]
fn subcommands_stand_for_kinds() {
    let make = || arguments("x", 120, None);
    for (command, name) in [
        (SearchCommand::Web(make()), "web"),
        (SearchCommand::News(make()), "news"),
        (SearchCommand::Images(make()), "images"),
        (SearchCommand::Videos(make()), "videos"),
        (SearchCommand::Forums(make()), "forums"),
    ] {
        assert_eq!(command.kind().as_str(), name);
        assert_eq!(command.args().query, "x");
        let resolved = Cli { command }.resolve().unwrap();
        assert_eq!(resolved.kind.as_str(), name);
        assert_eq!(resolved.search_timeout_ms, None);
    }
}

#[test]
fn paginates_concurrently_merges_in_page_order_and_preserves_field_order() {
    let requests = page_requests(SearchKind::Web, "Tokyo", 100, Some(30_000));
    assert_eq!(requests.len(), 10);
    let mut starts = Vec::new();
    for request in &requests {
        assert_eq!(request.query, "Tokyo");
        assert_eq!(request.limit, Some(10));
        assert_eq!(request.timeout_ms, Some(30_000));
        starts.push(request.start.unwrap());
    }
    assert_eq!(starts, [0, 10, 20, 30, 40, 50, 60, 70, 80, 90]);

    let mut run = PageRun::new(requests, 3);
    let mut under_way = Vec::new();
    let mut max_active = 0;
    while !run.is_done() {
        while let Some((index, request)) = run.start_next() {
            under_way.push((index, request.start.unwrap()));
        }
        max_active = max_active.max(under_way.len());
        let (index, start) = under_way.pop().unwrap();
        assert!(run.is_under_way(index));
        run.finish(index, Ok(page(start, 10)));
        assert!(!run.is_under_way(index));
    }
    assert_eq!(max_active, 3);
    let results = merge_pages(run.into_pages(), 100).unwrap();
    assert_eq!(results.len(), 100);
    assert_eq!(
        results[0].keys().map(String::as_str).collect::<Vec<_>>(),
        ["title", "description", "url"]
    );
    assert_eq!(results[0]["title"], "result-0");
    assert_eq!(results[10]["title"], "result-10");
    assert_eq!(results[99]["title"], "result-99");
}

#[test]
fn arbitrary_result_counts_round_up_pages_then_truncate() {
    let requests = page_requests(SearchKind::Web, "Tokyo", 25, None);
    assert_eq!(requests.len(), 3);
    let starts: Vec<u32> = requests
        .iter()
        .map(|request| request.start.unwrap())
        .collect();
    assert_eq!(starts, [0, 10, 20]);
    let pages = starts
        .into_iter()
        .map(|start| Some(Ok(page(start, 10))))
        .collect();
    let results = merge_pages(pages, 25).unwrap();
    assert_eq!(results.len(), 25);
}

#[test]
fn page_failure_stops_scheduling_remaining_requests() {
    let requests = page_requests(SearchKind::Web, "Tokyo", 100, None);
    let mut run = PageRun::new(requests, 3);
    let mut starts = Vec::new();
    while let Some((_, request)) = run.start_next() {
        starts.push(request.start.unwrap());
    }
    let failure = || {
        interpret_response::<Vec<SearchResult>>(
            422,
            Some(ErrorEnvelope {
                error: ApiErrorDetail {
                    code: "extraction_failed".to_owned(),
                    message: "configured page failure".to_owned(),
                    retryable: false,
                },
            }),
            "",
            Err("not a list".to_owned()),
        )
    };
    run.finish(0, failure());
    assert!(run.start_next().is_none());
    assert!(!run.is_done());
    run.finish(2, Ok(page(20, 10)));
    run.finish(1, Ok(page(10, 10)));
    assert!(run.start_next().is_none());
    assert!(run.is_done());
    let error = merge_pages(run.into_pages(), 100).unwrap_err();
    assert!(error.message().contains("extraction_failed"));
    assert_eq!(
        error.message(),
        "API returned 422 (extraction_failed): configured page failure"
    );
    assert_eq!(starts, [0, 10, 20]);
}

#[test]
fn images_use_one_full_page_request_then_apply_the_requested_count() {
    let requests = page_requests(SearchKind::Images, "Tokyo", 5, None);
    assert_eq!(requests.len(), 1);
    assert!(requests[0].start.is_none());
    assert!(requests[0].limit.is_none());
    let run = PageRun::new(requests, 4);
    assert!(!run.is_done());
    let results = merge_pages(vec![Some(Ok(page(0, 12)))], 5).unwrap();
    assert_eq!(results.len(), 5);
}

#[test]
fn merged_pages_keep_the_first_result_for_each_url() {
    let mut first = IndexMap::new();
    first.insert("title".to_owned(), "first".to_owned());
    first.insert("url".to_owned(), "https://example.com/shared".to_owned());
    let mut duplicate = IndexMap::new();
    duplicate.insert("title".to_owned(), "duplicate".to_owned());
    duplicate.insert("url".to_owned(), "https://example.com/shared".to_owned());
    let mut unique = IndexMap::new();
    unique.insert("title".to_owned(), "unique".to_owned());
    unique.insert("url".to_owned(), "https://example.com/unique".to_owned());

    let mut results = vec![first, duplicate, unique];
    stable_dedupe(&mut results);

    assert_eq!(results.len(), 2);
    assert_eq!(results[0]["title"], "first");
    assert_eq!(results[1]["title"], "unique");

    stable_dedupe(&mut results);
    assert_eq!(results.len(), 2);
}

#[test]
fn results_without_an_address_are_the_same_if_all_fields_are() {
    let make = |entries: &[(&str, &str)]| {
        entries
            .iter()
            .map(|(name, value)| ((*name).to_owned(), (*value).to_owned()))
            .collect::<SearchResult>()
    };
    let mut results = vec![
        make(&[("title", "a"), ("url", "")]),
        make(&[("title", "a"), ("url", "")]),
        make(&[("url", ""), ("title", "a")]),
        make(&[("title", "a")]),
        make(&[("title", "b")]),
        make(&[("title", "a")]),
        make(&[]),
        make(&[]),
    ];
    stable_dedupe(&mut results);
    assert_eq!(
        results,
        vec![
            make(&[("title", "a"), ("url", "")]),
            make(&[("url", ""), ("title", "a")]),
            make(&[("title", "a")]),
            make(&[("title", "b")]),
            make(&[]),
        ]
    );
}

#[test]
fn addresses_identify() {
    let url = "https://a.test/".to_owned();
    assert_eq!(
        address_identity(Some(&url)).as_deref(),
        Some("url\0https://a.test/")
    );
    assert_eq!(address_identity(Some(&String::new())), None);
    assert_eq!(address_identity(None), None);
}

#[test]
fn first_occurrences_are_marked() {
    let keys: Vec<String> = ["a", "b", "a", "", "b", ""]
        .iter()
        .map(|key| (*key).to_owned())
        .collect();
    assert_eq!(
        first_occurrences(&keys),
        [true, true, false, true, false, false]
    );
}

#[test]
fn merging_reports_the_first_failed_page_and_skips_missing_ones() {
    let pages: Vec<Option<PageOutcome>> = vec![
        Some(Ok(page(0, 1))),
        None,
        Some(Err(CliError::runtime("first".to_owned()))),
        Some(Err(CliError::usage("second".to_owned()))),
    ];
    assert_eq!(merge_pages(pages, 10).unwrap_err().message(), "first");
    let pages: Vec<Option<PageOutcome>> = vec![Some(Ok(page(0, 2))), None, Some(Ok(page(1, 2)))];
    let titles: Vec<String> = merge_pages(pages, 10)
        .unwrap()
        .into_iter()
        .map(|result| result["title"].clone())
        .collect();
    assert_eq!(titles, ["result-0", "result-1", "result-2"]);
    assert!(merge_pages(vec![Some(Ok(page(0, 2)))], 0).unwrap().is_empty());
}

#[test]
fn page_runs_are_as_wide_as_daemon_and_requests_allow() {
    for (limit, count, expected) in [(0, 3, 1), (2, 3, 2), (9, 3, 3)] {
        let requests = page_requests(SearchKind::News, "x", count * 10, None);
        let mut run = PageRun::new(requests, limit);
        let mut started = 0;
        while run.start_next().is_some() {
            started += 1;
        }
        assert_eq!(started, expected);
    }
    assert!(PageRun::new(Vec::new(), 5).is_done());
}

#[test]
fn environment_requires_a_token_and_normalizes_the_base_url() {
    let missing = Environment {
        base_url: None,
        api_token: None,
    }
    .resolve()
    .unwrap_err();
    assert_eq!(missing.exit_code(), 2);

    let resolved = Environment {
        base_url: Some("http://127.0.0.1:17330/base".to_owned()),
        api_token: Some(" token ".to_owned()),
    }
    .resolve()
    .unwrap();
    assert_eq!(resolved.base_url.as_str(), "http://127.0.0.1:17330/base/");
    assert_eq!(resolved.api_token, "token");
}

#[test]
fn environment_accepts_https_base_urls() {
    let resolved = Environment {
        base_url: Some("https://search.example.test/api".to_owned()),
        api_token: Some("token".to_owned()),
    }
    .resolve()
    .unwrap();

    assert_eq!(
        resolved.base_url.as_str(),
        "https://search.example.test/api/"
    );
}

#[test]
fn the_environment_is_checked_and_completed() {
    let resolve = |base_url: Option<&str>, api_token: &str| {
        Environment {
            base_url: base_url.map(str::to_owned),
            api_token: Some(api_token.to_owned()),
        }
        .resolve()
    };
    assert_eq!(
        resolve(None, " \t").unwrap_err().message(),
        "SEARCH_API_KEY is required"
    );
    for base_url in [None, Some("  "), Some("http://127.0.0.1:17330")] {
        assert_eq!(
            resolve(base_url, "token").unwrap().base_url,
            "http://127.0.0.1:17330/"
        );
    }
    assert_eq!(
        resolve(Some("nowhere"), "token").unwrap_err().message(),
        "SEARCH_BASE_URL is invalid: relative URL without a base"
    );
    for base_url in ["http://a.test/?x=1", "http://a.test/#x"] {
        let error = resolve(Some(base_url), "token").unwrap_err();
        assert_eq!(
            error.message(),
            "SEARCH_BASE_URL must not contain a query string or fragment"
        );
        assert_eq!(error.exit_code(), 2);
    }
    assert_eq!(
        resolve(Some("foo://host"), "token").unwrap().base_url,
        "foo://host/"
    );
    assert_eq!(
        resolve(Some("mailto:x"), "token").unwrap().base_url,
        "mailto:x/"
    );
    assert_eq!(
        resolve(Some("mailto:"), "token").unwrap().base_url,
        "mailto:%2F"
    );
    assert!(has_final_slash("/a/"));
    assert!(!has_final_slash("/a"));
    assert!(!has_final_slash(""));
    assert_eq!(
        usable_base(Err("x".to_owned())).unwrap_err().message(),
        "SEARCH_BASE_URL is invalid: x"
    );
}

#[test]
fn endpoints_are_seen_from_the_base_address() {
    assert_eq!(
        endpoint("http://a.test/base/", &search_path(SearchKind::News)).unwrap(),
        "http://a.test/base/v1/search/news"
    );
    assert_eq!(
        endpoint("http://a.test/", STATUS_PATH).unwrap(),
        "http://a.test/v1/status"
    );
    let error = endpoint("mailto:x", STATUS_PATH).unwrap_err();
    assert_eq!(error.exit_code(), 1);
    assert_eq!(
        error.message(),
        "failed to build API URL: relative URL with a cannot-be-a-base base"
    );
    assert_eq!(
        usable_endpoint(Err("x".to_owned())).unwrap_err().message(),
        "failed to build API URL: x"
    );
}

#[test]
fn responses_are_interpreted() {
    let response = |status: u16, body: &str, value: Result<u32, String>| {
        parse_response(RawResponse {
            status,
            body: Ok(body.as_bytes().to_vec()),
            envelope: None,
            value,
        })
    };
    assert_eq!(response(200, "7", Ok(7)).unwrap(), 7);
    let text = |result: Result<u32, CliError>| {
        let error = result.unwrap_err();
        assert_eq!(error.exit_code(), 1);
        error.message().to_owned()
    };
    assert_eq!(
        text(response(200, "x", Err("expected value".to_owned()))),
        "API response is invalid JSON: expected value"
    );
    assert_eq!(
        text(response(204, "", Ok(7))),
        "API returned unexpected success status 204"
    );
    assert_eq!(text(response(502, " \n ", Ok(7))), "API returned HTTP 502");
    assert_eq!(
        text(response(404, "  not\n\n found ", Ok(7))),
        "API returned HTTP 404: not found"
    );
    assert_eq!(
        text(parse_response(RawResponse {
            status: 200,
            body: Err("reset".to_owned()),
            envelope: None,
            value: Ok(7),
        })),
        "failed to read API response body: reset"
    );
    assert_eq!(
        text(interpret_response(199, None, "odd", Ok(7))),
        "API returned HTTP 199: odd"
    );
    assert_eq!(
        text(interpret_response(300, None, "", Ok(7))),
        "API returned HTTP 300"
    );
}

#[test]
fn previews_are_compact_and_short() {
    assert_eq!(response_preview(b"  a \t b\r\nc  "), "a b c");
    assert_eq!(response_preview(b""), "");
    assert_eq!(response_preview(&[0x61, 0xff, 0x62]), "a\u{fffd}b");
    assert_eq!(response_preview("a\u{3000}b".as_bytes()), "a b");
    let exact = "é".repeat(RESPONSE_PREVIEW_MAX);
    assert_eq!(response_preview(exact.as_bytes()), exact);
    let longer = format!("{exact}x");
    assert_eq!(response_preview(longer.as_bytes()), format!("{exact}..."));
    assert_eq!(compact(" x  y"), "x y");
    assert_eq!(shorten("x  y"), "x  y");
}

#[test]
fn failures_of_requests_are_described() {
    assert_eq!(
        request_error("read daemon status", "refused").message(),
        "failed to read daemon status: refused"
    );
    assert_eq!(
        request_error(&search_action(SearchKind::Web), "refused").message(),
        "failed to search web: refused"
    );
    assert_eq!(
        client_error("no TLS").message(),
        "failed to initialize HTTP client: no TLS"
    );
}

#[test]
fn a_daemon_without_an_extension_is_refused() {
    let status = |extension_connected| StatusResponse {
        extension_connected,
        max_concurrency: 1,
    };
    assert!(check_status(&status(true)).is_ok());
    let error = check_status(&status(false)).unwrap_err();
    assert_eq!(error.message(), "Chrome extension is not connected");
    assert_eq!(error.exit_code(), 1);
}
