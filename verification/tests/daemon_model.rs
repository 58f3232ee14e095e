use browser_search::daemon::command::search_parameters;
use browser_search::daemon::config::{Config, FieldTransform};
use browser_search::daemon::error::{ApiError, ErrorCode, ErrorDetail};
use browser_search::daemon::model::{
    default_limit, SearchCommand, SearchKind, SearchRequest, SearchResponse, SearchResult,
    DEFAULT_TIMEOUT_MS, MAX_QUERY,
};
use indexmap::IndexMap;

fn request(query: &str, start: u32, limit: u32, timeout_ms: Option<u64>) -> SearchRequest {
    SearchRequest {
        query: query.to_owned(),
        start,
        limit,
        timeout_ms,
    }
}

fn refusal(request: SearchRequest) -> String {
    let error = request.normalized(&Config::default()).unwrap_err();
    assert_eq!(error.code, ErrorCode::InvalidRequest);
    assert!(!error.retryable);
    error.message
}

#[test]
fn canonical_search_kinds_are_supported() {
    assert_eq!(SearchKind::from_str("web").unwrap(), SearchKind::Web);
    assert_eq!(SearchKind::from_str("news").unwrap(), SearchKind::News);
    assert_eq!(SearchKind::from_str("images").unwrap(), SearchKind::Images);
    assert_eq!(SearchKind::from_str("videos").unwrap(), SearchKind::Videos);
    assert_eq!(SearchKind::from_str("forums").unwrap(), SearchKind::Forums);
}

#[test]
fn kinds_are_found_under_their_names() {
    for kind in [
        SearchKind::Web,
        SearchKind::News,
        SearchKind::Images,
        SearchKind::Videos,
        SearchKind::Forums,
    ] {
        assert_eq!(SearchKind::from_str(kind.as_str()).unwrap(), kind);
    }
}

#[test]
fn unknown_search_kinds_are_refused() {
    for name in ["", "Web", "web ", "maps"] {
        let error = SearchKind::from_str(name).unwrap_err();
        assert_eq!(error.code, ErrorCode::InvalidRequest);
        assert_eq!(
            error.message,
            "搜索类型必须是 web、news、images、videos 或 forums"
        );
        assert!(!error.retryable);
    }
}

#[test]
fn search_responses_use_endpoint_field_order() {
    fn serialize(kind: SearchKind, fields: &[&str]) -> String {
        let mut result = SearchResult::new();
        for field in fields {
            result.insert((*field).to_owned(), (*field).to_owned());
        }
        let ordered: Vec<IndexMap<String, String>> = SearchResponse::new(kind, vec![result])
            .ordered()
            .into_iter()
            .map(|fields| fields.into_iter().collect())
            .collect();
        serde_json::to_string(&ordered).unwrap()
    }

    assert_eq!(
        serialize(SearchKind::Web, &["url", "description", "title"]),
        r#"[{"title":"title","description":"description","url":"url"}]"#
    );
    assert_eq!(
        serialize(
            SearchKind::News,
            &["time", "source", "url", "description", "title"]
        ),
        r#"[{"title":"title","description":"description","url":"url","source":"source","time":"time"}]"#
    );
    assert_eq!(
        serialize(SearchKind::Images, &["url", "imgurl", "title"]),
        r#"[{"title":"title","imgurl":"imgurl","url":"url"}]"#
    );
    assert_eq!(
        serialize(
            SearchKind::Videos,
            &["duration", "url", "description", "title"]
        ),
        r#"[{"title":"title","description":"description","url":"url","duration":"duration"}]"#
    );
    assert_eq!(
        serialize(SearchKind::Forums, &["url", "description", "title"]),
        r#"[{"title":"title","description":"description","url":"url"}]"#
    );
}

#[test]
fn other_fields_follow_by_name() {
    let mut result = SearchResult::new();
    for field in ["zebra", "url", "apple"] {
        result.insert(field.to_owned(), format!("<{field}>"));
    }
    let lists = SearchResponse::new(SearchKind::Web, vec![result]).ordered();
    let expected: Vec<(String, String)> = [
        ("url", "<url>"),
        ("apple", "<apple>"),
        ("zebra", "<zebra>"),
    ]
    .iter()
    .map(|(name, value)| ((*name).to_owned(), (*value).to_owned()))
    .collect();
    assert_eq!(lists, vec![expected]);
}

#[test]
fn request_is_trimmed_and_validated() {
    let request = SearchRequest {
        query: "  Tokyo  ".into(),
        start: 10,
        limit: 10,
        timeout_ms: Some(30_000),
    }
    .normalized(&Config::default())
    .unwrap();
    assert_eq!(request.query, "Tokyo");
}

#[test]
fn normalizing_again_changes_nothing() {
    let config = Config::default();
    let first = request("\u{3000}Tokyo tower \n", 7, 3, None)
        .normalized(&config)
        .unwrap();
    assert_eq!(first.query, "Tokyo tower");
    assert_eq!(first.timeout_ms, DEFAULT_TIMEOUT_MS);
    let again = request(&first.query, first.start, first.limit, Some(first.timeout_ms))
        .normalized(&config)
        .unwrap();
    assert_eq!(again.query, first.query);
    assert_eq!(again.start, 7);
    assert_eq!(again.limit, 3);
    assert_eq!(again.timeout_ms, 30_000);
}

#[test]
fn faulty_requests_are_refused_one_fault_at_a_time() {
    assert_eq!(refusal(request(" \t\n", 2_000, 0, Some(1))), "query 不能为空");
    assert_eq!(
        refusal(request(&"字".repeat(513), 2_000, 0, Some(1))),
        "query 不能超过 512 个字符"
    );
    assert_eq!(refusal(request("x", 1_001, 0, Some(1))), "start 不能超过 1000");
    assert_eq!(
        refusal(request("x", 1_000, 0, Some(1))),
        "limit 必须在 1 到 100 之间"
    );
    assert_eq!(
        refusal(request("x", 0, 101, Some(1))),
        "limit 必须在 1 到 100 之间"
    );
    assert_eq!(
        refusal(request("x", 0, 100, Some(999))),
        "timeoutMs 必须在 1000 到 120000 之间"
    );
    assert_eq!(
        refusal(request("x", 0, 1, Some(120_001))),
        "timeoutMs 必须在 1000 到 120000 之间"
    );
    let longest = request(&"字".repeat(MAX_QUERY), 1_000, 100, Some(120_000));
    assert!(longest.normalized(&Config::default()).is_ok());
}

#[test]
fn command_is_built_from_search_config() {
    let mut config = Config::default();
    config
        .search
        .common
        .params
        .insert("udm".into(), "common".into());
    let request = SearchRequest {
        query: "Tokyo test".into(),
        start: 10,
        limit: 20,
        timeout_ms: Some(30_000),
    }
    .normalized(&config)
    .unwrap();
    let command = SearchCommand::new(SearchKind::Images, request, &config).unwrap();
    let url = url::Url::parse(&command.url).unwrap();
    let udm_values = url
        .query_pairs()
        .filter(|(name, _)| name == "udm")
        .map(|(_, value)| value.into_owned())
        .collect::<Vec<_>>();
    assert_eq!(udm_values, ["2"]);
    assert!(!url.query_pairs().any(|(name, _)| name == "start"));
    assert_eq!(
        url.query_pairs().find(|(name, _)| name == "num").unwrap().1,
        "100"
    );
    assert_eq!(command.limit, 100);
    assert_eq!(
        command.extraction.root_selectors,
        ["[data-snf][data-snm] [data-lpage]"]
    );
    let imgurl = command.extraction.fields.get("imgurl").unwrap();
    assert_eq!(imgurl.attribute.as_deref(), Some("src"));
    assert!(matches!(imgurl.transform, FieldTransform::AbsoluteUrl));
    assert_eq!(command.extraction.fields.get("url").unwrap().selectors, ["&"]);
    assert!(!command.extraction.fields.contains_key("image"));

    let request = SearchRequest {
        query: "Tokyo test".into(),
        start: 10,
        limit: 20,
        timeout_ms: Some(30_000),
    }
    .normalized(&config)
    .unwrap();
    let command = SearchCommand::new(SearchKind::Web, request, &config).unwrap();
    let url = url::Url::parse(&command.url).unwrap();
    assert_eq!(command.limit, 20);
    assert_eq!(
        url.query_pairs()
            .find(|(name, _)| name == "start")
            .unwrap()
            .1,
        "10"
    );
    assert_eq!(
        url.query_pairs().find(|(name, _)| name == "num").unwrap().1,
        "20"
    );
}

#[test]
fn search_addresses_are_encoded() {
    let mut config = Config::default();
    config.search.common.base_url = "https://example.test/find?lang=en".to_owned();
    let normalized = request("a&b c", 0, 5, None).normalized(&config).unwrap();
    let command = SearchCommand::new(SearchKind::Web, normalized, &config).unwrap();
    assert_eq!(
        command.url,
        "https://example.test/find?lang=en&udm=14&q=a%26b+c&start=0&num=5"
    );
    assert_eq!(command.timeout_ms, 30_000);
    assert_eq!(command.load_timeout_ms, 20_000);
    assert_eq!(command.selector_timeout_ms, 10_000);
}

#[test]
fn parameters_stand_between_query_and_fragment() {
    for (base_url, expected) in [
        ("https://a.test", "https://a.test/?udm=14&q=%C3%A9%2B%7E*&num=5"),
        ("https://a.test/?", "https://a.test/?udm=14&q=%C3%A9%2B%7E*&num=5"),
        (
            "https://a.test/?x=1#top",
            "https://a.test/?x=1&udm=14&q=%C3%A9%2B%7E*&num=5#top",
        ),
        (
            "https://a.test/p#",
            "https://a.test/p?udm=14&q=%C3%A9%2B%7E*&num=5#",
        ),
    ] {
        let mut config = Config::default();
        config.search.common.base_url = base_url.to_owned();
        config.search.common.start_parameter = String::new();
        let normalized = request("é+~*", 0, 5, None).normalized(&config).unwrap();
        let command = SearchCommand::new(SearchKind::Web, normalized, &config).unwrap();
        assert_eq!(command.url, expected);
    }
}

#[test]
fn steps_of_a_search_are_no_longer_than_the_search() {
    let config = Config::default();
    let normalized = request("x", 0, 5, Some(1_500)).normalized(&config).unwrap();
    let command = SearchCommand::new(SearchKind::News, normalized, &config).unwrap();
    assert_eq!(command.load_timeout_ms, 1_500);
    assert_eq!(command.selector_timeout_ms, 1_500);
}

#[test]
fn empty_parameter_names_leave_parameters_out() {
    let mut config = Config::default();
    config.search.common.start_parameter = String::new();
    config.search.common.limit_parameter = String::new();
    let normalized = request("x", 3, 5, None).normalized(&config).unwrap();
    let pairs = search_parameters(SearchKind::News, &normalized, &config);
    assert_eq!(
        pairs,
        vec![
            ("tbm".to_owned(), "nws".to_owned()),
            ("q".to_owned(), "x".to_owned()),
        ]
    );
}

#[test]
fn disabled_fields_are_not_told_to_the_extension() {
    let mut config = Config::default();
    let mut fields = config.search.web.fields;
    let mut rule = browser_search::daemon::config::FieldRule::default();
    rule.enabled = false;
    fields.insert("title".to_owned(), rule);
    config.search.web.fields = fields;
    let normalized = request("x", 0, 5, None).normalized(&config).unwrap();
    let command = SearchCommand::new(SearchKind::Web, normalized, &config).unwrap();
    assert_eq!(command.extraction.fields.len(), 2);
    assert!(!command.extraction.fields.contains_key("title"));
    assert!(command.extraction.fields.contains_key("url"));
}

#[test]
fn an_unusable_base_address_is_an_internal_error() {
    let mut config = Config::default();
    config.search.common.base_url = "not an address".to_owned();
    let normalized = request("x", 0, 5, None).normalized(&config).unwrap();
    let error = SearchCommand::new(SearchKind::Web, normalized, &config).unwrap_err();
    assert_eq!(error.code, ErrorCode::InternalError);
    assert_eq!(
        error.message,
        "搜索 base_url 无效: relative URL without a base"
    );
    assert!(!error.retryable);
}

#[test]
fn omitted_timeout_uses_configured_maximum_below_default() {
    let mut config = Config::default();
    config.executor.max_timeout_ms = 1_000;
    let request = SearchRequest {
        query: "Tokyo".to_owned(),
        start: 0,
        limit: default_limit(),
        timeout_ms: None,
    };

    let normalized = request.normalized(&config).unwrap();

    assert_eq!(normalized.timeout_ms, 1_000);

    let explicit = SearchRequest {
        query: "Tokyo".to_owned(),
        start: 0,
        limit: default_limit(),
        timeout_ms: Some(30_000),
    };
    assert!(explicit.normalized(&config).is_err());
}

#[test]
fn requests_ask_for_ten_results_by_default() {
    assert_eq!(default_limit(), 10);
}

#[test]
fn error_codes_have_their_statuses() {
    for (code, status) in [
        (ErrorCode::Unauthorized, 401),
        (ErrorCode::InvalidRequest, 400),
        (ErrorCode::ProtocolError, 400),
        (ErrorCode::BrowserUnavailable, 503),
        (ErrorCode::InstanceConflict, 503),
        (ErrorCode::QueueFull, 429),
        (ErrorCode::Timeout, 504),
        (ErrorCode::Cancelled, 409),
        (ErrorCode::NavigationFailed, 422),
        (ErrorCode::ExtractionFailed, 422),
        (ErrorCode::InternalError, 500),
    ] {
        let error = ApiError::from_detail(ErrorDetail::new(code, "x".to_owned(), true));
        assert_eq!(error.status, status);
        assert_eq!(error.detail.code, code);
    }
}
