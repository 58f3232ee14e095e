use browser_search::daemon::config::{Cli, Config, FieldTransform, SearchProfile};
use browser_search::daemon::settings::{merge_toml, Settings};
use browser_search::daemon::settings_file::{file_settings, parse_settings};
use browser_search::daemon::token::random_token;
use browser_search::ordered_map::OrderedMap;

fn no_arguments() -> Cli {
    Cli {
        config: None,
        listen: None,
        bridge_listen: None,
        api_token: None,
        extension_token: None,
        max_concurrency: None,
    }
}

/// The TOML text of the value under a path.
fn setting<'a>(tree: &'a Settings, path: &[&str]) -> Option<&'a str> {
    let mut tree = tree;
    for name in path {
        tree = match tree {
            Settings::Table(entries) => &entries.iter().find(|entry| entry.0 == *name)?.1,
            Settings::Value(_) => return None,
        };
    }
    match tree {
        Settings::Table(_) => None,
        Settings::Value(text) => Some(text),
    }
}

fn table<const N: usize>(entries: [(&str, toml::Value); N]) -> toml::Value {
    toml::Value::Table(
        entries
            .into_iter()
            .map(|(name, value)| (name.to_owned(), value))
            .collect(),
    )
}

fn text(text: &str) -> toml::Value {
    toml::Value::String(text.to_owned())
}

fn number(number: u64) -> toml::Value {
    toml::Value::Integer(number as i64)
}

fn texts(values: &[String]) -> toml::Value {
    toml::Value::Array(values.iter().cloned().map(toml::Value::String).collect())
}

fn parameters(params: &OrderedMap<String>) -> toml::Value {
    toml::Value::Table(
        (0..params.len())
            .map(|i| (params.key_at(i).clone(), text(params.value_at(i))))
            .collect(),
    )
}

fn rules(profile: &SearchProfile) -> toml::Value {
    let mut fields = toml::Table::new();
    for i in 0..profile.fields.len() {
        let rule = profile.fields.value_at(i);
        let mut field = toml::Table::new();
        field.insert("enabled".to_owned(), toml::Value::Boolean(rule.enabled));
        field.insert("selectors".to_owned(), texts(&rule.selectors));
        if let Some(attribute) = &rule.attribute {
            field.insert("attribute".to_owned(), text(attribute));
        }
        let transform = match rule.transform {
            FieldTransform::Unchanged => "none",
            FieldTransform::AbsoluteUrl => "absolute_url",
            FieldTransform::GoogleUrl => "google_url",
        };
        field.insert("transform".to_owned(), text(transform));
        field.insert("required".to_owned(), toml::Value::Boolean(rule.required));
        fields.insert(profile.fields.key_at(i).clone(), toml::Value::Table(field));
    }
    let mut table = toml::Table::new();
    table.insert("params".to_owned(), parameters(&profile.params));
    if let Some(limit) = profile.limit {
        table.insert("limit".to_owned(), number(limit.into()));
    }
    table.insert("root_selectors".to_owned(), texts(&profile.root_selectors));
    table.insert("dedupe_field".to_owned(), text(&profile.dedupe_field));
    table.insert("fields".to_owned(), toml::Value::Table(fields));
    toml::Value::Table(table)
}

fn whole(config: &Config) -> toml::Value {
    table([
        (
            "server",
            table([
                ("listen", text(&config.server.listen)),
                ("api_token", text(&config.server.api_token)),
                ("allow_cors", toml::Value::Boolean(config.server.allow_cors)),
            ]),
        ),
        (
            "bridge",
            table([
                ("listen", text(&config.bridge.listen)),
                ("extension_token", text(&config.bridge.extension_token)),
                (
                    "browser_instance_id",
                    text(&config.bridge.browser_instance_id),
                ),
                (
                    "ping_interval_seconds",
                    number(config.bridge.ping_interval_seconds),
                ),
            ]),
        ),
        (
            "executor",
            table([
                (
                    "max_concurrency",
                    number(config.executor.max_concurrency as u64),
                ),
                (
                    "min_operation_interval",
                    number(config.executor.min_operation_interval.into()),
                ),
                (
                    "max_queue_size",
                    number(config.executor.max_queue_size as u64),
                ),
                ("max_timeout_ms", number(config.executor.max_timeout_ms)),
                ("load_timeout_ms", number(config.executor.load_timeout_ms)),
                (
                    "selector_timeout_ms",
                    number(config.executor.selector_timeout_ms),
                ),
            ]),
        ),
        (
            "search",
            table([
                (
                    "common",
                    table([
                        ("base_url", text(&config.search.common.base_url)),
                        (
                            "query_parameter",
                            text(&config.search.common.query_parameter),
                        ),
                        (
                            "start_parameter",
                            text(&config.search.common.start_parameter),
                        ),
                        (
                            "limit_parameter",
                            text(&config.search.common.limit_parameter),
                        ),
                        ("params", parameters(&config.search.common.params)),
                    ]),
                ),
                ("web", rules(&config.search.web)),
                ("news", rules(&config.search.news)),
                ("images", rules(&config.search.images)),
                ("videos", rules(&config.search.videos)),
                ("forums", rules(&config.search.forums)),
            ]),
        ),
    ])
}

#[test]
fn default_rules_are_loaded_from_toml() {
    let config = Config::default();
    assert_eq!(config.executor.min_operation_interval, 4000);
    assert_eq!(config.search.web.root_selectors, ["[data-snc]"]);
    assert_eq!(
        config.search.web.params.get("udm").map(String::as_str),
        Some("14")
    );
    let web = &config.search.web.fields;
    assert_eq!(web.get("url").unwrap().selectors, ["[data-snhf] a"]);
    assert_eq!(web.get("url").unwrap().attribute.as_deref(), Some("href"));
    assert!(matches!(
        web.get("url").unwrap().transform,
        FieldTransform::GoogleUrl
    ));
    assert_eq!(web.get("title").unwrap().selectors, ["[data-snhf] h3"]);
    assert_eq!(web.get("description").unwrap().selectors, ["[data-sncf]"]);
    assert_eq!(
        config.search.news.root_selectors,
        ["[data-news-cluster-id]"]
    );
    assert_eq!(
        config.search.news.params.get("tbm").map(String::as_str),
        Some("nws")
    );
    let news = &config.search.news.fields;
    assert_eq!(news.get("url").unwrap().selectors, ["a"]);
    assert_eq!(news.get("url").unwrap().attribute.as_deref(), Some("href"));
    assert!(matches!(
        news.get("url").unwrap().transform,
        FieldTransform::GoogleUrl
    ));
    assert_eq!(
        news.get("source").unwrap().selectors,
        ["a > div > div:nth-of-type(2) > div:nth-of-type(1)"]
    );
    assert_eq!(
        news.get("title").unwrap().selectors,
        ["a > div > div:nth-of-type(2) > div:nth-of-type(2)"]
    );
    assert_eq!(
        news.get("description").unwrap().selectors,
        ["a > div > div:nth-of-type(2) > div:nth-of-type(3)"]
    );
    assert_eq!(
        news.get("time").unwrap().selectors,
        ["a > div > div:nth-of-type(2) > div:nth-of-type(4)"]
    );
    assert_eq!(
        config.search.images.root_selectors,
        ["[data-snf][data-snm] [data-lpage]"]
    );
    assert_eq!(config.search.images.limit, Some(100));
    let images = &config.search.images.fields;
    assert_eq!(images.get("url").unwrap().selectors, ["&"]);
    assert_eq!(
        images.get("url").unwrap().attribute.as_deref(),
        Some("data-lpage")
    );
    assert_eq!(images.get("imgurl").unwrap().selectors, ["[data-bla] > img"]);
    assert_eq!(
        images.get("imgurl").unwrap().attribute.as_deref(),
        Some("src")
    );
    assert!(matches!(
        images.get("imgurl").unwrap().transform,
        FieldTransform::AbsoluteUrl
    ));
    assert!(!images.contains_key("image"));
    assert_eq!(images.get("title").unwrap().selectors, ["[data-bla] > img"]);
    assert_eq!(config.search.videos.root_selectors, ["[data-curl]"]);
    let videos = &config.search.videos.fields;
    assert_eq!(videos.get("url").unwrap().selectors, ["a:has(h3)"]);
    assert_eq!(videos.get("title").unwrap().selectors, ["a:has(h3) > h3"]);
    assert_eq!(
        videos.get("description").unwrap().selectors,
        ["[data-curl] > div > div[jsshadow] > div:nth-child(2) > div:nth-child(1)"]
    );
    assert_eq!(
        videos.get("duration").unwrap().selectors,
        [
            "[data-curl] [data-vll][data-ved][tabindex] > div > div > div:nth-child(3) > div:nth-child(1) > span"
        ]
    );
    assert!(videos.get("duration").unwrap().required);
    assert_eq!(config.search.forums.root_selectors, ["[data-rpos]"]);
    let forums = &config.search.forums.fields;
    assert_eq!(
        forums.get("url").unwrap().selectors,
        ["[data-rpos] [data-snf][data-snhf] a"]
    );
    assert!(matches!(
        forums.get("url").unwrap().transform,
        FieldTransform::AbsoluteUrl
    ));
    assert_eq!(
        forums.get("title").unwrap().selectors,
        ["[data-rpos] [data-snf][data-snhf] a > h3"]
    );
    assert_eq!(
        forums.get("description").unwrap().selectors,
        ["[data-rpos] [data-snf][data-sncf] > div"]
    );
}

#[test]
fn recursive_merge_keeps_unspecified_defaults() {
    let base = parse_settings(&toml::to_string(&whole(&Config::default())).unwrap()).unwrap();
    let config = file_settings(
        base,
        r#"
            [executor]
            min_operation_interval = 750

            [search.web]
            root_selectors = [".custom-result"]
        "#,
    )
    .unwrap();
    assert_eq!(
        setting(&config, &["executor", "min_operation_interval"]),
        Some("750")
    );
    assert_eq!(
        setting(&config, &["search", "web", "root_selectors"]),
        Some(r#"[".custom-result"]"#)
    );
    assert_eq!(
        setting(&config, &["search", "web", "fields", "url", "selectors"]),
        Some(r#"["[data-snhf] a"]"#)
    );
    assert_eq!(
        setting(&config, &["executor", "max_timeout_ms"]),
        Some("120000")
    );
    assert_eq!(
        setting(&config, &["search", "news", "params", "tbm"]),
        Some("\"nws\"")
    );
    assert_eq!(
        setting(&config, &["bridge", "listen"]),
        Some("\"127.0.0.1:17331\"")
    );
}

#[test]
fn merging_adds_replaces_and_repeats_without_effect() {
    let read = |text: &str| parse_settings(text).unwrap();
    let over = "added = 3\ntable = 4\n[replaced]\ny = 5\n";
    let mut tree = read("kept = 1\nreplaced = 2\n[table]\nx = 1\n");
    for _ in 0..2 {
        merge_toml(&mut tree, read(over));
        assert_eq!(setting(&tree, &["kept"]), Some("1"));
        assert_eq!(setting(&tree, &["added"]), Some("3"));
        assert_eq!(setting(&tree, &["table"]), Some("4"));
        assert_eq!(setting(&tree, &["table", "x"]), None);
        assert_eq!(setting(&tree, &["replaced", "y"]), Some("5"));
    }
}

#[test]
fn file_texts_are_read_as_settings() {
    let none = || Settings::Table(Vec::new());
    let settings = file_settings(none(), "a.b.c = 'x'\nlist = [1, { y = true }]\n").unwrap();
    assert_eq!(setting(&settings, &["a", "b", "c"]), Some("\"x\""));
    assert_eq!(
        setting(&settings, &["list"]),
        Some("[1, { y = true }]")
    );
    assert!(matches!(file_settings(none(), ""), Ok(Settings::Table(entries)) if entries.is_empty()));
    let message = file_settings(none(), "a = ").unwrap_err();
    let expected = toml::from_str::<toml::Value>("a = ").unwrap_err();
    assert_eq!(message, expected.to_string());
    assert!(file_settings(none(), "a = 1\na = 2\n").is_err());
}

#[test]
fn values_are_written_as_toml_texts_and_read_back() {
    let source = "text = \"a \\\"quoted\\\" line\\nand another\"\n\
                  moment = 1979-05-27T07:32:00.25-03:30\n\
                  time = 07:32\n\
                  list = [1.5, -2, nan, { a = 1979-05-27 }]\n";
    let value = toml::from_str::<toml::Value>(source).unwrap();
    let settings = parse_settings(source).unwrap();
    for name in ["text", "moment", "time"] {
        let text = setting(&settings, &[name]).unwrap();
        assert_eq!(text.parse::<toml::Value>().unwrap(), value[name]);
    }
    assert_eq!(
        setting(&settings, &["list"]),
        Some("[1.5, -2, nan, { a = 1979-05-27 }]")
    );
}

#[test]
fn the_command_line_comes_before_the_file() {
    let mut cli = no_arguments();
    cli.listen = Some("127.0.0.1:1".to_owned());
    cli.bridge_listen = Some("127.0.0.1:2".to_owned());
    cli.api_token = Some("api".to_owned());
    cli.extension_token = Some("extension".to_owned());
    cli.max_concurrency = Some(0);
    let (config, generated) = Config::default().load(&cli).unwrap();
    assert_eq!(config.server.listen, "127.0.0.1:1");
    assert_eq!(config.bridge.listen, "127.0.0.1:2");
    assert_eq!(config.server.api_token, "api");
    assert_eq!(config.bridge.extension_token, "extension");
    assert_eq!(config.executor.max_concurrency, 1);
    assert!(generated.api_token.is_none());
    assert!(generated.extension_token.is_none());
}

#[test]
fn numbers_are_brought_within_their_bounds() {
    let mut config = Config::default();
    config.executor.max_queue_size = 0;
    config.executor.max_timeout_ms = 1;
    config.executor.load_timeout_ms = 2;
    config.executor.selector_timeout_ms = 3;
    config.bridge.ping_interval_seconds = 1;
    let settled = config.settled(&no_arguments());
    assert_eq!(settled.executor.max_concurrency, 1);
    assert_eq!(settled.executor.max_queue_size, 1);
    assert_eq!(settled.executor.max_timeout_ms, 1_000);
    assert_eq!(settled.executor.load_timeout_ms, 1_000);
    assert_eq!(settled.executor.selector_timeout_ms, 250);
    assert_eq!(settled.bridge.ping_interval_seconds, 5);

    let mut config = Config::default();
    config.bridge.ping_interval_seconds = 301;
    let settled = config.settled(&no_arguments());
    assert_eq!(settled.bridge.ping_interval_seconds, 300);
    assert_eq!(settled.executor.selector_timeout_ms, 10_000);
}

#[test]
fn missing_tokens_are_generated_and_shown() {
    let (config, generated) = Config::default().load(&no_arguments()).unwrap();
    let api_token = generated.api_token.unwrap();
    let extension_token = generated.extension_token.unwrap();
    assert_eq!(config.server.api_token, api_token);
    assert_eq!(config.bridge.extension_token, extension_token);
    assert_eq!(api_token.len(), 48);
    assert!(api_token.chars().all(|c| c.is_ascii_alphanumeric()));
    assert_ne!(api_token, extension_token);
}

#[test]
fn random_tokens_differ() {
    assert_ne!(random_token(), random_token());
}

fn complaint(change: fn(&mut Config)) -> (String, Option<String>) {
    let mut config = Config::default();
    change(&mut config);
    let error = config.search.validate().unwrap_err();
    (error.message, error.cause)
}

#[test]
fn default_search_rules_are_valid() {
    let config = Config::default();
    assert!(config.search.validate().is_ok());
    assert!(config.executor.is_runnable());
}

#[test]
fn faulty_search_rules_are_refused() {
    assert_eq!(
        complaint(|config| config.search.common.base_url = "nothing".to_owned()),
        (
            "search.common.base_url 无效".to_owned(),
            Some("relative URL without a base".to_owned())
        )
    );
    assert_eq!(
        complaint(|config| config.search.common.base_url = "ftp://example.test/".to_owned()),
        (
            "search.common.base_url 只允许 http 或 https".to_owned(),
            None
        )
    );
    assert_eq!(
        complaint(|config| config.search.common.query_parameter = String::new()).0,
        "search.common.query_parameter 不能为空"
    );
    assert_eq!(
        complaint(|config| config.search.news.root_selectors = Vec::new()).0,
        "search.news.root_selectors 不能为空"
    );
    assert_eq!(
        complaint(|config| config.search.news.root_selectors.push(String::new())).0,
        "search.news.root_selectors 不能为空"
    );
    assert_eq!(
        complaint(|config| config.search.videos = Default::default()).0,
        "search.videos.root_selectors 不能为空"
    );
    assert_eq!(
        complaint(
            |config| config.search.images.fields = browser_search::ordered_map::OrderedMap::new()
        )
        .0,
        "search.images.fields 不能为空"
    );
    assert_eq!(
        complaint(|config| config.search.forums.dedupe_field = String::new()).0,
        "search.forums.dedupe_field 不能为空"
    );
    assert_eq!(
        complaint(|config| config.search.web.limit = Some(101)).0,
        "search.web.limit 必须在 1 到 100 之间"
    );
    assert_eq!(
        complaint(|config| config.search.web.limit = Some(0)).0,
        "search.web.limit 必须在 1 到 100 之间"
    );
    assert_eq!(
        complaint(|config| {
            let rule = browser_search::daemon::config::FieldRule::default();
            config.search.web.fields.insert("extra".to_owned(), rule);
        })
        .0,
        "search.web.fields.extra.selectors 不能为空"
    );
    assert_eq!(
        complaint(|config| {
            let mut rule = browser_search::daemon::config::FieldRule::default();
            rule.selectors.push("a".to_owned());
            rule.max_length = Some(0);
            config.search.web.fields.insert("extra".to_owned(), rule);
        })
        .0,
        "search.web.fields.extra.max_length 必须大于 0"
    );
}

#[test]
fn rules_of_disabled_fields_are_not_checked() {
    let mut config = Config::default();
    let mut rule = browser_search::daemon::config::FieldRule::default();
    rule.enabled = false;
    rule.max_length = Some(0);
    config.search.web.fields.insert("extra".to_owned(), rule);
    assert!(config.search.validate().is_ok());
}

#[test]
fn configurations_beyond_the_limits_are_recognized() {
    let mut config = Config::default();
    config.executor.max_queue_size = 0;
    assert!(!config.executor.is_runnable());
    config.executor.max_queue_size = usize::MAX / 8;
    assert!(config.executor.is_runnable());
    config.executor.max_concurrency = usize::MAX / 8 + 1;
    assert!(!config.executor.is_runnable());
}

#[test]
fn settled_configurations_are_settled() {
    let mut config = Config::default();
    config.bridge.ping_interval_seconds = 1_000;
    let once = config.settled(&no_arguments());
    assert_eq!(once.bridge.ping_interval_seconds, 300);
    let twice = once.settled(&no_arguments());
    assert_eq!(twice.bridge.ping_interval_seconds, 300);
    assert_eq!(twice.executor.max_queue_size, 64);
}
