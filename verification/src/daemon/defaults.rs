//! The configuration that the daemon runs with when nothing else is said.
use vstd::prelude::*;

use crate::daemon::config::{
    BridgeConfig, CommonView, Config, ExecutorConfig, FieldRule, FieldRuleView, FieldTransform,
    GeneratedTokens, ProfileView, SearchCommonConfig, SearchConfig, SearchProfile, ServerConfig,
};
use crate::daemon::model::SearchKind;
use crate::daemon::validation::{fields_fault, has_gap, profile_fault};
use crate::ordered_map::{a_last_key_is_added_at_the_end, OrderedMap};
use crate::text::text_less;

verus! {

impl Default for ServerConfig {
    fn default() -> (result: Self)
        ensures
            result.listen@ == "127.0.0.1:17330"@,
            result.api_token@ == Seq::<char>::empty(),
            !result.allow_cors,
    {
        ServerConfig {
            listen: "127.0.0.1:17330".to_owned(),
            api_token: String::new(),
            allow_cors: false,
        }
    }
}

impl Default for BridgeConfig {
    fn default() -> (result: Self)
        ensures
            result.listen@ == "127.0.0.1:17331"@,
            result.extension_token@ == Seq::<char>::empty(),
            result.browser_instance_id@ == Seq::<char>::empty(),
            result.ping_interval_seconds == 20,
    {
        BridgeConfig {
            listen: "127.0.0.1:17331".to_owned(),
            extension_token: String::new(),
            browser_instance_id: String::new(),
            ping_interval_seconds: 20,
        }
    }
}

impl Default for ExecutorConfig {
    fn default() -> (result: Self)
        ensures
            result == (ExecutorConfig {
                max_concurrency: 1,
                min_operation_interval: 4000,
                max_queue_size: 64,
                max_timeout_ms: 120_000,
                load_timeout_ms: 20_000,
                selector_timeout_ms: 10_000,
            }),
    {
        ExecutorConfig {
            max_concurrency: 1,
            min_operation_interval: 4000,
            max_queue_size: 64,
            max_timeout_ms: 120_000,
            load_timeout_ms: 20_000,
            selector_timeout_ms: 10_000,
        }
    }
}

impl Default for GeneratedTokens {
    fn default() -> (result: Self)
        ensures
            result == (GeneratedTokens { api_token: None, extension_token: None }),
    {
        GeneratedTokens { api_token: None, extension_token: None }
    }
}

/// Whether a field is read when its rule does not say.
pub fn default_true() -> (result: bool)
    ensures
        result,
{
    true
}

impl Default for FieldRule {
    fn default() -> (result: Self)
        ensures
            result@ == (FieldRuleView {
                enabled: true,
                selectors: Seq::empty(),
                attribute: None,
                transform: FieldTransform::Unchanged,
                required: false,
                max_length: None,
            }),
    {
        let result = FieldRule {
            enabled: default_true(),
            selectors: Vec::new(),
            attribute: None,
            transform: FieldTransform::default(),
            required: false,
            max_length: None,
        };
        assert(result@.selectors =~= Seq::empty());
        result
    }
}

impl Default for FieldTransform {
    fn default() -> (result: Self)
        ensures
            result == FieldTransform::Unchanged,
    {
        FieldTransform::Unchanged
    }
}

impl Default for SearchProfile {
    fn default() -> (result: Self)
        ensures
            result@ == (ProfileView {
                params: Seq::empty(),
                limit: None,
                root_selectors: Seq::empty(),
                dedupe_field: Seq::empty(),
                fields: Seq::empty(),
            }),
    {
        let result = SearchProfile {
            params: OrderedMap::new(),
            limit: None,
            root_selectors: Vec::new(),
            dedupe_field: String::new(),
            fields: OrderedMap::new(),
        };
        assert(result@.root_selectors =~= Seq::empty());
        result
    }
}

/// A rule with one selector.
pub open spec fn rule_of(
    selector: Seq<char>,
    attribute: Option<Seq<char>>,
    transform: FieldTransform,
    required: bool,
) -> FieldRuleView {
    FieldRuleView {
        enabled: true,
        selectors: seq![selector],
        attribute,
        transform,
        required,
        max_length: None,
    }
}

/// What all kinds of search share by default.
pub open spec fn default_common() -> CommonView {
    CommonView {
        base_url: "https://www.google.com/search"@,
        query_parameter: "q"@,
        start_parameter: "start"@,
        limit_parameter: "num"@,
        params: Seq::empty(),
    }
}

/// The rules for one kind of search by default.
pub open spec fn default_profile(kind: SearchKind) -> ProfileView {
    match kind {
        SearchKind::Web => ProfileView {
            params: seq![("udm"@, "14"@)],
            limit: None,
            root_selectors: seq!["[data-snc]"@],
            dedupe_field: "url"@,
            fields: seq![
                (
                    "description"@,
                    rule_of(
                        "[data-sncf]"@,
                        None,
                        FieldTransform::Unchanged,
                        false,
                    ),
                ),
                (
                    "title"@,
                    rule_of(
                        "[data-snhf] h3"@,
                        None,
                        FieldTransform::Unchanged,
                        false,
                    ),
                ),
                (
                    "url"@,
                    rule_of(
                        "[data-snhf] a"@,
                        Some("href"@),
                        FieldTransform::GoogleUrl,
                        false,
                    ),
                ),
            ],
        },
        SearchKind::News => ProfileView {
            params: seq![("tbm"@, "nws"@)],
            limit: None,
            root_selectors: seq!["[data-news-cluster-id]"@],
            dedupe_field: "url"@,
            fields: seq![
                (
                    "description"@,
                    rule_of(
                        "a > div > div:nth-of-type(2) > div:nth-of-type(3)"@,
                        None,
                        FieldTransform::Unchanged,
                        false,
                    ),
                ),
                (
                    "source"@,
                    rule_of(
                        "a > div > div:nth-of-type(2) > div:nth-of-type(1)"@,
                        None,
                        FieldTransform::Unchanged,
                        false,
                    ),
                ),
                (
                    "time"@,
                    rule_of(
                        "a > div > div:nth-of-type(2) > div:nth-of-type(4)"@,
                        None,
                        FieldTransform::Unchanged,
                        false,
                    ),
                ),
                (
                    "title"@,
                    rule_of(
                        "a > div > div:nth-of-type(2) > div:nth-of-type(2)"@,
                        None,
                        FieldTransform::Unchanged,
                        false,
                    ),
                ),
                (
                    "url"@,
                    rule_of(
                        "a"@,
                        Some("href"@),
                        FieldTransform::GoogleUrl,
                        false,
                    ),
                ),
            ],
        },
        SearchKind::Images => ProfileView {
            params: seq![("udm"@, "2"@)],
            limit: Some(100u32),
            root_selectors: seq!["[data-snf][data-snm] [data-lpage]"@],
            dedupe_field: "url"@,
            fields: seq![
                (
                    "imgurl"@,
                    rule_of(
                        "[data-bla] > img"@,
                        Some("src"@),
                        FieldTransform::AbsoluteUrl,
                        false,
                    ),
                ),
                (
                    "title"@,
                    rule_of(
                        "[data-bla] > img"@,
                        Some("alt"@),
                        FieldTransform::Unchanged,
                        false,
                    ),
                ),
                (
                    "url"@,
                    rule_of(
                        "&"@,
                        Some("data-lpage"@),
                        FieldTransform::AbsoluteUrl,
                        false,
                    ),
                ),
            ],
        },
        SearchKind::Videos => ProfileView {
            params: seq![("udm"@, "7"@)],
            limit: None,
            root_selectors: seq!["[data-curl]"@],
            dedupe_field: "url"@,
            fields: seq![
                (
                    "description"@,
                    rule_of(
                        "[data-curl] > div > div[jsshadow] > div:nth-child(2) > div:nth-child(1)"@,
                        None,
                        FieldTransform::Unchanged,
                        false,
                    ),
                ),
                (
                    "duration"@,
                    rule_of(
                        "[data-curl] [data-vll][data-ved][tabindex] > div > div > div:nth-child(3) > div:nth-child(1) > span"@,
                        None,
                        FieldTransform::Unchanged,
                        true,
                    ),
                ),
                (
                    "title"@,
                    rule_of(
                        "a:has(h3) > h3"@,
                        None,
                        FieldTransform::Unchanged,
                        false,
                    ),
                ),
                (
                    "url"@,
                    rule_of(
                        "a:has(h3)"@,
                        Some("href"@),
                        FieldTransform::AbsoluteUrl,
                        false,
                    ),
                ),
            ],
        },
        SearchKind::Forums => ProfileView {
            params: seq![("udm"@, "18"@)],
            limit: None,
            root_selectors: seq!["[data-rpos]"@],
            dedupe_field: "url"@,
            fields: seq![
                (
                    "description"@,
                    rule_of(
                        "[data-rpos] [data-snf][data-sncf] > div"@,
                        None,
                        FieldTransform::Unchanged,
                        false,
                    ),
                ),
                (
                    "title"@,
                    rule_of(
                        "[data-rpos] [data-snf][data-snhf] a > h3"@,
                        None,
                        FieldTransform::Unchanged,
                        false,
                    ),
                ),
                (
                    "url"@,
                    rule_of(
                        "[data-rpos] [data-snf][data-snhf] a"@,
                        Some("href"@),
                        FieldTransform::AbsoluteUrl,
                        false,
                    ),
                ),
            ],
        },
    }
}

/// A rule with one selector.
fn rule(selector: &str, attribute: Option<&str>, transform: FieldTransform, required: bool) -> (result:
    FieldRule)
    ensures
        result@ == rule_of(
            selector@,
            match attribute {
                Some(attribute) => Some(attribute@),
                None => None,
            },
            transform,
            required,
        ),
{
    let result = FieldRule {
        enabled: true,
        selectors: vec![selector.to_owned()],
        attribute: match attribute {
            Some(attribute) => Some(attribute.to_owned()),
            None => None,
        },
        transform,
        required,
        max_length: None,
    };
    assert(result@.selectors =~= seq![selector@]);
    result
}

/// Adds the rule for a field that comes after the others by name.
fn add_field(fields: &mut OrderedMap<FieldRule>, name: &str, rule: FieldRule)
    requires
        forall|i: int| 0 <= i < old(fields)@.len() ==> text_less(
            (#[trigger] old(fields)@[i]).0,
            name@,
        ),
    ensures
        final(fields)@ == old(fields)@.push((name@, rule@)),
{
    proof {
        use_type_invariant(&*fields);
    }
    let ghost before = fields@;
    fields.insert(name.to_owned(), rule);
    proof {
        a_last_key_is_added_at_the_end(before, name@, rule@, fields@);
    }
}

/// Rules for a kind of search with one parameter and one root selector.
fn profile(
    name: &str,
    value: &str,
    limit: Option<u32>,
    root_selector: &str,
    fields: OrderedMap<FieldRule>,
) -> (result: SearchProfile)
    ensures
        result@ == (ProfileView {
            params: seq![(name@, value@)],
            limit,
            root_selectors: seq![root_selector@],
            dedupe_field: "url"@,
            fields: fields@,
        }),
{
    let mut params: OrderedMap<String> = OrderedMap::new();
    let value: String = value.to_owned();
    let ghost value_text = value@;
    params.insert(name.to_owned(), value);
    proof {
        a_last_key_is_added_at_the_end(Seq::empty(), name@, value_text, params@);
    }
    let result = SearchProfile {
        params,
        limit,
        root_selectors: vec![root_selector.to_owned()],
        dedupe_field: "url".to_owned(),
        fields,
    };
    assert(result@.root_selectors =~= seq![root_selector@]);
    assert(result@.params =~= seq![(name@, value@)]);
    result
}

proof fn lemma_order_of_field_names()
    ensures
        text_less("description"@, "duration"@),
        text_less("description"@, "source"@),
        text_less("description"@, "time"@),
        text_less("description"@, "title"@),
        text_less("description"@, "url"@),
        text_less("duration"@, "title"@),
        text_less("duration"@, "url"@),
        text_less("imgurl"@, "title"@),
        text_less("imgurl"@, "url"@),
        text_less("source"@, "time"@),
        text_less("source"@, "title"@),
        text_less("source"@, "url"@),
        text_less("time"@, "title"@),
        text_less("time"@, "url"@),
        text_less("title"@, "url"@),
{
    reveal_strlit("description");
    reveal_strlit("duration");
    reveal_strlit("imgurl");
    reveal_strlit("source");
    reveal_strlit("time");
    reveal_strlit("title");
    reveal_strlit("url");
    reveal_with_fuel(text_less, 4);
}

fn default_web() -> (result: SearchProfile)
    ensures
        result@ == default_profile(SearchKind::Web),
{
    proof {
        lemma_order_of_field_names();
    }
    let mut fields: OrderedMap<FieldRule> = OrderedMap::new();
    add_field(
        &mut fields,
        "description",
        rule(
            "[data-sncf]",
            None,
            FieldTransform::Unchanged,
            false,
        ),
    );
    add_field(
        &mut fields,
        "title",
        rule(
            "[data-snhf] h3",
            None,
            FieldTransform::Unchanged,
            false,
        ),
    );
    add_field(
        &mut fields,
        "url",
        rule(
            "[data-snhf] a",
            Some("href"),
            FieldTransform::GoogleUrl,
            false,
        ),
    );
    let result = profile("udm", "14", None, "[data-snc]", fields);
    assert(result@.fields =~= default_profile(SearchKind::Web).fields);
    result
}

fn default_news() -> (result: SearchProfile)
    ensures
        result@ == default_profile(SearchKind::News),
{
    proof {
        lemma_order_of_field_names();
    }
    let mut fields: OrderedMap<FieldRule> = OrderedMap::new();
    add_field(
        &mut fields,
        "description",
        rule(
            "a > div > div:nth-of-type(2) > div:nth-of-type(3)",
            None,
            FieldTransform::Unchanged,
            false,
        ),
    );
    add_field(
        &mut fields,
        "source",
        rule(
            "a > div > div:nth-of-type(2) > div:nth-of-type(1)",
            None,
            FieldTransform::Unchanged,
            false,
        ),
    );
    add_field(
        &mut fields,
        "time",
        rule(
            "a > div > div:nth-of-type(2) > div:nth-of-type(4)",
            None,
            FieldTransform::Unchanged,
            false,
        ),
    );
    add_field(
        &mut fields,
        "title",
        rule(
            "a > div > div:nth-of-type(2) > div:nth-of-type(2)",
            None,
            FieldTransform::Unchanged,
            false,
        ),
    );
    add_field(
        &mut fields,
        "url",
        rule(
            "a",
            Some("href"),
            FieldTransform::GoogleUrl,
            false,
        ),
    );
    let result = profile("tbm", "nws", None, "[data-news-cluster-id]", fields);
    assert(result@.fields =~= default_profile(SearchKind::News).fields);
    result
}

fn default_images() -> (result: SearchProfile)
    ensures
        result@ == default_profile(SearchKind::Images),
{
    proof {
        lemma_order_of_field_names();
    }
    let mut fields: OrderedMap<FieldRule> = OrderedMap::new();
    add_field(
        &mut fields,
        "imgurl",
        rule(
            "[data-bla] > img",
            Some("src"),
            FieldTransform::AbsoluteUrl,
            false,
        ),
    );
    add_field(
        &mut fields,
        "title",
        rule(
            "[data-bla] > img",
            Some("alt"),
            FieldTransform::Unchanged,
            false,
        ),
    );
    add_field(
        &mut fields,
        "url",
        rule(
            "&",
            Some("data-lpage"),
            FieldTransform::AbsoluteUrl,
            false,
        ),
    );
    let result = profile("udm", "2", Some(100), "[data-snf][data-snm] [data-lpage]", fields);
    assert(result@.fields =~= default_profile(SearchKind::Images).fields);
    result
}

fn default_videos() -> (result: SearchProfile)
    ensures
        result@ == default_profile(SearchKind::Videos),
{
    proof {
        lemma_order_of_field_names();
    }
    let mut fields: OrderedMap<FieldRule> = OrderedMap::new();
    add_field(
        &mut fields,
        "description",
        rule(
            "[data-curl] > div > div[jsshadow] > div:nth-child(2) > div:nth-child(1)",
            None,
            FieldTransform::Unchanged,
            false,
        ),
    );
    add_field(
        &mut fields,
        "duration",
        rule(
            "[data-curl] [data-vll][data-ved][tabindex] > div > div > div:nth-child(3) > div:nth-child(1) > span",
            None,
            FieldTransform::Unchanged,
            true,
        ),
    );
    add_field(
        &mut fields,
        "title",
        rule(
            "a:has(h3) > h3",
            None,
            FieldTransform::Unchanged,
            false,
        ),
    );
    add_field(
        &mut fields,
        "url",
        rule(
            "a:has(h3)",
            Some("href"),
            FieldTransform::AbsoluteUrl,
            false,
        ),
    );
    let result = profile("udm", "7", None, "[data-curl]", fields);
    assert(result@.fields =~= default_profile(SearchKind::Videos).fields);
    result
}

fn default_forums() -> (result: SearchProfile)
    ensures
        result@ == default_profile(SearchKind::Forums),
{
    proof {
        lemma_order_of_field_names();
    }
    let mut fields: OrderedMap<FieldRule> = OrderedMap::new();
    add_field(
        &mut fields,
        "description",
        rule(
            "[data-rpos] [data-snf][data-sncf] > div",
            None,
            FieldTransform::Unchanged,
            false,
        ),
    );
    add_field(
        &mut fields,
        "title",
        rule(
            "[data-rpos] [data-snf][data-snhf] a > h3",
            None,
            FieldTransform::Unchanged,
            false,
        ),
    );
    add_field(
        &mut fields,
        "url",
        rule(
            "[data-rpos] [data-snf][data-snhf] a",
            Some("href"),
            FieldTransform::AbsoluteUrl,
            false,
        ),
    );
    let result = profile("udm", "18", None, "[data-rpos]", fields);
    assert(result@.fields =~= default_profile(SearchKind::Forums).fields);
    result
}

impl Default for SearchConfig {
    fn default() -> (result: Self)
        ensures
            result.common@ == default_common(),
            forall|kind: SearchKind| (#[trigger] result.rules(kind))@ == default_profile(kind),
    {
        SearchConfig {
            common: SearchCommonConfig {
                base_url: "https://www.google.com/search".to_owned(),
                query_parameter: "q".to_owned(),
                start_parameter: "start".to_owned(),
                limit_parameter: "num".to_owned(),
                params: OrderedMap::new(),
            },
            web: default_web(),
            news: default_news(),
            images: default_images(),
            videos: default_videos(),
            forums: default_forums(),
        }
    }
}

impl Default for Config {
    fn default() -> (result: Self)
        ensures
            result.server.listen@ == "127.0.0.1:17330"@,
            result.server.api_token@ == Seq::<char>::empty(),
            !result.server.allow_cors,
            result.bridge.listen@ == "127.0.0.1:17331"@,
            result.bridge.extension_token@ == Seq::<char>::empty(),
            result.bridge.browser_instance_id@ == Seq::<char>::empty(),
            result.bridge.ping_interval_seconds == 20,
            result.executor == (ExecutorConfig {
                max_concurrency: 1,
                min_operation_interval: 4000,
                max_queue_size: 64,
                max_timeout_ms: 120_000,
                load_timeout_ms: 20_000,
                selector_timeout_ms: 10_000,
            }),
            result.search.common@ == default_common(),
            forall|kind: SearchKind|
                (#[trigger] result.search.rules(kind))@ == default_profile(kind),
    {
        Config {
            server: ServerConfig::default(),
            bridge: BridgeConfig::default(),
            executor: ExecutorConfig::default(),
            search: SearchConfig::default(),
        }
    }
}

/// The default rules are accepted for every kind of search.
pub proof fn default_rules_are_accepted(kind: SearchKind, name: Seq<char>)
    ensures
        profile_fault(name, default_profile(kind)) is None,
{
    reveal_strlit("&");
    reveal_strlit("[data-bla] > img");
    reveal_strlit("[data-curl]");
    reveal_strlit(
        "[data-curl] > div > div[jsshadow] > div:nth-child(2) > div:nth-child(1)",
    );
    reveal_strlit(
        "[data-curl] [data-vll][data-ved][tabindex] > div > div > div:nth-child(3) > div:nth-child(1) > span",
    );
    reveal_strlit("[data-news-cluster-id]");
    reveal_strlit("[data-rpos]");
    reveal_strlit("[data-rpos] [data-snf][data-sncf] > div");
    reveal_strlit("[data-rpos] [data-snf][data-snhf] a");
    reveal_strlit("[data-rpos] [data-snf][data-snhf] a > h3");
    reveal_strlit("[data-snc]");
    reveal_strlit("[data-sncf]");
    reveal_strlit("[data-snf][data-snm] [data-lpage]");
    reveal_strlit("[data-snhf] a");
    reveal_strlit("[data-snhf] h3");
    reveal_strlit("a");
    reveal_strlit("a > div > div:nth-of-type(2) > div:nth-of-type(1)");
    reveal_strlit("a > div > div:nth-of-type(2) > div:nth-of-type(2)");
    reveal_strlit("a > div > div:nth-of-type(2) > div:nth-of-type(3)");
    reveal_strlit("a > div > div:nth-of-type(2) > div:nth-of-type(4)");
    reveal_strlit("a:has(h3)");
    reveal_strlit("a:has(h3) > h3");
    reveal_strlit("url");
    let profile = default_profile(kind);
    assert(profile.root_selectors[0].len() > 0);
    assert forall|i: int| 0 <= i < profile.fields.len() implies !has_gap(
        (#[trigger] profile.fields[i]).1.selectors,
    ) by {
        assert(profile.fields[i].1.selectors[0].len() > 0);
    }
    lemma_sound_fields(name, profile.fields);
}

proof fn lemma_sound_fields(name: Seq<char>, fields: Seq<(Seq<char>, FieldRuleView)>)
    requires
        forall|i: int|
            0 <= i < fields.len() ==> !has_gap((#[trigger] fields[i]).1.selectors)
                && fields[i].1.max_length is None,
    ensures
        fields_fault(name, fields) is None,
    decreases fields.len(),
{
    if fields.len() > 0 {
        assert forall|i: int| 0 <= i < fields.drop_last().len() implies !has_gap(
            (#[trigger] fields.drop_last()[i]).1.selectors,
        ) && fields.drop_last()[i].1.max_length is None by {
            assert(fields.drop_last()[i] == fields[i]);
        }
        lemma_sound_fields(name, fields.drop_last());
        assert(fields.last() == fields[fields.len() - 1]);
    }
}

} // verus!
