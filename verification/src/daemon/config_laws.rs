//! What is promised of the configuration, said of inputs and results alone.
use vstd::prelude::*;

use crate::daemon::config::{
    Cli, Config, ConfigError, ExecutorConfig, FieldRuleView, FieldTransform, GeneratedTokens,
    ProfileView, SearchConfig,
};
use crate::daemon::defaults::rule_of;
use crate::daemon::settings::{
    lemma_entry_is_in_table, lemma_table_has_entry, merged, setting, silent, table_of, Settings,
    SettingsTree,
};
use crate::daemon::token::{is_alphanumeric, is_token};
use crate::daemon::validation::{field_fault, fields_fault, profile_fault};
use crate::web_address::AddressParts;

verus! {

/// Each setting that the command line can override is its value where it gives one, and else stays
/// what it was.
pub proof fn overrides_replace_what_they_name(config: Config, cli: Cli)
    ensures
        ({
            let after = config.overridden(cli);
            &&& after.server.listen == match cli.listen {
                Some(listen) => listen,
                None => config.server.listen,
            }
            &&& after.server.api_token == match cli.api_token {
                Some(token) => token,
                None => config.server.api_token,
            }
            &&& after.bridge.listen == match cli.bridge_listen {
                Some(listen) => listen,
                None => config.bridge.listen,
            }
            &&& after.bridge.extension_token == match cli.extension_token {
                Some(token) => token,
                None => config.bridge.extension_token,
            }
            &&& after.executor.max_concurrency == match cli.max_concurrency {
                Some(n) => n,
                None => config.executor.max_concurrency,
            }
            &&& after.server.allow_cors == config.server.allow_cors
            &&& after.bridge.browser_instance_id == config.bridge.browser_instance_id
            &&& after.bridge.ping_interval_seconds == config.bridge.ping_interval_seconds
            &&& after.executor.min_operation_interval == config.executor.min_operation_interval
            &&& after.executor.max_queue_size == config.executor.max_queue_size
            &&& after.executor.max_timeout_ms == config.executor.max_timeout_ms
            &&& after.executor.load_timeout_ms == config.executor.load_timeout_ms
            &&& after.executor.selector_timeout_ms == config.executor.selector_timeout_ms
            &&& after.search == config.search
        }),
{
}

/// Numbers below their bounds are raised to them, a ping interval above its bound is lowered to it,
/// and whatever is within its bounds stays what it was.
pub proof fn numbers_within_bounds_stay(config: Config)
    ensures
        ({
            let before = config.executor;
            let after = config.bounded().executor;
            &&& after.max_concurrency == if before.max_concurrency == 0 {
                1
            } else {
                before.max_concurrency
            }
            &&& after.max_queue_size == if before.max_queue_size == 0 {
                1
            } else {
                before.max_queue_size
            }
            &&& before.max_timeout_ms >= 1_000 ==> after.max_timeout_ms == before.max_timeout_ms
            &&& before.max_timeout_ms < 1_000 ==> after.max_timeout_ms == 1_000
            &&& before.load_timeout_ms >= 1_000 ==> after.load_timeout_ms == before.load_timeout_ms
            &&& before.load_timeout_ms < 1_000 ==> after.load_timeout_ms == 1_000
            &&& before.selector_timeout_ms >= 250 ==> after.selector_timeout_ms
                == before.selector_timeout_ms
            &&& before.selector_timeout_ms < 250 ==> after.selector_timeout_ms == 250
            &&& after.min_operation_interval == before.min_operation_interval
        }),
        ({
            let before = config.bridge;
            let after = config.bounded().bridge;
            &&& 5 <= before.ping_interval_seconds <= 300 ==> after.ping_interval_seconds
                == before.ping_interval_seconds
            &&& before.ping_interval_seconds < 5 ==> after.ping_interval_seconds == 5
            &&& before.ping_interval_seconds > 300 ==> after.ping_interval_seconds == 300
            &&& after.listen == before.listen
            &&& after.extension_token == before.extension_token
            &&& after.browser_instance_id == before.browser_instance_id
        }),
        config.bounded().server == config.server,
        config.bounded().search == config.search,
{
}

/// Generated tokens take the places of missing ones, and nothing else changes.
pub proof fn tokens_take_their_places(config: Config, generated: GeneratedTokens)
    ensures
        ({
            let after = config.equipped(generated);
            &&& after.server.api_token == match generated.api_token {
                Some(token) => token,
                None => config.server.api_token,
            }
            &&& after.bridge.extension_token == match generated.extension_token {
                Some(token) => token,
                None => config.bridge.extension_token,
            }
            &&& after.server.listen == config.server.listen
            &&& after.server.allow_cors == config.server.allow_cors
            &&& after.bridge.listen == config.bridge.listen
            &&& after.bridge.browser_instance_id == config.bridge.browser_instance_id
            &&& after.bridge.ping_interval_seconds == config.bridge.ping_interval_seconds
            &&& after.executor == config.executor
            &&& after.search == config.search
        }),
{
}

/// A token has 48 letters and digits.
pub proof fn tokens_have_48_letters_and_digits(text: Seq<char>, c: char)
    ensures
        is_token(text) <==> text.len() == 48 && forall|i: int|
            0 <= i < text.len() ==> is_alphanumeric(#[trigger] text[i]),
        is_alphanumeric(c) <==> 'a' <= c <= 'z' || 'A' <= c <= 'Z' || '0' <= c <= '9',
{
}

/// A scheduler can be set up exactly if there is a place to queue in and the places and slots can be
/// counted.
pub proof fn what_can_be_run(executor: ExecutorConfig)
    ensures
        executor.runnable() <==> 0 < executor.max_queue_size <= usize::MAX / 8
            && executor.max_concurrency <= usize::MAX / 8,
{
}

/// The rule for a field is refused exactly if it is enabled and has no selectors, an empty one, or
/// no room for any text.
pub proof fn field_rules_are_refused_for_a_reason(
    kind: Seq<char>,
    field: Seq<char>,
    rule: FieldRuleView,
)
    ensures
        ({
            let bad_selectors = rule.selectors.len() == 0 || exists|i: int|
                0 <= i < rule.selectors.len() && (#[trigger] rule.selectors[i]).len() == 0;
            let fault = field_fault(kind, field, rule);
            &&& !rule.enabled ==> fault is None
            &&& rule.enabled && bad_selectors ==> fault == Some(
                "search."@ + kind + ".fields."@ + field + ".selectors 不能为空"@,
            )
            &&& rule.enabled && !bad_selectors && rule.max_length == Some(0usize) ==> fault == Some(
                "search."@ + kind + ".fields."@ + field + ".max_length 必须大于 0"@,
            )
            &&& rule.enabled && !bad_selectors && rule.max_length != Some(0usize) ==> fault is None
        }),
{
}

/// The rules for fields are refused exactly if one of them is, with the fault of the first one.
pub proof fn the_first_faulty_field_is_named(
    kind: Seq<char>,
    fields: Seq<(Seq<char>, FieldRuleView)>,
) -> (at: int)
    ensures
        match fields_fault(kind, fields) {
            None => forall|i: int|
                0 <= i < fields.len() ==> field_fault(
                    kind,
                    (#[trigger] fields[i]).0,
                    fields[i].1,
                ) is None,
            Some(message) => {
                &&& 0 <= at < fields.len()
                &&& field_fault(kind, fields[at].0, fields[at].1) == Some(message)
                &&& forall|i: int|
                    0 <= i < at ==> field_fault(kind, (#[trigger] fields[i]).0, fields[i].1) is None
            },
        },
    decreases fields.len(),
{
    if fields.len() == 0 {
        0
    } else {
        let rest = fields.drop_last();
        let at = the_first_faulty_field_is_named(kind, rest);
        assert forall|i: int| 0 <= i < rest.len() implies #[trigger] fields[i] == rest[i] by {}
        if fields_fault(kind, rest) is Some {
            at
        } else {
            fields.len() - 1
        }
    }
}

/// The rules for a kind are refused for the first of these reasons, and accepted without one: root
/// selectors that are missing or empty, no fields, no field to tell results apart by, a limit that
/// is not one to a hundred, or a field that is refused.
pub proof fn rules_are_refused_for_a_reason(kind: Seq<char>, profile: ProfileView)
    ensures
        ({
            let bad_roots = profile.root_selectors.len() == 0 || exists|i: int|
                0 <= i < profile.root_selectors.len() && (#[trigger] profile.root_selectors[i]).len()
                    == 0;
            let bad_limit = profile.limit is Some && !(1 <= profile.limit->0 <= 100);
            let fault = profile_fault(kind, profile);
            &&& bad_roots ==> fault == Some("search."@ + kind + ".root_selectors 不能为空"@)
            &&& !bad_roots && profile.fields.len() == 0 ==> fault == Some(
                "search."@ + kind + ".fields 不能为空"@,
            )
            &&& !bad_roots && profile.fields.len() > 0 && profile.dedupe_field.len() == 0 ==> fault
                == Some("search."@ + kind + ".dedupe_field 不能为空"@)
            &&& !bad_roots && profile.fields.len() > 0 && profile.dedupe_field.len() > 0 && bad_limit
                ==> fault == Some("search."@ + kind + ".limit 必须在 1 到 100 之间"@)
            &&& !bad_roots && profile.fields.len() > 0 && profile.dedupe_field.len() > 0
                && !bad_limit ==> fault == fields_fault(kind, profile.fields)
        }),
{
}

/// Search rules are accepted exactly if the base address is one for the web, the query has a name,
/// and the rules for every kind are accepted.
pub proof fn search_rules_are_accepted_iff_all_is_well(
    search: SearchConfig,
    address: AddressParts,
    text: Seq<char>,
)
    ensures
        search.fault(Err(text)) == Some(("search.common.base_url 无效"@, Some(text))),
        search.fault(Ok(address)) is None <==> {
            &&& address.scheme == "http"@ || address.scheme == "https"@
            &&& search.common.query_parameter@.len() > 0
            &&& profile_fault("web"@, search.web@) is None
            &&& profile_fault("news"@, search.news@) is None
            &&& profile_fault("images"@, search.images@) is None
            &&& profile_fault("videos"@, search.videos@) is None
            &&& profile_fault("forums"@, search.forums@) is None
        },
        address.scheme != "http"@ && address.scheme != "https"@ ==> search.fault(Ok(address))
            == Some(
            ("search.common.base_url 只允许 http 或 https"@, None::<Seq<char>>),
        ),
        address.scheme == "http"@ || address.scheme == "https"@ ==> {
            let fault = search.fault(Ok(address));
            let named = search.common.query_parameter@.len() > 0;
            let web = profile_fault("web"@, search.web@);
            let news = profile_fault("news"@, search.news@);
            let images = profile_fault("images"@, search.images@);
            let videos = profile_fault("videos"@, search.videos@);
            let forums = profile_fault("forums"@, search.forums@);
            &&& !named ==> fault == Some(
                ("search.common.query_parameter 不能为空"@, None::<Seq<char>>),
            )
            &&& named && web is Some ==> fault == Some((web->0, None::<Seq<char>>))
            &&& named && web is None && news is Some ==> fault == Some(
                (news->0, None::<Seq<char>>),
            )
            &&& named && web is None && news is None && images is Some ==> fault == Some(
                (images->0, None::<Seq<char>>),
            )
            &&& named && web is None && news is None && images is None && videos is Some ==> fault
                == Some((videos->0, None::<Seq<char>>))
            &&& named && web is None && news is None && images is None && videos is None
                && forums is Some ==> fault == Some((forums->0, None::<Seq<char>>))
        },
{
}

/// An error says exactly its message and its cause.
pub proof fn errors_say_message_and_cause(
    error: ConfigError,
    message: Seq<char>,
    cause: Option<Seq<char>>,
)
    ensures
        error.says(message, cause) <==> error.message@ == message && match error.cause {
            Some(text) => cause == Some(text@),
            None => cause is None,
        },
{
}

/// Merged settings have, under each name, what the overrides say, merged with what was there where
/// both are tables, and what was there where they say nothing.
pub proof fn settings_are_merged_name_by_name(
    base: SettingsTree,
    over: SettingsTree,
    name: Seq<char>,
)
    ensures
        !(base is Table && over is Table) ==> merged(base, over) == over,
        base is Table && over is Table ==> {
            let after = merged(base, over);
            let b = base->Table_0;
            let o = over->Table_0;
            &&& after is Table
            &&& after->Table_0.contains_key(name) <==> b.contains_key(name) || o.contains_key(name)
            &&& b.contains_key(name) && !o.contains_key(name) ==> after->Table_0[name] == b[name]
            &&& !b.contains_key(name) && o.contains_key(name) ==> after->Table_0[name] == o[name]
            &&& b.contains_key(name) && o.contains_key(name) ==> after->Table_0[name] == merged(
                b[name],
                o[name],
            )
        },
{
}

/// What stands under a path is found name by name, and settings are silent about a path that they do
/// not reach.
pub proof fn paths_are_followed_name_by_name(
    table: Map<Seq<char>, SettingsTree>,
    text: Seq<char>,
    name: Seq<char>,
    rest: Seq<Seq<char>>,
)
    ensures
        ({
            let path = seq![name] + rest;
            let tree = SettingsTree::Table(table);
            let value = SettingsTree::Value(text);
            &&& setting(tree, Seq::empty()) == Some(tree)
            &&& setting(value, Seq::empty()) == Some(value)
            &&& table.contains_key(name) ==> setting(tree, path) == setting(table[name], rest)
            &&& !table.contains_key(name) ==> setting(tree, path) is None
            &&& setting(value, path) is None
            &&& !table.contains_key(name) ==> silent(tree, path)
            &&& table.contains_key(name) ==> silent(tree, path) == silent(table[name], rest)
            &&& !silent(value, path)
        }),
{
    let path = seq![name] + rest;
    assert(path.drop_first() =~= rest);
    assert(path[0] == name);
}

/// A table of settings holds each of its entries under its name, and nothing else.
pub proof fn tables_hold_their_entries(entries: Vec<(String, Settings)>, i: int, name: Seq<char>)
    requires
        Settings::Table(entries).wf(),
        0 <= i < entries@.len(),
    ensures
        Settings::Table(entries).tree() is Table,
        ({
            let table = Settings::Table(entries).tree()->Table_0;
            &&& table.contains_key(entries@[i].0@)
            &&& table[entries@[i].0@] == entries@[i].1.tree()
            &&& table.contains_key(name) ==> exists|k: int|
                0 <= k < entries@.len() && (#[trigger] entries@[k]).0@ == name
        }),
        entries@[i].1.wf(),
{
    lemma_entry_is_in_table(entries@, i);
    if table_of(entries@).contains_key(name) {
        let k = lemma_table_has_entry(entries@, name);
    }
}

/// A single setting is its text.
pub proof fn values_are_their_texts(text: String)
    ensures
        Settings::Value(text).tree() == SettingsTree::Value(text@),
        Settings::Value(text).wf(),
{
}

/// A default rule for a field is enabled, has one selector and takes texts of any length.
pub proof fn default_rules_are_simple(
    selector: Seq<char>,
    attribute: Option<Seq<char>>,
    transform: FieldTransform,
    required: bool,
)
    ensures
        ({
            let rule = rule_of(selector, attribute, transform, required);
            &&& rule.enabled
            &&& rule.selectors == seq![selector]
            &&& rule.attribute == attribute
            &&& rule.transform == transform
            &&& rule.required == required
            &&& rule.max_length is None
        }),
{
}

} // verus!
