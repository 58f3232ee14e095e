//! How a search request becomes instructions for the extension.
use vstd::prelude::*;

use crate::daemon::config::{Config, FieldRuleView, ProfileView, SearchConfig, SearchProfile};
use crate::daemon::error::{ErrorCode, ErrorDetail};
use crate::daemon::model::{
    CommandView, ExtractionFieldRule, ExtractionFieldView, ExtractionRules, ExtractionView,
    NormalizedSearchRequest, RequestView, SearchCommand, SearchKind,
};
use crate::daemon::validation::{accepted_rules_are_usable, every_kind_is_checked};
use crate::ordered_map::{
    a_last_key_is_added_at_the_end, ascending, found_values_are_entries,
    leaving_out_entries_keeps_the_order, lookup, overlay, overlays_are_unique, overlays_exist,
    OrderedMap,
};
use crate::text::{decimal, decimal_text, joined, text_less, text_order_is_irreflexive};
use crate::web_address::{
    append_pairs, pair_texts, parse_address, parsed_address, AddressParts, TOO_LONG,
};

verus! {

/// The parameters of a search address: those of the configuration, where the rules of the kind
/// come before what is common to all kinds, then the query, the start and the limit. Image
/// searches have no start, and an empty parameter name leaves its parameter out.
pub open spec fn query_pairs(kind: SearchKind, request: RequestView, search: SearchConfig) -> Seq<
    (Seq<char>, Seq<char>),
> {
    let common = search.common@;
    let pairs = overlay(common.params, search.rules(kind)@.params).push(
        (common.query_parameter, request.query),
    );
    let pairs = if kind != SearchKind::Images && common.start_parameter.len() > 0 {
        pairs.push((common.start_parameter, decimal(request.start as nat)))
    } else {
        pairs
    };
    if common.limit_parameter.len() > 0 {
        pairs.push(
            (
                common.limit_parameter,
                decimal(effective_limit(kind, request.limit, search) as nat),
            ),
        )
    } else {
        pairs
    }
}

/// The address of a search or why there is none, given what became of the base address.
pub open spec fn search_address(
    kind: SearchKind,
    request: RequestView,
    search: SearchConfig,
    base_url: Result<AddressParts, Seq<char>>,
) -> Result<Seq<char>, Seq<char>> {
    match base_url {
        Err(text) => Err(text),
        Ok(address) => if address.has_room_for(query_pairs(kind, request, search)) {
            Ok(address.with_pairs(query_pairs(kind, request, search)))
        } else {
            Err(TOO_LONG@)
        },
    }
}

/// How many results a search asks for: what the rules of the kind say comes before the request.
pub open spec fn effective_limit(kind: SearchKind, limit: u32, search: SearchConfig) -> u32 {
    match search.rules(kind).limit {
        Some(fixed) => fixed,
        None => limit,
    }
}

/// What the extension is told about one field.
pub open spec fn extraction_field(rule: FieldRuleView) -> ExtractionFieldView {
    ExtractionFieldView {
        selectors: rule.selectors,
        attribute: rule.attribute,
        transform: rule.transform,
        required: rule.required,
        max_length: rule.max_length,
    }
}

/// What the extension is told about the fields: the rules of those that are enabled.
pub open spec fn extraction_fields(fields: Seq<(Seq<char>, FieldRuleView)>) -> Seq<
    (Seq<char>, ExtractionFieldView),
> {
    fields.filter(|entry: (Seq<char>, FieldRuleView)| entry.1.enabled).map_values(
        |entry: (Seq<char>, FieldRuleView)| (entry.0, extraction_field(entry.1)),
    )
}

/// What the extension is told about reading the page.
pub open spec fn extraction_of(profile: ProfileView) -> ExtractionView {
    ExtractionView {
        root_selectors: profile.root_selectors,
        dedupe_field: profile.dedupe_field,
        fields: extraction_fields(profile.fields),
    }
}

/// The smaller of two durations.
pub open spec fn shorter(a: u64, b: u64) -> u64 {
    if a <= b {
        a
    } else {
        b
    }
}

/// The instructions for a search at the given address.
pub open spec fn command_at(
    kind: SearchKind,
    request: RequestView,
    config: Config,
    url: Seq<char>,
) -> CommandView {
    CommandView {
        kind,
        query: request.query,
        start: request.start,
        limit: effective_limit(kind, request.limit, config.search),
        timeout_ms: request.timeout_ms,
        load_timeout_ms: shorter(config.executor.load_timeout_ms, request.timeout_ms),
        selector_timeout_ms: shorter(config.executor.selector_timeout_ms, request.timeout_ms),
        url,
        extraction: extraction_of(config.search.rules(kind)@),
    }
}

proof fn lemma_lookup_before_last<T>(entries: Seq<(Seq<char>, T)>, key: Seq<char>)
    requires
        ascending(entries),
        entries.len() > 0,
    ensures
        ascending(entries.drop_last()),
        lookup(entries.drop_last(), key) == if key == entries.last().0 {
            None
        } else {
            lookup(entries, key)
        },
{
    if key == entries.last().0 && lookup(entries.drop_last(), key) is Some {
        let i = found_values_are_entries(entries.drop_last(), key);
        text_order_is_irreflexive(key);
        assert(text_less(entries[i].0, entries.last().0));
    }
}

/// The parameters of a search address.
pub fn search_parameters(
    kind: SearchKind,
    request: &NormalizedSearchRequest,
    config: &Config,
) -> (pairs: Vec<(String, String)>)
    ensures
        pair_texts(pairs@) == query_pairs(kind, request@, config.search),
{
    let common = &config.search.common;
    let profile = config.search.profile(kind);
    let limit = match profile.limit {
        Some(fixed) => fixed,
        None => request.limit,
    };
    let mut params = common.params.clone();
    params.extend(profile.params.clone());
    proof {
        overlays_are_unique(common.params@, profile.params@, params@);
    }
    let mut pairs: Vec<(String, String)> = Vec::new();
    let mut i: usize = 0;
    assert(pair_texts(pairs@) =~= params@.take(0));
    while i < params.len()
        invariant
            i <= params@.len(),
            pair_texts(pairs@) == params@.take(i as int),
        decreases params@.len() - i,
    {
        push_pair(&mut pairs, params.key_at(i).clone(), params.value_at(i).clone());
        assert(params@.take(i + 1) =~= params@.take(i as int).push(params@[i as int]));
        i += 1;
    }
    assert(params@.take(params@.len() as int) =~= params@);
    push_pair(&mut pairs, common.query_parameter.clone(), request.query.clone());
    if kind != SearchKind::Images && !common.start_parameter.as_str().is_empty() {
        push_pair(&mut pairs, common.start_parameter.clone(), decimal_text(request.start as u64));
    }
    if !common.limit_parameter.as_str().is_empty() {
        push_pair(&mut pairs, common.limit_parameter.clone(), decimal_text(limit as u64));
    }
    pairs
}

fn push_pair(pairs: &mut Vec<(String, String)>, name: String, value: String)
    ensures
        pair_texts(final(pairs)@) == pair_texts(old(pairs)@).push((name@, value@)),
{
    let ghost before = pairs@;
    pairs.push((name, value));
    assert(pair_texts(pairs@) =~= pair_texts(before).push((name@, value@)));
}

impl ExtractionRules {
    /// What the extension is told about reading the page.
    pub fn of_profile(profile: &SearchProfile) -> (result: Self)
        ensures
            result@ == extraction_of(profile@),
    {
        let ghost enabled = |entry: (Seq<char>, FieldRuleView)| entry.1.enabled;
        let ghost told = |entry: (Seq<char>, FieldRuleView)| (entry.0, extraction_field(entry.1));
        let ghost all = profile.fields@;
        let mut fields: OrderedMap<ExtractionFieldRule> = OrderedMap::new();
        let mut i: usize = 0;
        proof {
            use_type_invariant(&profile.fields);
            reveal(Seq::filter);
            assert(fields@ =~= all.take(0).filter(enabled).map_values(told));
        }
        while i < profile.fields.len()
            invariant
                i <= profile.fields@.len(),
                all == profile.fields@,
                ascending(all),
                enabled == (|entry: (Seq<char>, FieldRuleView)| entry.1.enabled),
                told == (|entry: (Seq<char>, FieldRuleView)|
                    (entry.0, extraction_field(entry.1))),
                fields@ == all.take(i as int).filter(enabled).map_values(told),
            decreases profile.fields@.len() - i,
        {
            let name = profile.fields.key_at(i);
            let field = profile.fields.value_at(i);
            let ghost done = all.take(i as int);
            let ghost before = fields@;
            proof {
                reveal(Seq::filter);
                assert(all.take(i + 1).drop_last() =~= done);
                assert(all.take(i + 1).last() == all[i as int]);
            }
            if field.enabled {
                let rule = ExtractionFieldRule {
                    selectors: field.selectors.clone(),
                    attribute: field.attribute.clone(),
                    transform: field.transform,
                    required: field.required,
                    max_length: field.max_length,
                };
                fields.insert(name.clone(), rule);
                proof {
                    leaving_out_entries_keeps_the_order(done, enabled);
                    assert forall|k: int| 0 <= k < before.len() implies text_less(
                        (#[trigger] before[k]).0,
                        name@,
                    ) by {
                        let entry = done.filter(enabled)[k];
                        done.lemma_filter_contains_rev(enabled, entry);
                        let n = done.index_of(entry);
                        assert(all[n] == entry);
                    }
                    assert(ascending(before)) by {
                        assert forall|k: int, l: int| 0 <= k < l < before.len() implies text_less(
                            (#[trigger] before[k]).0,
                            (#[trigger] before[l]).0,
                        ) by {
                            assert(before[k].0 == done.filter(enabled)[k].0);
                            assert(before[l].0 == done.filter(enabled)[l].0);
                        }
                    }
                    a_last_key_is_added_at_the_end(before, name@, rule@, fields@);
                    assert(rule@ == extraction_field(field@));
                    assert(fields@ =~= all.take(i + 1).filter(enabled).map_values(told));
                }
            }
            i += 1;
        }
        assert(all.take(all.len() as int) =~= all);
        ExtractionRules {
            root_selectors: profile.root_selectors.clone(),
            dedupe_field: profile.dedupe_field.clone(),
            fields,
        }
    }
}

impl SearchCommand {
    /// The instructions for a search, from the address that was made for it or from what stood in
    /// the way of one.
    pub fn at_url(
        kind: SearchKind,
        request: NormalizedSearchRequest,
        config: &Config,
        url: Result<String, String>,
    ) -> (result: Result<Self, ErrorDetail>)
        ensures
            match url {
                Ok(url) => {
                    &&& result matches Ok(command)
                    &&& command@ == command_at(kind, request@, *config, url@)
                },
                Err(message) => {
                    &&& result matches Err(error)
                    &&& error.says(
                        ErrorCode::InternalError,
                        "搜索 base_url 无效: "@ + message@,
                        false,
                    )
                },
            },
    {
        match url {
            Ok(url) => {
                let profile = config.search.profile(kind);
                let limit = match profile.limit {
                    Some(fixed) => fixed,
                    None => request.limit,
                };
                Ok(
                    SearchCommand {
                        kind,
                        query: request.query,
                        start: request.start,
                        limit,
                        timeout_ms: request.timeout_ms,
                        load_timeout_ms: config.executor.load_timeout_ms.min(request.timeout_ms),
                        selector_timeout_ms: config.executor.selector_timeout_ms.min(
                            request.timeout_ms,
                        ),
                        url,
                        extraction: ExtractionRules::of_profile(profile),
                    },
                )
            },
            Err(message) => Err(
                ErrorDetail::new(
                    ErrorCode::InternalError,
                    joined("搜索 base_url 无效: ", message.as_str()),
                    false,
                ),
            ),
        }
    }

    /// The instructions for a search.
    pub fn new(kind: SearchKind, request: NormalizedSearchRequest, config: &Config) -> (result:
        Result<Self, ErrorDetail>)
        ensures
            match search_address(
                kind,
                request@,
                config.search,
                parsed_address(config.search.common.base_url@),
            ) {
                Ok(url) => {
                    &&& result matches Ok(command)
                    &&& command@ == command_at(kind, request@, *config, url)
                },
                Err(message) => {
                    &&& result matches Err(error)
                    &&& error.says(
                        ErrorCode::InternalError,
                        "搜索 base_url 无效: "@ + message,
                        false,
                    )
                },
            },
    {
        let base_url = config.search.common.base_url.as_str();
        let url: Result<String, String> = match parse_address(base_url) {
            Ok(address) => {
                let pairs = search_parameters(kind, &request, config);
                if address.can_take(&pairs) {
                    Ok(append_pairs(base_url, &pairs))
                } else {
                    Err(TOO_LONG.to_owned())
                }
            },
            Err(message) => Err(message),
        };
        SearchCommand::at_url(kind, request, config, url)
    }
}

/// A parameter that the rules of the kind set has their value, whatever is common to all kinds.
pub proof fn rules_of_the_kind_come_first(kind: SearchKind, search: SearchConfig, name: Seq<char>)
    requires
        ascending(search.common.params@),
        ascending(search.rules(kind).params@),
    ensures
        lookup(overlay(search.common.params@, search.rules(kind).params@), name) == match lookup(
            search.rules(kind).params@,
            name,
        ) {
            Some(value) => Some(value),
            None => lookup(search.common.params@, name),
        },
{
    overlays_exist(search.common.params@, search.rules(kind).params@);
}

/// The extension is told about a field exactly if its rule is enabled.
pub proof fn enabled_fields_are_told(fields: Seq<(Seq<char>, FieldRuleView)>, name: Seq<char>)
    requires
        ascending(fields),
    ensures
        lookup(extraction_fields(fields), name) == match lookup(fields, name) {
            Some(rule) => if rule.enabled {
                Some(extraction_field(rule))
            } else {
                None
            },
            None => None,
        },
    decreases fields.len(),
{
    reveal(Seq::filter);
    let enabled = |entry: (Seq<char>, FieldRuleView)| entry.1.enabled;
    let told = |entry: (Seq<char>, FieldRuleView)| (entry.0, extraction_field(entry.1));
    if fields.len() > 0 {
        let rest = fields.drop_last();
        lemma_lookup_before_last(fields, name);
        enabled_fields_are_told(rest, name);
        if fields.last().1.enabled {
            assert(extraction_fields(fields) =~= extraction_fields(rest).push(told(fields.last())));
            assert(extraction_fields(fields).drop_last() =~= extraction_fields(rest));
        } else {
            assert(extraction_fields(fields) =~= extraction_fields(rest));
        }
    }
}

/// No step of a search may take longer than the search, and a search under accepted rules asks for
/// one to a hundred results.
pub proof fn commands_stay_within_bounds(
    kind: SearchKind,
    request: RequestView,
    config: Config,
    url: Seq<char>,
)
    requires
        config.search.kinds_fault() is None,
        1 <= request.limit <= 100,
    ensures
        ({
            let command = command_at(kind, request, config, url);
            &&& command.load_timeout_ms <= command.timeout_ms
            &&& command.selector_timeout_ms <= command.timeout_ms
            &&& 1 <= command.limit <= 100
        }),
{
    every_kind_is_checked(config.search, kind);
    accepted_rules_are_usable(kind.name(), config.search.rules(kind)@, 0);
}

/// The query is always among the parameters of a search address, and an image search does not
/// depend on the start.
pub proof fn addresses_carry_the_query(
    kind: SearchKind,
    request: RequestView,
    search: SearchConfig,
    start: u32,
)
    ensures
        query_pairs(kind, request, search).contains(
            (search.common.query_parameter@, request.query),
        ),
        kind == SearchKind::Images ==> query_pairs(kind, request, search) == query_pairs(
            kind,
            RequestView { start, ..request },
            search,
        ),
{
    let params = overlay(search.common@.params, search.rules(kind)@.params);
    assert(query_pairs(kind, request, search)[params.len() as int] == (
        search.common.query_parameter@,
        request.query,
    ));
}

} // verus!
