//! Which search rules are refused, and with which message.
use vstd::prelude::*;

use crate::daemon::config::{
    ConfigError, FieldRule, FieldRuleView, ProfileView, SearchConfig, SearchProfile,
};
use crate::daemon::model::SearchKind;
use crate::ordered_map::OrderedMap;
use crate::text::{joined, same_text, texts};
use crate::web_address::{parse_address, parsed_address, Address, AddressParts};

verus! {

/// Whether a list of selectors is empty or has an empty one.
pub open spec fn has_gap(selectors: Seq<Seq<char>>) -> bool {
    selectors.len() == 0 || exists|i: int|
        0 <= i < selectors.len() && (#[trigger] selectors[i]).len() == 0
}

/// What is wrong with the rule for a field.
pub open spec fn field_fault(kind: Seq<char>, field: Seq<char>, rule: FieldRuleView) -> Option<
    Seq<char>,
> {
    let setting = "search."@ + kind + ".fields."@ + field;
    if !rule.enabled {
        None
    } else if has_gap(rule.selectors) {
        Some(setting + ".selectors 不能为空"@)
    } else if rule.max_length == Some(0usize) {
        Some(setting + ".max_length 必须大于 0"@)
    } else {
        None
    }
}

/// What is wrong with the first faulty rule for a field.
pub open spec fn fields_fault(
    kind: Seq<char>,
    fields: Seq<(Seq<char>, FieldRuleView)>,
) -> Option<Seq<char>>
    decreases fields.len(),
{
    if fields.len() == 0 {
        None
    } else {
        match fields_fault(kind, fields.drop_last()) {
            Some(message) => Some(message),
            None => field_fault(kind, fields.last().0, fields.last().1),
        }
    }
}

/// What is wrong with the rules for a kind of search first.
pub open spec fn profile_fault(kind: Seq<char>, profile: ProfileView) -> Option<Seq<char>> {
    let rules = "search."@ + kind;
    if has_gap(profile.root_selectors) {
        Some(rules + ".root_selectors 不能为空"@)
    } else if profile.fields.len() == 0 {
        Some(rules + ".fields 不能为空"@)
    } else if profile.dedupe_field.len() == 0 {
        Some(rules + ".dedupe_field 不能为空"@)
    } else if profile.limit matches Some(limit) && !(1 <= limit <= 100) {
        Some(rules + ".limit 必须在 1 到 100 之间"@)
    } else {
        fields_fault(kind, profile.fields)
    }
}

/// Which of two faults is reported.
pub open spec fn first_fault(first: Option<Seq<char>>, second: Option<Seq<char>>) -> Option<
    Seq<char>,
> {
    if first is Some {
        first
    } else {
        second
    }
}

/// A message with the message of what caused the error, where there is one.
pub open spec fn complaint(message: Seq<char>) -> Option<(Seq<char>, Option<Seq<char>>)> {
    Some((message, None))
}

impl SearchConfig {
    /// What is wrong with the rules of the kinds of search first.
    pub open spec fn kinds_fault(self) -> Option<Seq<char>> {
        first_fault(
            profile_fault("web"@, self.web@),
            first_fault(
                profile_fault("news"@, self.news@),
                first_fault(
                    profile_fault("images"@, self.images@),
                    first_fault(
                        profile_fault("videos"@, self.videos@),
                        profile_fault("forums"@, self.forums@),
                    ),
                ),
            ),
        )
    }

    /// What is wrong with the search rules first, given what became of the base address: the
    /// message, and the message of what caused the error.
    pub open spec fn fault(self, base_url: Result<AddressParts, Seq<char>>) -> Option<
        (Seq<char>, Option<Seq<char>>),
    > {
        match base_url {
            Err(cause) => Some(("search.common.base_url 无效"@, Some(cause))),
            Ok(address) => if address.scheme != "http"@ && address.scheme != "https"@ {
                complaint("search.common.base_url 只允许 http 或 https"@)
            } else if self.common.query_parameter@.len() == 0 {
                complaint("search.common.query_parameter 不能为空"@)
            } else {
                match self.kinds_fault() {
                    Some(message) => complaint(message),
                    None => None,
                }
            },
        }
    }

    /// Checks the search rules, given what became of the base address.
    pub fn validate_at(&self, base_url: &Result<Address, String>) -> (result: Result<
        (),
        ConfigError,
    >)
        ensures
            match self.fault(
                match *base_url {
                    Ok(address) => Ok(address@),
                    Err(message) => Err(message@),
                },
            ) {
                Some((message, cause)) => {
                    &&& result matches Err(error)
                    &&& error.says(message, cause)
                },
                None => result is Ok,
            },
    {
        let address = match base_url {
            Err(cause) => {
                return Err(
                    ConfigError {
                        message: "search.common.base_url 无效".to_owned(),
                        cause: Some(cause.clone()),
                    },
                );
            },
            Ok(address) => address,
        };
        if !same_text(address.scheme.as_str(), "http") && !same_text(
            address.scheme.as_str(),
            "https",
        ) {
            return Err(
                ConfigError::new("search.common.base_url 只允许 http 或 https".to_owned()),
            );
        }
        if self.common.query_parameter.as_str().is_empty() {
            return Err(ConfigError::new("search.common.query_parameter 不能为空".to_owned()));
        }
        match check_profile("web", &self.web) {
            Some(message) => {
                return Err(ConfigError::new(message));
            },
            None => {},
        }
        match check_profile("news", &self.news) {
            Some(message) => {
                return Err(ConfigError::new(message));
            },
            None => {},
        }
        match check_profile("images", &self.images) {
            Some(message) => {
                return Err(ConfigError::new(message));
            },
            None => {},
        }
        match check_profile("videos", &self.videos) {
            Some(message) => {
                return Err(ConfigError::new(message));
            },
            None => {},
        }
        match check_profile("forums", &self.forums) {
            Some(message) => Err(ConfigError::new(message)),
            None => Ok(()),
        }
    }

    /// Checks the search rules.
    pub fn validate(&self) -> (result: Result<(), ConfigError>)
        ensures
            match self.fault(parsed_address(self.common.base_url@)) {
                Some((message, cause)) => {
                    &&& result matches Err(error)
                    &&& error.says(message, cause)
                },
                None => result is Ok,
            },
    {
        let base_url = parse_address(self.common.base_url.as_str());
        self.validate_at(&base_url)
    }
}

/// Tells whether a list of selectors is empty or has an empty one.
fn selectors_have_gap(selectors: &Vec<String>) -> (result: bool)
    ensures
        result == has_gap(texts(selectors@)),
{
    let ghost all = texts(selectors@);
    let mut i: usize = 0;
    while i < selectors.len()
        invariant
            i <= selectors@.len(),
            all == texts(selectors@),
            forall|k: int| 0 <= k < i ==> (#[trigger] all[k]).len() > 0,
        decreases selectors@.len() - i,
    {
        assert(all[i as int] == selectors@[i as int]@);
        if selectors[i].as_str().is_empty() {
            return true;
        }
        i += 1;
    }
    selectors.len() == 0
}

/// Looks for what is wrong with the rule for a field.
fn check_field(kind: &str, field: &str, rule: &FieldRule) -> (result: Option<String>)
    ensures
        match result {
            Some(message) => field_fault(kind@, field@, rule@) == Some(message@),
            None => field_fault(kind@, field@, rule@) is None,
        },
{
    if !rule.enabled {
        return None;
    }
    let fields = joined(joined("search.", kind).as_str(), ".fields.");
    let setting = joined(fields.as_str(), field);
    if selectors_have_gap(&rule.selectors) {
        return Some(joined(setting.as_str(), ".selectors 不能为空"));
    }
    match rule.max_length {
        Some(max_length) => {
            if max_length == 0 {
                return Some(joined(setting.as_str(), ".max_length 必须大于 0"));
            }
        },
        None => {},
    }
    None
}

/// Looks for the first faulty rule for a field.
fn check_fields(kind: &str, fields: &OrderedMap<FieldRule>) -> (result: Option<String>)
    ensures
        match result {
            Some(message) => fields_fault(kind@, fields@) == Some(message@),
            None => fields_fault(kind@, fields@) is None,
        },
{
    let mut i: usize = 0;
    while i < fields.len()
        invariant
            i <= fields@.len(),
            fields_fault(kind@, fields@.take(i as int)) is None,
        decreases fields@.len() - i,
    {
        proof {
            assert(fields@.take(i + 1).drop_last() =~= fields@.take(i as int));
            assert(fields@.take(i + 1).last() == fields@[i as int]);
        }
        match check_field(kind, fields.key_at(i).as_str(), fields.value_at(i)) {
            Some(message) => {
                proof {
                    lemma_fault_stays(kind@, fields@, i + 1);
                }
                return Some(message);
            },
            None => {},
        }
        i += 1;
    }
    assert(fields@.take(fields@.len() as int) =~= fields@);
    None
}

proof fn lemma_fault_stays(kind: Seq<char>, fields: Seq<(Seq<char>, FieldRuleView)>, n: int)
    requires
        0 <= n <= fields.len(),
        fields_fault(kind, fields.take(n)) is Some,
    ensures
        fields_fault(kind, fields) == fields_fault(kind, fields.take(n)),
    decreases fields.len(),
{
    if n < fields.len() {
        assert(fields.drop_last().take(n) =~= fields.take(n));
        lemma_fault_stays(kind, fields.drop_last(), n);
    } else {
        assert(fields.take(n) =~= fields);
    }
}

/// Looks for what is wrong with the rules for a kind of search first.
fn check_profile(kind: &str, profile: &SearchProfile) -> (result: Option<String>)
    ensures
        match result {
            Some(message) => profile_fault(kind@, profile@) == Some(message@),
            None => profile_fault(kind@, profile@) is None,
        },
{
    let rules = joined("search.", kind);
    if selectors_have_gap(&profile.root_selectors) {
        return Some(joined(rules.as_str(), ".root_selectors 不能为空"));
    }
    if profile.fields.is_empty() {
        return Some(joined(rules.as_str(), ".fields 不能为空"));
    }
    if profile.dedupe_field.as_str().is_empty() {
        return Some(joined(rules.as_str(), ".dedupe_field 不能为空"));
    }
    match profile.limit {
        Some(limit) => {
            if limit < 1 || limit > 100 {
                return Some(joined(rules.as_str(), ".limit 必须在 1 到 100 之间"));
            }
        },
        None => {},
    }
    check_fields(kind, &profile.fields)
}

/// Rules that are accepted have selectors for every enabled field, and ask for a number of results
/// that a page can have.
pub proof fn accepted_rules_are_usable(kind: Seq<char>, profile: ProfileView, i: int)
    requires
        profile_fault(kind, profile) is None,
    ensures
        !has_gap(profile.root_selectors),
        profile.fields.len() > 0,
        profile.dedupe_field.len() > 0,
        profile.limit matches Some(limit) ==> 1 <= limit <= 100,
        0 <= i < profile.fields.len() && profile.fields[i].1.enabled ==> {
            &&& !has_gap(profile.fields[i].1.selectors)
            &&& profile.fields[i].1.max_length != Some(0usize)
        },
{
    if 0 <= i < profile.fields.len() {
        lemma_no_fault(kind, profile.fields, i);
    }
}

proof fn lemma_no_fault(kind: Seq<char>, fields: Seq<(Seq<char>, FieldRuleView)>, i: int)
    requires
        0 <= i < fields.len(),
        fields_fault(kind, fields) is None,
    ensures
        field_fault(kind, fields[i].0, fields[i].1) is None,
    decreases fields.len(),
{
    if i < fields.len() - 1 {
        lemma_no_fault(kind, fields.drop_last(), i);
    }
}

/// Search rules are accepted only if those of every kind are.
pub proof fn every_kind_is_checked(search: SearchConfig, kind: SearchKind)
    requires
        search.kinds_fault() is None,
    ensures
        profile_fault(kind.name(), search.rules(kind)@) is None,
{
}

} // verus!
