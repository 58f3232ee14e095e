//! Results as the command line client hands them on, and which of them are the same.
use indexmap::IndexMap;
use vstd::hash_set::StringHashSet;
use vstd::prelude::*;

use crate::ordered_map::lookup;
use crate::text::{joined, texts};

verus! {

/// One result: field names with their texts, in the order in which the daemon sent them.
pub type SearchResult = IndexMap<String, String>;

/// Trusted: an `indexmap::IndexMap`, of which only its contents are spoken.
#[verifier::external_type_specification]
#[verifier::external_body]
#[verifier::reject_recursive_types(K)]
#[verifier::reject_recursive_types(V)]
#[verifier::reject_recursive_types(S)]
pub struct ExIndexMap<K, V, S>(IndexMap<K, V, S>);

/// The entries of a result, in their order.
pub uninterp spec fn result_entries(result: IndexMap<String, String>) -> Seq<
    (Seq<char>, Seq<char>),
>;

/// What `serde_json::to_string` makes of the entries of a map.
pub uninterp spec fn json_text(entries: Seq<(Seq<char>, Seq<char>)>) -> Seq<char>;

/// Trusted: `IndexMap::get` finds the value under the key, if there is one.
#[verifier::external_body]
fn field<'a>(result: &'a IndexMap<String, String>, name: &str) -> (value: Option<&'a String>)
    ensures
        match value {
            Some(value) => lookup(result_entries(*result), name@) == Some(value@),
            None => lookup(result_entries(*result), name@) is None,
        },
{
    result.get(name)
}

/// Trusted: `serde_json::to_string` of a map from strings to strings succeeds, depends on the
/// entries and their order alone, starts with a brace, and is different for different entries.
#[verifier::external_body]
fn to_json(result: &IndexMap<String, String>) -> (text: String)
    ensures
        text@ == json_text(result_entries(*result)),
        text@.len() > 0 && text@[0] == '{',
        forall|other: IndexMap<String, String>|
            json_text(#[trigger] result_entries(other)) == text@ ==> result_entries(other)
                == result_entries(*result),
{
    serde_json::to_string(result).expect("a search result containing only strings is valid JSON")
}

/// What two results have in common if they are the same.
pub enum Identity {
    /// The address.
    Address(Seq<char>),
    /// All entries in their order, of a result without an address.
    Entries(Seq<(Seq<char>, Seq<char>)>),
}

/// What identifies a result with the given entries.
pub open spec fn identity(entries: Seq<(Seq<char>, Seq<char>)>) -> Identity {
    match lookup(entries, "url"@) {
        Some(url) => if url.len() > 0 {
            Identity::Address(url)
        } else {
            Identity::Entries(entries)
        },
        None => Identity::Entries(entries),
    }
}

/// The identity of a result.
pub open spec fn identity_of(result: SearchResult) -> Identity {
    identity(result_entries(result))
}

/// The text that stands for an identity.
pub open spec fn key_of(identity: Identity) -> Seq<char> {
    match identity {
        Identity::Address(url) => "url\0"@ + url,
        Identity::Entries(entries) => json_text(entries),
    }
}

/// Whether a result has an address.
pub open spec fn has_address(result: SearchResult) -> bool {
    lookup(result_entries(result), "url"@) matches Some(url) && url.len() > 0
}

/// Whether one of the results has the given identity.
pub open spec fn has_identity(results: Seq<SearchResult>, key: Identity) -> bool {
    exists|i: int| 0 <= i < results.len() && identity_of(#[trigger] results[i]) == key
}

/// The results without those that are the same as an earlier one.
pub open spec fn deduped(results: Seq<SearchResult>) -> Seq<SearchResult>
    decreases results.len(),
{
    if results.len() == 0 {
        Seq::empty()
    } else {
        let before = deduped(results.drop_last());
        if has_identity(results.drop_last(), identity_of(results.last())) {
            before
        } else {
            before.push(results.last())
        }
    }
}

/// The text that identifies a result by its address, where it has one.
pub fn address_identity(url: Option<&String>) -> (key: Option<String>)
    ensures
        match key {
            Some(key) => {
                &&& url matches Some(url)
                &&& url@.len() > 0
                &&& key@ == "url\0"@ + url@
            },
            None => url matches Some(url) ==> url@.len() == 0,
        },
{
    match url {
        Some(url) => if url.as_str().is_empty() {
            None
        } else {
            Some(joined("url\0", url.as_str()))
        },
        None => None,
    }
}

/// Tells of each text whether it is the first of its kind in the list.
pub fn first_occurrences(keys: &Vec<String>) -> (flags: Vec<bool>)
    ensures
        flags@.len() == keys@.len(),
        forall|i: int|
            0 <= i < flags@.len() ==> (#[trigger] flags@[i]) == !texts(keys@).take(i).contains(
                texts(keys@)[i],
            ),
{
    let ghost all = texts(keys@);
    let mut seen = StringHashSet::new();
    let mut flags: Vec<bool> = Vec::new();
    let mut i: usize = 0;
    assert(all.take(0).to_set() =~= seen@);
    while i < keys.len()
        invariant
            i <= keys@.len(),
            all == texts(keys@),
            flags@.len() == i,
            seen@ == all.take(i as int).to_set(),
            forall|k: int|
                0 <= k < flags@.len() ==> (#[trigger] flags@[k]) == !all.take(k).contains(all[k]),
        decreases keys@.len() - i,
    {
        let ghost key = keys@[i as int]@;
        let first = seen.insert(keys[i].clone());
        flags.push(first);
        proof {
            assert(all[i as int] == key);
            assert(all.take(i + 1) =~= all.take(i as int).push(key));
            assert(all.take(i + 1).to_set() =~= all.take(i as int).to_set().insert(key)) by {
                lemma_contains_push(all.take(i as int), key);
            }
        }
        i += 1;
    }
    flags
}

proof fn lemma_contains_push(s: Seq<Seq<char>>, last: Seq<char>)
    ensures
        forall|key: Seq<char>| #[trigger] s.push(last).contains(key) <==> s.contains(key) || key == last,
{
    assert forall|key: Seq<char>| #[trigger]
        s.push(last).contains(key) <==> s.contains(key) || key == last by {
        if s.contains(key) {
            let i = s.index_of(key);
            assert(s.push(last)[i] == key);
        }
        if key == last {
            assert(s.push(last)[s.len() as int] == key);
        }
        if s.push(last).contains(key) {
            let i = s.push(last).index_of(key);
            if i < s.len() {
                assert(s[i] == key);
            }
        }
    }
}

/// Whether texts tell results apart: they are the same exactly for the same results.
spec fn tell_apart(keys: Seq<Seq<char>>, results: Seq<SearchResult>) -> bool {
    &&& keys.len() == results.len()
    &&& forall|i: int, j: int|
        0 <= i < keys.len() && 0 <= j < keys.len() ==> (#[trigger] keys[i] == #[trigger] keys[j]
            <==> identity_of(results[i]) == identity_of(results[j]))
}

/// The texts that identify the results.
fn identities(results: &Vec<SearchResult>) -> (keys: Vec<String>)
    ensures
        tell_apart(texts(keys@), results@),
{
    let mut keys: Vec<String> = Vec::new();
    let mut i: usize = 0;
    while i < results.len()
        invariant
            i <= results@.len(),
            keys@.len() == i,
            forall|k: int|
                0 <= k < keys@.len() ==> (#[trigger] keys@[k])@ == key_of(identity_of(results@[k])),
            forall|k: int|
                0 <= k < keys@.len() && identity_of(results@[k]) is Entries ==> (
                #[trigger] keys@[k])@.len() > 0 && keys@[k]@[0] == '{',
            forall|k: int, other: SearchResult|
                0 <= k < keys@.len() && identity_of(results@[k]) is Entries && json_text(
                    #[trigger] result_entries(other),
                ) == (#[trigger] keys@[k])@ ==> result_entries(other) == result_entries(
                    results@[k],
                ),
        decreases results@.len() - i,
    {
        let key = match address_identity(field(&results[i], "url")) {
            Some(key) => key,
            None => to_json(&results[i]),
        };
        keys.push(key);
        i += 1;
    }
    proof {
        reveal_strlit("url\0");
        let found = texts(keys@);
        assert forall|i: int, j: int| 0 <= i < found.len() && 0 <= j < found.len() implies (
        #[trigger] found[i] == #[trigger] found[j] <==> identity_of(results@[i]) == identity_of(
            results@[j],
        )) by {
            assert(found[i] == keys@[i]@ && found[j] == keys@[j]@);
            if found[i] == found[j] {
                let entries = result_entries(results@[j]);
                match (identity_of(results@[i]), identity_of(results@[j])) {
                    (Identity::Address(a), Identity::Address(b)) => {
                        lemma_same_address(a, b);
                    },
                    (Identity::Entries(_), Identity::Entries(_)) => {
                        assert(json_text(entries) == keys@[i]@);
                    },
                    _ => {
                        assert(found[i][0] != found[j][0]);
                    },
                }
            }
        }
    }
    keys
}

proof fn lemma_same_address(a: Seq<char>, b: Seq<char>)
    requires
        "url\0"@ + a == "url\0"@ + b,
    ensures
        a == b,
{
    let start = "url\0"@;
    assert(a =~= (start + a).skip(start.len() as int));
    assert(b =~= (start + b).skip(start.len() as int));
}

/// Drops the results that are the same as an earlier one.
pub fn stable_dedupe(results: &mut Vec<SearchResult>)
    ensures
        final(results)@ == deduped(old(results)@),
{
    let keys = identities(&*results);
    let flags = first_occurrences(&keys);
    let ghost all = results@;
    let ghost found = texts(keys@);
    let mut rest: Vec<SearchResult> = Vec::new();
    core::mem::swap(results, &mut rest);
    assert(deduped(all.take(0)) =~= results@);
    let mut i: usize = 0;
    for result in iter: rest
        invariant
            iter.seq() == all,
            i == iter.index(),
            flags@.len() == all.len(),
            tell_apart(found, all),
            forall|k: int|
                0 <= k < flags@.len() ==> (#[trigger] flags@[k]) == !found.take(k).contains(
                    found[k],
                ),
            results@ == deduped(all.take(i as int)),
    {
        proof {
            let before = all.take(i as int);
            assert(all.take(i + 1).drop_last() =~= before);
            assert(all.take(i + 1).last() == result);
            let earlier = found.take(i as int);
            assert(has_identity(before, identity_of(result)) == earlier.contains(
                found[i as int],
            )) by {
                if has_identity(before, identity_of(result)) {
                    let k = choose|k: int|
                        0 <= k < before.len() && identity_of(#[trigger] before[k]) == identity_of(
                            result,
                        );
                    assert(before[k] == all[k]);
                    assert(found[k] == found[i as int]);
                    assert(earlier[k] == found[k]);
                }
                if earlier.contains(found[i as int]) {
                    let k = earlier.index_of(found[i as int]);
                    assert(found[k] == found[i as int]);
                    assert(before[k] == all[k]);
                }
            }
        }
        assert(i < flags.len());
        if flags[i] {
            results.push(result);
        }
        i += 1;
    }
    assert(all.take(all.len() as int) =~= all);
}

proof fn lemma_identities_push(before: Seq<SearchResult>, after: Seq<SearchResult>)
    requires
        after.len() == before.len() + 1,
        after.drop_last() == before,
    ensures
        forall|key: Identity| #[trigger]
            has_identity(after, key) <==> has_identity(before, key) || key == identity_of(
                after.last(),
            ),
{
    assert forall|key: Identity| #[trigger]
        has_identity(after, key) <==> has_identity(before, key) || key == identity_of(
        after.last(),
    ) by {
        if has_identity(before, key) {
            let i = choose|i: int|
                0 <= i < before.len() && identity_of(#[trigger] before[i]) == key;
            assert(after[i] == before[i]);
        }
        if key == identity_of(after.last()) {
            assert(after[after.len() - 1] == after.last());
        }
        if has_identity(after, key) {
            let i = choose|i: int| 0 <= i < after.len() && identity_of(#[trigger] after[i]) == key;
            if i < before.len() {
                assert(before[i] == after[i]);
            }
        }
    }
}

/// Nothing is lost: what is dropped is the same as something that stays.
pub proof fn every_identity_stays(results: Seq<SearchResult>)
    ensures
        forall|key: Identity| #[trigger]
            has_identity(deduped(results), key) <==> has_identity(results, key),
    decreases results.len(),
{
    if results.len() > 0 {
        let rest = results.drop_last();
        every_identity_stays(rest);
        lemma_identities_push(rest, results);
        if !has_identity(rest, identity_of(results.last())) {
            assert(deduped(results).drop_last() =~= deduped(rest));
            lemma_identities_push(deduped(rest), deduped(results));
        }
        assert forall|key: Identity| #[trigger]
            has_identity(deduped(results), key) <==> has_identity(results, key) by {
            assert(has_identity(deduped(rest), key) <==> has_identity(rest, key));
        }
    }
}

/// No two results that stay are the same.
pub proof fn no_identity_stays_twice(results: Seq<SearchResult>)
    ensures
        forall|i: int, j: int|
            0 <= i < j < deduped(results).len() ==> identity_of(#[trigger] deduped(results)[i])
                != identity_of(#[trigger] deduped(results)[j]),
    decreases results.len(),
{
    if results.len() > 0 {
        let rest = results.drop_last();
        let kept = deduped(results);
        no_identity_stays_twice(rest);
        every_identity_stays(rest);
        if !has_identity(rest, identity_of(results.last())) {
            assert(!has_identity(deduped(rest), identity_of(results.last())));
            assert forall|i: int, j: int| 0 <= i < j < kept.len() implies identity_of(
                #[trigger] kept[i],
            ) != identity_of(#[trigger] kept[j]) by {
                assert(kept[i] == deduped(rest)[i]);
                if j < deduped(rest).len() {
                    assert(kept[j] == deduped(rest)[j]);
                }
            }
        }
    }
}

/// A result that stays is the first of those that are the same, and what stays keeps its order.
pub proof fn the_first_result_stays(results: Seq<SearchResult>) -> (places: Seq<int>)
    ensures
        places.len() == deduped(results).len(),
        forall|k: int|
            0 <= k < places.len() ==> {
                &&& 0 <= #[trigger] places[k] < results.len()
                &&& deduped(results)[k] == results[places[k]]
                &&& !has_identity(results.take(places[k]), identity_of(results[places[k]]))
            },
        forall|k: int, l: int|
            0 <= k < l < places.len() ==> #[trigger] places[k] < #[trigger] places[l],
    decreases results.len(),
{
    if results.len() == 0 {
        Seq::empty()
    } else {
        let rest = results.drop_last();
        let before = the_first_result_stays(rest);
        assert forall|k: int| 0 <= k < before.len() implies {
            &&& 0 <= #[trigger] before[k] < results.len()
            &&& deduped(rest)[k] == results[before[k]]
            &&& !has_identity(results.take(before[k]), identity_of(results[before[k]]))
        } by {
            assert(rest.take(before[k]) =~= results.take(before[k]));
        }
        if has_identity(rest, identity_of(results.last())) {
            before
        } else {
            let places = before.push(results.len() - 1);
            assert(results.take(results.len() - 1) =~= rest);
            assert forall|k: int| 0 <= k < places.len() implies {
                &&& 0 <= #[trigger] places[k] < results.len()
                &&& deduped(results)[k] == results[places[k]]
                &&& !has_identity(results.take(places[k]), identity_of(results[places[k]]))
            } by {
                if k < before.len() {
                    assert(places[k] == before[k]);
                }
            }
            assert forall|k: int, l: int| 0 <= k < l < places.len() implies #[trigger] places[k]
                < #[trigger] places[l] by {
                assert(places[k] == before[k]);
                if l < before.len() {
                    assert(places[l] == before[l]);
                }
            }
            places
        }
    }
}

proof fn lemma_different_results_stay(results: Seq<SearchResult>)
    requires
        forall|i: int, j: int|
            0 <= i < j < results.len() ==> identity_of(#[trigger] results[i]) != identity_of(
                #[trigger] results[j],
            ),
    ensures
        deduped(results) == results,
    decreases results.len(),
{
    if results.len() > 0 {
        let rest = results.drop_last();
        assert forall|i: int, j: int| 0 <= i < j < rest.len() implies identity_of(
            #[trigger] rest[i],
        ) != identity_of(#[trigger] rest[j]) by {
            assert(rest[i] == results[i] && rest[j] == results[j]);
        }
        lemma_different_results_stay(rest);
        if has_identity(rest, identity_of(results.last())) {
            let i = choose|i: int|
                0 <= i < rest.len() && identity_of(#[trigger] rest[i]) == identity_of(
                    results.last(),
                );
            assert(results[i] == rest[i] && results[results.len() - 1] == results.last());
        }
        assert(rest.push(results.last()) =~= results);
    } else {
        assert(deduped(results) =~= results);
    }
}

/// Dropping repeated results a second time changes nothing.
pub proof fn dropping_repeated_results_is_idempotent(results: Seq<SearchResult>)
    ensures
        deduped(deduped(results)) == deduped(results),
{
    no_identity_stays_twice(results);
    lemma_different_results_stay(deduped(results));
}

/// Two results are the same if both have the same address, or if neither has one and they hold the
/// same entries in the same order.
pub proof fn what_makes_results_the_same(a: SearchResult, b: SearchResult)
    ensures
        identity_of(a) == identity_of(b) <==> {
            ||| has_address(a) && has_address(b) && lookup(result_entries(a), "url"@) == lookup(
                result_entries(b),
                "url"@,
            )
            ||| !has_address(a) && !has_address(b) && result_entries(a) == result_entries(b)
        },
{
}

} // verus!
