//! The text of a configuration file, and the settings that it holds.
use vstd::prelude::*;

use crate::daemon::settings::{
    lemma_table_of_entries, merge_toml, merged, names_differ, Settings, SettingsTree,
};

verus! {

/// Trusted: a `toml::Value`, of which only what it holds is spoken.
#[verifier::external_type_specification]
#[verifier::external_body]
pub struct ExTomlValue(toml::Value);

/// What a TOML value holds: tables of named values, down to the TOML texts of values that are no
/// tables.
pub uninterp spec fn toml_tree(value: toml::Value) -> SettingsTree;

/// Whether `Display` can write a TOML value. A date that was put together by hand may be none that
/// can be written; what was read from a text always can.
pub uninterp spec fn is_writable(value: toml::Value) -> bool;

/// What `toml::from_str` reads from a text: the settings, or the error's message.
pub uninterp spec fn parsed_toml(text: Seq<char>) -> Result<SettingsTree, Seq<char>>;

/// Whether a table holds exactly the given entries, each under a name of its own.
pub open spec fn holds_entries(
    table: Map<Seq<char>, SettingsTree>,
    entries: Seq<(String, toml::Value)>,
) -> bool {
    &&& forall|i: int, j: int|
        0 <= i < j < entries.len() ==> (#[trigger] entries[i]).0@ != (#[trigger] entries[j]).0@
    &&& forall|i: int|
        0 <= i < entries.len() ==> table.contains_key((#[trigger] entries[i]).0@)
            && table[entries[i].0@] == toml_tree(entries[i].1)
    &&& forall|name: Seq<char>| #[trigger]
        table.contains_key(name) ==> exists|i: int|
            0 <= i < entries.len() && (#[trigger] entries[i]).0@ == name
}

/// Trusted: `toml::from_str` into a `toml::Value` depends on the text alone, and what it reads can be
/// written again.
#[verifier::external_body]
fn parse_toml(text: &str) -> (result: Result<toml::Value, String>)
    ensures
        match result {
            Ok(value) => {
                &&& parsed_toml(text@) == Ok::<SettingsTree, Seq<char>>(toml_tree(value))
                &&& is_writable(value)
            },
            Err(message) => parsed_toml(text@) == Err::<SettingsTree, Seq<char>>(message@),
        },
{
    toml::from_str::<toml::Value>(text).map_err(|error| error.to_string())
}

/// Trusted: a `toml::Value` is either a table, which hands out its entries with their names, each
/// once, or a value that `Display` writes as TOML text. What is in a table that can be written can be
/// written too.
#[verifier::external_body]
fn table_entries(value: toml::Value) -> (result: Result<Vec<(String, toml::Value)>, String>)
    requires
        is_writable(value),
    ensures
        match result {
            Ok(entries) => {
                &&& toml_tree(value) matches SettingsTree::Table(table)
                &&& holds_entries(table, entries@)
                &&& forall|i: int|
                    0 <= i < entries@.len() ==> is_writable((#[trigger] entries@[i]).1)
            },
            Err(text) => toml_tree(value) == SettingsTree::Value(text@),
        },
{
    match value {
        toml::Value::Table(table) => Ok(table.into_iter().collect()),
        value => Err(value.to_string()),
    }
}

/// The settings that a TOML value holds.
fn to_settings(value: toml::Value) -> (result: Settings)
    requires
        is_writable(value),
    ensures
        result.wf(),
        result.tree() == toml_tree(value),
    decreases toml_tree(value),
{
    let ghost tree = toml_tree(value);
    match table_entries(value) {
        Err(text) => Settings::Value(text),
        Ok(entries) => {
            let ghost table = tree->Table_0;
            let ghost all = entries@;
            proof {
                lemma_finite(table, all);
            }
            let mut settings: Vec<(String, Settings)> = Vec::new();
            for entry in iter: entries
                invariant
                    iter.seq() == all,
                    tree == toml_tree(value),
                    tree == SettingsTree::Table(table),
                    table.dom().finite(),
                    holds_entries(table, all),
                    forall|k: int| 0 <= k < all.len() ==> is_writable((#[trigger] all[k]).1),
                    settings@.len() == iter.index(),
                    forall|k: int|
                        0 <= k < settings@.len() ==> {
                            &&& (#[trigger] settings@[k]).0@ == all[k].0@
                            &&& settings@[k].1.wf()
                            &&& settings@[k].1.tree() == toml_tree(all[k].1)
                        },
            {
                let (name, inner) = entry;
                let ghost i = iter.index() as int;
                proof {
                    assert(all[i] == (name, inner));
                    assert(table.dom().contains(name@));
                    assert(toml_tree(inner) == table[name@]);
                    assert(decreases_to!(table => table[name@]));
                    assert(decreases_to!(tree => tree->Table_0));
                    assert(decreases_to!(tree => toml_tree(inner)));
                }
                settings.push((name, to_settings(inner)));
            }
            proof {
                assert(names_differ(settings@)) by {
                    assert forall|k: int, l: int| 0 <= k < l < settings@.len() implies (
                    #[trigger] settings@[k]).0@ != (#[trigger] settings@[l]).0@ by {
                        assert(all[k].0@ != all[l].0@);
                    }
                }
                assert forall|name: Seq<char>| #[trigger] table.contains_key(name) implies exists|
                    k: int,
                |
                    0 <= k < settings@.len() && (#[trigger] settings@[k]).0@ == name by {
                    let k = choose|k: int| 0 <= k < all.len() && (#[trigger] all[k]).0@ == name;
                    assert(settings@[k].0@ == name);
                }
                assert forall|k: int| 0 <= k < settings@.len() implies table.contains_key(
                    (#[trigger] settings@[k]).0@,
                ) && table[settings@[k].0@] == settings@[k].1.tree() by {
                    assert(table.contains_key(all[k].0@));
                }
                lemma_table_of_entries(settings@, table);
            }
            Settings::Table(settings)
        },
    }
}

proof fn lemma_finite(table: Map<Seq<char>, SettingsTree>, entries: Seq<(String, toml::Value)>)
    requires
        holds_entries(table, entries),
    ensures
        table.dom().finite(),
{
    let names = entries.map_values(|entry: (String, toml::Value)| entry.0@);
    assert(table.dom() =~= names.to_set()) by {
        assert forall|name: Seq<char>| table.dom().contains(name) <==> names.to_set().contains(
            name,
        ) by {
            if table.contains_key(name) {
                let i = choose|i: int| 0 <= i < entries.len() && (#[trigger] entries[i]).0@ == name;
                assert(names[i] == name);
            }
            if names.contains(name) {
                let i = names.index_of(name);
                assert(table.contains_key(entries[i].0@));
            }
        }
    }
}

/// The settings that a TOML text holds.
pub fn parse_settings(text: &str) -> (result: Result<Settings, String>)
    ensures
        match parsed_toml(text@) {
            Ok(tree) => {
                &&& result matches Ok(settings)
                &&& settings.wf()
                &&& settings.tree() == tree
            },
            Err(message) => {
                &&& result matches Err(error)
                &&& error@ == message
            },
        },
{
    match parse_toml(text) {
        Ok(value) => Ok(to_settings(value)),
        Err(message) => Err(message),
    }
}

/// The settings of a configuration file, given as its text, laid over the defaults.
pub fn file_settings(defaults: Settings, raw: &str) -> (result: Result<Settings, String>)
    requires
        defaults.wf(),
    ensures
        match parsed_toml(raw@) {
            Ok(over) => {
                &&& result matches Ok(settings)
                &&& settings.wf()
                &&& settings.tree() == merged(defaults.tree(), over)
            },
            Err(message) => {
                &&& result matches Err(error)
                &&& error@ == message
            },
        },
{
    match parse_settings(raw) {
        Ok(overrides) => {
            let mut settings = defaults;
            merge_toml(&mut settings, overrides);
            Ok(settings)
        },
        Err(message) => Err(message),
    }
}

} // verus!
