//! Settings as they stand in a configuration file, and how those of a file are laid over the
//! defaults.
use vstd::prelude::*;

use crate::text::same_text;

verus! {

/// Settings: tables of named settings, down to single values.
#[derive(Debug)]
pub enum Settings {
    Table(Vec<(String, Settings)>),
    /// A value that is no table, as TOML text.
    Value(String),
}

/// The contents of [`Settings`].
#[verifier::ext_equal]
pub enum SettingsTree {
    Table(Map<Seq<char>, SettingsTree>),
    Value(Seq<char>),
}

/// The table that a list of entries makes up.
pub open spec fn table_of(entries: Seq<(String, Settings)>) -> Map<Seq<char>, SettingsTree>
    decreases entries,
{
    if entries.len() == 0 {
        Map::empty()
    } else {
        table_of(entries.drop_last()).insert(entries.last().0@, entries.last().1.tree())
    }
}

/// Whether no name occurs twice.
pub open spec fn names_differ(entries: Seq<(String, Settings)>) -> bool {
    forall|i: int, j: int|
        0 <= i < j < entries.len() ==> (#[trigger] entries[i]).0@ != (#[trigger] entries[j]).0@
}

impl Settings {
    pub open spec fn tree(self) -> SettingsTree
        decreases self,
    {
        match self {
            Settings::Table(entries) => SettingsTree::Table(table_of(entries@)),
            Settings::Value(value) => SettingsTree::Value(value@),
        }
    }

    /// In no table a name occurs twice.
    pub open spec fn wf(self) -> bool
        decreases self,
    {
        match self {
            Settings::Table(entries) => names_differ(entries@) && forall|i: int|
                0 <= i < entries@.len() ==> (#[trigger] entries@[i]).1.wf(),
            Settings::Value(_) => true,
        }
    }
}

/// The settings of `overrides` and, where it says nothing, those of `base`.
pub open spec fn merged(base: SettingsTree, overrides: SettingsTree) -> SettingsTree
    decreases overrides,
{
    match (base, overrides) {
        (SettingsTree::Table(base), SettingsTree::Table(over)) => SettingsTree::Table(
            Map::new(
                |name: Seq<char>| base.contains_key(name) || over.contains_key(name),
                |name: Seq<char>|
                    if over.contains_key(name) {
                        if base.contains_key(name) {
                            merged(base[name], over[name])
                        } else {
                            over[name]
                        }
                    } else {
                        base[name]
                    },
            ),
        ),
        _ => overrides,
    }
}

/// The settings of the table `over` and, where it says nothing, those of the table `base`.
pub open spec fn merged_tables(
    base: Map<Seq<char>, SettingsTree>,
    over: Map<Seq<char>, SettingsTree>,
) -> Map<Seq<char>, SettingsTree> {
    Map::new(
        |name: Seq<char>| base.contains_key(name) || over.contains_key(name),
        |name: Seq<char>|
            if over.contains_key(name) {
                if base.contains_key(name) {
                    merged(base[name], over[name])
                } else {
                    over[name]
                }
            } else {
                base[name]
            },
    )
}

/// Merging two tables merges what they have under each name.
pub proof fn tables_are_merged_name_by_name(
    base: Map<Seq<char>, SettingsTree>,
    over: Map<Seq<char>, SettingsTree>,
)
    ensures
        merged(SettingsTree::Table(base), SettingsTree::Table(over)) == SettingsTree::Table(
            merged_tables(base, over),
        ),
{
    let table = merged(SettingsTree::Table(base), SettingsTree::Table(over))->Table_0;
    assert(table =~= merged_tables(base, over));
}

pub(crate) proof fn lemma_entry_is_in_table(entries: Seq<(String, Settings)>, i: int)
    requires
        names_differ(entries),
        0 <= i < entries.len(),
    ensures
        table_of(entries).contains_key(entries[i].0@),
        table_of(entries)[entries[i].0@] == entries[i].1.tree(),
    decreases entries.len(),
{
    if i < entries.len() - 1 {
        let rest = entries.drop_last();
        assert(names_differ(rest));
        lemma_entry_is_in_table(rest, i);
        assert(entries[i].0@ != entries[entries.len() - 1].0@);
    }
}

pub(crate) proof fn lemma_table_has_entry(entries: Seq<(String, Settings)>, name: Seq<char>) -> (i: int)
    requires
        table_of(entries).contains_key(name),
    ensures
        0 <= i < entries.len(),
        entries[i].0@ == name,
    decreases entries.len(),
{
    if entries.last().0@ == name {
        entries.len() - 1
    } else {
        lemma_table_has_entry(entries.drop_last(), name)
    }
}

pub(crate) proof fn lemma_table_of_entries(
    entries: Seq<(String, Settings)>,
    table: Map<Seq<char>, SettingsTree>,
)
    requires
        names_differ(entries),
        forall|i: int|
            0 <= i < entries.len() ==> table.contains_key((#[trigger] entries[i]).0@)
                && table[entries[i].0@] == entries[i].1.tree(),
        forall|name: Seq<char>| #[trigger]
            table.contains_key(name) ==> exists|i: int|
                0 <= i < entries.len() && (#[trigger] entries[i]).0@ == name,
    ensures
        table_of(entries) == table,
{
    assert forall|name: Seq<char>| #[trigger]
        table_of(entries).contains_key(name) == table.contains_key(name) by {
        if table_of(entries).contains_key(name) {
            let i = lemma_table_has_entry(entries, name);
        }
        if table.contains_key(name) {
            let i = choose|i: int| 0 <= i < entries.len() && (#[trigger] entries[i]).0@ == name;
            lemma_entry_is_in_table(entries, i);
        }
    }
    assert forall|name: Seq<char>| table.contains_key(name) implies #[trigger] table_of(
        entries,
    )[name] == table[name] by {
        let i = choose|i: int| 0 <= i < entries.len() && (#[trigger] entries[i]).0@ == name;
        lemma_entry_is_in_table(entries, i);
    }
    assert(table_of(entries) =~= table);
}

proof fn lemma_table_with_entry(
    before: Seq<(String, Settings)>,
    i: int,
    after: Seq<(String, Settings)>,
)
    requires
        names_differ(before),
        0 <= i < before.len(),
        after.len() == before.len(),
        after[i].0@ == before[i].0@,
        forall|k: int| 0 <= k < before.len() && k != i ==> #[trigger] after[k] == before[k],
    ensures
        names_differ(after),
        table_of(after) == table_of(before).insert(before[i].0@, after[i].1.tree()),
{
    assert forall|k: int| 0 <= k < before.len() implies (#[trigger] after[k]).0@ == before[k].0@ by {
        if k != i {
            assert(after[k] == before[k]);
        }
    }
    assert(names_differ(after)) by {
        assert forall|k: int, l: int| 0 <= k < l < after.len() implies (#[trigger] after[k]).0@ != (
        #[trigger] after[l]).0@ by {
            assert(before[k].0@ != before[l].0@);
        }
    }
    let expected = table_of(before).insert(before[i].0@, after[i].1.tree());
    assert forall|name: Seq<char>| #[trigger]
        table_of(after).contains_key(name) == expected.contains_key(name) by {
        if table_of(after).contains_key(name) {
            let k = lemma_table_has_entry(after, name);
            lemma_entry_is_in_table(before, k);
        }
        if table_of(before).contains_key(name) {
            let k = lemma_table_has_entry(before, name);
            lemma_entry_is_in_table(after, k);
        }
        lemma_entry_is_in_table(after, i);
    }
    assert forall|name: Seq<char>| table_of(after).contains_key(name) implies #[trigger] table_of(
        after,
    )[name] == expected[name] by {
        let k = lemma_table_has_entry(after, name);
        lemma_entry_is_in_table(after, k);
        lemma_entry_is_in_table(before, k);
    }
    assert(table_of(after) =~= expected);
}

/// Finds the entry with the given name.
fn position_of(entries: &Vec<(String, Settings)>, name: &str) -> (result: Option<usize>)
    ensures
        match result {
            Some(i) => i < entries@.len() && entries@[i as int].0@ == name@,
            None => forall|i: int| 0 <= i < entries@.len() ==> (#[trigger] entries@[i]).0@ != name@,
        },
{
    let mut i: usize = 0;
    while i < entries.len()
        invariant
            i <= entries@.len(),
            forall|k: int| 0 <= k < i ==> (#[trigger] entries@[k]).0@ != name@,
        decreases entries@.len() - i,
    {
        if same_text(entries[i].0.as_str(), name) {
            return Some(i);
        }
        i += 1;
    }
    None
}

/// Lays the settings of `overrides` over those of `base`, table by table.
pub fn merge_toml(base: &mut Settings, overrides: Settings)
    requires
        old(base).wf(),
        overrides.wf(),
    ensures
        final(base).wf(),
        final(base).tree() == merged(old(base).tree(), overrides.tree()),
    decreases overrides,
{
    match overrides {
        Settings::Table(over) => {
            match base {
                Settings::Table(entries) => {
                    merge_entries(entries, over);
                },
                Settings::Value(_) => {
                    *base = Settings::Table(over);
                },
            }
        },
        Settings::Value(value) => {
            *base = Settings::Value(value);
        },
    }
}

/// Lays the entries of a table over those of another.
fn merge_entries(entries: &mut Vec<(String, Settings)>, over: Vec<(String, Settings)>)
    requires
        Settings::Table(*old(entries)).wf(),
        Settings::Table(over).wf(),
    ensures
        Settings::Table(*final(entries)).wf(),
        SettingsTree::Table(table_of(final(entries)@)) == merged(
            SettingsTree::Table(table_of(old(entries)@)),
            SettingsTree::Table(table_of(over@)),
        ),
    decreases over,
{
    let ghost base = table_of(entries@);
    let ghost all = over@;
    assert(table_of(entries@) =~= merged_tables(base, table_of(all.take(0))));
    for entry in iter: over
        invariant
            iter.seq() == all,
            over@ == all,
            names_differ(all),
            forall|i: int| 0 <= i < all.len() ==> (#[trigger] all[i]).1.wf(),
            names_differ(entries@),
            forall|i: int| 0 <= i < entries@.len() ==> (#[trigger] entries@[i]).1.wf(),
            table_of(entries@) == merged_tables(base, table_of(all.take(iter.index() as int))),
    {
        let ghost before = entries@;
        let (name, value) = entry;
        let ghost tree = value.tree();
        let ghost i = iter.index() as int;
        let ghost done = table_of(all.take(i));
        proof {
            assert(all.take(i + 1).drop_last() =~= all.take(i));
            assert(all.take(i + 1).last() == all[i]);
            assert(table_of(all.take(i + 1)) == done.insert(name@, tree));
            if done.contains_key(name@) {
                let k = lemma_table_has_entry(all.take(i), name@);
                assert(all[k].0@ != all[i].0@);
            }
        }
        match position_of(&*entries, name.as_str()) {
            Some(at) => {
                proof {
                    lemma_entry_is_in_table(before, at as int);
                }
                merge_toml(&mut entries[at].1, value);
                proof {
                    lemma_table_with_entry(before, at as int, entries@);
                }
            },
            None => {
                proof {
                    if table_of(before).contains_key(name@) {
                        let k = lemma_table_has_entry(before, name@);
                    }
                }
                entries.push((name, value));
                assert(entries@.drop_last() =~= before);
            },
        }
        assert(table_of(entries@) =~= merged_tables(base, done.insert(name@, tree)));
    }
    proof {
        assert(all.take(all.len() as int) =~= all);
        tables_are_merged_name_by_name(base, table_of(all));
    }
}

/// What stands under a path of names.
pub open spec fn setting(tree: SettingsTree, path: Seq<Seq<char>>) -> Option<SettingsTree>
    decreases path.len(),
{
    if path.len() == 0 {
        Some(tree)
    } else {
        match tree {
            SettingsTree::Table(table) => if table.contains_key(path[0]) {
                setting(table[path[0]], path.drop_first())
            } else {
                None
            },
            SettingsTree::Value(_) => None,
        }
    }
}

/// Whether settings say nothing about what stands under a path of names.
pub open spec fn silent(tree: SettingsTree, path: Seq<Seq<char>>) -> bool
    decreases path.len(),
{
    match tree {
        SettingsTree::Table(table) => path.len() > 0 && (table.contains_key(path[0]) ==> silent(
            table[path[0]],
            path.drop_first(),
        )),
        SettingsTree::Value(_) => false,
    }
}

/// A value that is overridden has the new value afterwards.
pub proof fn overridden_values_take_effect(
    base: SettingsTree,
    over: SettingsTree,
    path: Seq<Seq<char>>,
)
    requires
        setting(over, path) matches Some(found) && found is Value,
    ensures
        setting(merged(base, over), path) == setting(over, path),
    decreases path.len(),
{
    match (base, over) {
        (SettingsTree::Table(b), SettingsTree::Table(o)) => {
            tables_are_merged_name_by_name(b, o);
            if path.len() > 0 && b.contains_key(path[0]) {
                overridden_values_take_effect(b[path[0]], o[path[0]], path.drop_first());
            }
        },
        _ => {},
    }
}

/// What is not overridden stays as it was.
pub proof fn unspecified_settings_stay(
    base: SettingsTree,
    over: SettingsTree,
    path: Seq<Seq<char>>,
)
    requires
        silent(over, path),
    ensures
        setting(merged(base, over), path) == setting(base, path),
    decreases path.len(),
{
    lemma_silence(over, path);
    match (base, over) {
        (SettingsTree::Table(b), SettingsTree::Table(o)) => {
            tables_are_merged_name_by_name(b, o);
            if o.contains_key(path[0]) {
                lemma_silence(o[path[0]], path.drop_first());
                if b.contains_key(path[0]) {
                    unspecified_settings_stay(b[path[0]], o[path[0]], path.drop_first());
                }
            }
        },
        _ => {},
    }
}

proof fn lemma_silence(tree: SettingsTree, path: Seq<Seq<char>>)
    requires
        silent(tree, path),
    ensures
        path.len() > 0,
        setting(tree, path) is None,
    decreases path.len(),
{
    match tree {
        SettingsTree::Table(table) => {
            if table.contains_key(path[0]) {
                lemma_silence(table[path[0]], path.drop_first());
            }
        },
        SettingsTree::Value(_) => {},
    }
}

/// Laying the same settings over a second time changes nothing.
pub proof fn merging_twice_is_merging_once(base: SettingsTree, over: SettingsTree)
    ensures
        merged(merged(base, over), over) == merged(base, over),
    decreases over,
{
    match over {
        SettingsTree::Table(o) => {
            let once = match base {
                SettingsTree::Table(b) => merged_tables(b, o),
                SettingsTree::Value(_) => o,
            };
            if base is Table {
                tables_are_merged_name_by_name(base->Table_0, o);
            }
            tables_are_merged_name_by_name(once, o);
            assert forall|name: Seq<char>| #[trigger] o.contains_key(name) implies merged(
                once[name],
                o[name],
            ) == once[name] by {
                if base is Table && base->Table_0.contains_key(name) {
                    merging_twice_is_merging_once(base->Table_0[name], o[name]);
                } else {
                    lemma_merging_with_itself(o[name]);
                }
            }
            assert(merged_tables(once, o) =~= once);
        },
        SettingsTree::Value(_) => {},
    }
}

proof fn lemma_merging_with_itself(tree: SettingsTree)
    ensures
        merged(tree, tree) == tree,
    decreases tree,
{
    match tree {
        SettingsTree::Table(table) => {
            tables_are_merged_name_by_name(table, table);
            assert forall|name: Seq<char>| #[trigger] table.contains_key(name) implies merged(
                table[name],
                table[name],
            ) == table[name] by {
                lemma_merging_with_itself(table[name]);
            }
            assert(merged_tables(table, table) =~= table);
        },
        SettingsTree::Value(_) => {},
    }
}

} // verus!
