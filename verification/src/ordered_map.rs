//! A map from text to values whose entries stand in the order of their keys.
use vstd::prelude::*;

use crate::text::{
    precedes, same_text, text_less, text_order_is_irreflexive, text_order_is_total,
    text_order_is_transitive,
};

verus! {

/// Entries in strictly ascending order of their keys, so that no key occurs twice.
#[derive(Debug)]
pub struct OrderedMap<V: View> {
    entries: Vec<(String, V)>,
}

/// Whether the keys ascend.
pub open spec fn ascending<T>(entries: Seq<(Seq<char>, T)>) -> bool {
    forall|i: int, j: int|
        0 <= i < j < entries.len() ==> text_less((#[trigger] entries[i]).0, (#[trigger] entries[j]).0)
}

/// The value under `key`.
pub open spec fn lookup<T>(entries: Seq<(Seq<char>, T)>, key: Seq<char>) -> Option<T>
    decreases entries.len(),
{
    if entries.len() == 0 {
        None
    } else if entries.last().0 == key {
        Some(entries.last().1)
    } else {
        lookup(entries.drop_last(), key)
    }
}

/// Whether `after` holds `value` under `key` and is like `before` everywhere else.
pub open spec fn is_inserted<T>(
    before: Seq<(Seq<char>, T)>,
    key: Seq<char>,
    value: T,
    after: Seq<(Seq<char>, T)>,
) -> bool {
    &&& ascending(after)
    &&& forall|k: Seq<char>|
        #[trigger] lookup(after, k) == if k == key {
            Some(value)
        } else {
            lookup(before, k)
        }
}

/// Whether `after` holds what `upper` holds and, under the other keys, what `base` holds.
pub open spec fn is_overlaid<T>(
    base: Seq<(Seq<char>, T)>,
    upper: Seq<(Seq<char>, T)>,
    after: Seq<(Seq<char>, T)>,
) -> bool {
    &&& ascending(after)
    &&& forall|k: Seq<char>|
        #[trigger] lookup(after, k) == match lookup(upper, k) {
            Some(value) => Some(value),
            None => lookup(base, k),
        }
}

/// What `upper` holds and, under the other keys, what `base` holds.
pub open spec fn overlay<T>(
    base: Seq<(Seq<char>, T)>,
    upper: Seq<(Seq<char>, T)>,
) -> Seq<(Seq<char>, T)> {
    choose|after: Seq<(Seq<char>, T)>| is_overlaid(base, upper, after)
}

/// There is only one way to lay one map over another.
pub proof fn overlays_are_unique<T>(
    base: Seq<(Seq<char>, T)>,
    upper: Seq<(Seq<char>, T)>,
    after: Seq<(Seq<char>, T)>,
)
    requires
        is_overlaid(base, upper, after),
    ensures
        overlay(base, upper) == after,
{
    assert(is_overlaid(base, upper, overlay(base, upper)));
    lookups_determine_the_entries(overlay(base, upper), after);
}

proof fn lemma_position<T>(entries: Seq<(Seq<char>, T)>, key: Seq<char>, at: int) -> (result: int)
    requires
        ascending(entries),
        0 <= at <= entries.len(),
        forall|i: int| at <= i < entries.len() ==> !text_less((#[trigger] entries[i]).0, key),
    ensures
        0 <= result <= entries.len(),
        forall|i: int| 0 <= i < result ==> text_less((#[trigger] entries[i]).0, key),
        forall|i: int| result <= i < entries.len() ==> !text_less((#[trigger] entries[i]).0, key),
    decreases at,
{
    if at == 0 {
        0
    } else if text_less(entries[at - 1].0, key) {
        assert forall|i: int| 0 <= i < at implies text_less((#[trigger] entries[i]).0, key) by {
            if i < at - 1 {
                text_order_is_transitive(entries[i].0, entries[at - 1].0, key);
            }
        }
        at
    } else {
        lemma_position(entries, key, at - 1)
    }
}

proof fn lemma_insertion<T>(entries: Seq<(Seq<char>, T)>, key: Seq<char>, value: T) -> (after: Seq<
    (Seq<char>, T),
>)
    requires
        ascending(entries),
    ensures
        is_inserted(entries, key, value, after),
{
    let at = lemma_position(entries, key, entries.len() as int);
    if at < entries.len() && entries[at].0 == key {
        lemma_lookup_update(entries, at, value);
        entries.update(at, (key, value))
    } else {
        assert forall|i: int| at <= i < entries.len() implies text_less(
            key,
            (#[trigger] entries[i]).0,
        ) by {
            text_order_is_total(key, entries[i].0);
            if i > at {
                assert(text_less(entries[at].0, entries[i].0));
            }
        }
        lemma_lookup_insert(entries, at, key, value);
        entries.insert(at, (key, value))
    }
}

proof fn lemma_overlay_from<T>(
    base: Seq<(Seq<char>, T)>,
    upper: Seq<(Seq<char>, T)>,
    at: int,
) -> (after: Seq<(Seq<char>, T)>)
    requires
        ascending(base),
        ascending(upper),
        0 <= at <= upper.len(),
    ensures
        is_overlaid(base, upper.skip(at), after),
    decreases upper.len() - at,
{
    if at == upper.len() {
        assert(upper.skip(at) =~= Seq::empty());
        base
    } else {
        let before = lemma_overlay_from(base, upper, at + 1);
        let after = lemma_insertion(before, upper[at].0, upper[at].1);
        lemma_overlay_step(base, upper, at, before, after);
        after
    }
}

/// Any map can be laid over any other.
pub proof fn overlays_exist<T>(base: Seq<(Seq<char>, T)>, upper: Seq<(Seq<char>, T)>)
    requires
        ascending(base),
        ascending(upper),
    ensures
        is_overlaid(base, upper, overlay(base, upper)),
{
    let after = lemma_overlay_from(base, upper, 0);
    assert(upper.skip(0) =~= upper);
}

/// Under a key that comes after all others an insertion adds a last entry.
pub proof fn a_last_key_is_added_at_the_end<T>(
    before: Seq<(Seq<char>, T)>,
    key: Seq<char>,
    value: T,
    after: Seq<(Seq<char>, T)>,
)
    requires
        ascending(before),
        forall|i: int| 0 <= i < before.len() ==> text_less((#[trigger] before[i]).0, key),
        is_inserted(before, key, value, after),
    ensures
        after == before.push((key, value)),
{
    lemma_lookup_insert(before, before.len() as int, key, value);
    lookups_determine_the_entries(after, before.insert(before.len() as int, (key, value)));
    assert(before.insert(before.len() as int, (key, value)) =~= before.push((key, value)));
}

/// Leaving out entries keeps the others in order.
pub proof fn leaving_out_entries_keeps_the_order<T>(
    entries: Seq<(Seq<char>, T)>,
    kept: spec_fn((Seq<char>, T)) -> bool,
)
    requires
        ascending(entries),
    ensures
        ascending(entries.filter(kept)),
    decreases entries.len(),
{
    reveal(Seq::filter);
    if entries.len() > 0 {
        let rest = entries.drop_last();
        leaving_out_entries_keeps_the_order(rest, kept);
        assert forall|i: int| 0 <= i < rest.filter(kept).len() implies text_less(
            (#[trigger] rest.filter(kept)[i]).0,
            entries.last().0,
        ) by {
            rest.lemma_filter_contains_rev(kept, rest.filter(kept)[i]);
            let k = rest.index_of(rest.filter(kept)[i]);
            assert(entries[k] == rest[k]);
        }
    }
}

/// The entries of a map are all different.
pub proof fn entries_differ<T>(entries: Seq<(Seq<char>, T)>)
    requires
        ascending(entries),
    ensures
        entries.no_duplicates(),
{
    assert forall|i: int, j: int| 0 <= i < j < entries.len() implies entries[i] != entries[j] by {
        text_order_is_irreflexive(entries[i].0);
    }
}

/// An entry of a map is found under its key.
pub proof fn entries_are_found<T>(entries: Seq<(Seq<char>, T)>, i: int)
    requires
        ascending(entries),
        0 <= i < entries.len(),
    ensures
        lookup(entries, entries[i].0) == Some(entries[i].1),
    decreases entries.len(),
{
    if i < entries.len() - 1 {
        text_order_is_irreflexive(entries[i].0);
        assert(text_less(entries[i].0, entries.last().0));
        assert(entries.drop_last()[i] == entries[i]);
        entries_are_found(entries.drop_last(), i);
    }
}

/// What a map finds under a key is one of its entries.
pub proof fn found_values_are_entries<T>(entries: Seq<(Seq<char>, T)>, key: Seq<char>) -> (i: int)
    requires
        lookup(entries, key) is Some,
    ensures
        0 <= i < entries.len(),
        entries[i] == (key, lookup(entries, key)->0),
    decreases entries.len(),
{
    if entries.last().0 == key {
        entries.len() - 1
    } else {
        found_values_are_entries(entries.drop_last(), key)
    }
}

/// Two maps that find the same under every key have the same entries in the same order.
pub proof fn lookups_determine_the_entries<T>(a: Seq<(Seq<char>, T)>, b: Seq<(Seq<char>, T)>)
    requires
        ascending(a),
        ascending(b),
        forall|k: Seq<char>| #[trigger] lookup(a, k) == lookup(b, k),
    ensures
        a == b,
    decreases a.len(),
{
    if a.len() == 0 {
        if b.len() > 0 {
            entries_are_found(b, b.len() - 1);
            assert(lookup(a, b.last().0) is None);
        }
        assert(a =~= b);
    } else {
        entries_are_found(a, a.len() - 1);
        let i = found_values_are_entries(b, a.last().0);
        entries_are_found(b, b.len() - 1);
        let j = found_values_are_entries(a, b.last().0);
        if i < b.len() - 1 {
            assert(text_less(b[i].0, b.last().0));
            if j < a.len() - 1 {
                assert(text_less(a[j].0, a.last().0));
                text_order_is_transitive(a.last().0, b.last().0, a.last().0);
            }
            text_order_is_irreflexive(a.last().0);
        }
        assert(a.last() == b.last());
        assert forall|k: Seq<char>| #[trigger]
            lookup(a.drop_last(), k) == lookup(b.drop_last(), k) by {
            assert(lookup(a, k) == lookup(b, k));
            if k == a.last().0 {
                if lookup(a.drop_last(), k) is Some {
                    let n = found_values_are_entries(a.drop_last(), k);
                    assert(a[n] == a.drop_last()[n]);
                    assert(text_less(a[n].0, a.last().0));
                    text_order_is_irreflexive(k);
                }
                if lookup(b.drop_last(), k) is Some {
                    let n = found_values_are_entries(b.drop_last(), k);
                    assert(b[n] == b.drop_last()[n]);
                    assert(text_less(b[n].0, b.last().0));
                    text_order_is_irreflexive(k);
                }
            }
        }
        lookups_determine_the_entries(a.drop_last(), b.drop_last());
        assert(a =~= a.drop_last().push(a.last()));
        assert(b =~= b.drop_last().push(b.last()));
    }
}

proof fn lemma_lookup_none<T>(entries: Seq<(Seq<char>, T)>, key: Seq<char>)
    requires
        forall|i: int| 0 <= i < entries.len() ==> (#[trigger] entries[i]).0 != key,
    ensures
        lookup(entries, key) is None,
{
    if lookup(entries, key) is Some {
        let i = found_values_are_entries(entries, key);
    }
}

proof fn lemma_lookup_update<T>(entries: Seq<(Seq<char>, T)>, at: int, value: T)
    requires
        ascending(entries),
        0 <= at < entries.len(),
    ensures
        is_inserted(entries, entries[at].0, value, entries.update(at, (entries[at].0, value))),
{
    let key = entries[at].0;
    let after = entries.update(at, (key, value));
    assert(ascending(after)) by {
        assert forall|i: int, j: int| 0 <= i < j < after.len() implies text_less(
            (#[trigger] after[i]).0,
            (#[trigger] after[j]).0,
        ) by {
            assert(after[i].0 == entries[i].0 && after[j].0 == entries[j].0);
        }
    }
    assert forall|k: Seq<char>| #[trigger]
        lookup(after, k) == if k == key {
            Some(value)
        } else {
            lookup(entries, k)
        } by {
        lemma_same_lookup(entries, after, k, key, value);
        if k == key {
            entries_are_found(after, at);
        }
    }
}

proof fn lemma_lookup_insert<T>(entries: Seq<(Seq<char>, T)>, at: int, key: Seq<char>, value: T)
    requires
        ascending(entries),
        0 <= at <= entries.len(),
        forall|i: int| 0 <= i < at ==> text_less((#[trigger] entries[i]).0, key),
        forall|i: int| at <= i < entries.len() ==> text_less(key, (#[trigger] entries[i]).0),
    ensures
        is_inserted(entries, key, value, entries.insert(at, (key, value))),
{
    let after = entries.insert(at, (key, value));
    assert(ascending(after)) by {
        assert forall|i: int, j: int| 0 <= i < j < after.len() implies text_less(
            (#[trigger] after[i]).0,
            (#[trigger] after[j]).0,
        ) by {
            if i < at {
                assert(after[i] == entries[i]);
            } else if i > at {
                assert(after[i] == entries[i - 1]);
            }
            if j < at {
                assert(after[j] == entries[j]);
            } else if j > at {
                assert(after[j] == entries[j - 1]);
            }
        }
    }
    assert forall|k: Seq<char>| #[trigger]
        lookup(after, k) == if k == key {
            Some(value)
        } else {
            lookup(entries, k)
        } by {
        if k == key {
            assert(after[at] == (key, value));
            entries_are_found(after, at);
        } else {
            if lookup(after, k) is Some {
                let i = found_values_are_entries(after, k);
                let n = if i < at {
                    i
                } else {
                    i - 1
                };
                assert(after[i] == entries[n]);
                entries_are_found(entries, n);
            }
            if lookup(entries, k) is Some {
                let n = found_values_are_entries(entries, k);
                let i = if n < at {
                    n
                } else {
                    n + 1
                };
                assert(after[i] == entries[n]);
                entries_are_found(after, i);
            }
        }
    }
}

/// Entries that agree but for the value under `key` look up alike under the other keys.
proof fn lemma_same_lookup<T>(
    a: Seq<(Seq<char>, T)>,
    b: Seq<(Seq<char>, T)>,
    k: Seq<char>,
    key: Seq<char>,
    value: T,
)
    requires
        a.len() == b.len(),
        forall|i: int|
            0 <= i < a.len() ==> (#[trigger] b[i]) == a[i] || (a[i].0 == key && b[i] == (
                key,
                value,
            )),
    ensures
        k != key ==> lookup(a, k) == lookup(b, k),
    decreases a.len(),
{
    if a.len() > 0 {
        assert(b[b.len() - 1] == b.last());
        assert forall|i: int| 0 <= i < a.len() - 1 implies (#[trigger] b.drop_last()[i])
            == a.drop_last()[i] || (a.drop_last()[i].0 == key && b.drop_last()[i] == (
            key,
            value,
        )) by {
            assert(b[i] == b.drop_last()[i]);
        }
        lemma_same_lookup(a.drop_last(), b.drop_last(), k, key, value);
    }
}

impl<V: View> View for OrderedMap<V> {
    type V = Seq<(Seq<char>, V::V)>;

    closed spec fn view(&self) -> Seq<(Seq<char>, V::V)> {
        self.entries@.map_values(|entry: (String, V)| (entry.0@, entry.1@))
    }
}

impl<V: View> OrderedMap<V> {
    #[verifier::type_invariant]
    pub open spec fn inv(self) -> bool {
        ascending(self@)
    }

    pub fn new() -> (result: Self)
        ensures
            result@ == Seq::<(Seq<char>, V::V)>::empty(),
    {
        let result = OrderedMap { entries: Vec::new() };
        assert(result@ =~= Seq::<(Seq<char>, V::V)>::empty());
        result
    }

    pub fn len(&self) -> (result: usize)
        ensures
            result == self@.len(),
    {
        self.entries.len()
    }

    pub fn is_empty(&self) -> (result: bool)
        ensures
            result == (self@.len() == 0),
    {
        self.entries.len() == 0
    }

    /// The key of the entry at position `i` in key order.
    pub fn key_at(&self, i: usize) -> (result: &String)
        requires
            i < self@.len(),
        ensures
            result@ == self@[i as int].0,
    {
        &self.entries[i].0
    }

    /// The value of the entry at position `i` in key order.
    pub fn value_at(&self, i: usize) -> (result: &V)
        requires
            i < self@.len(),
        ensures
            result@ == self@[i as int].1,
    {
        &self.entries[i].1
    }

    /// The first position whose key is not before `key`.
    fn position(&self, key: &str) -> (at: usize)
        ensures
            at <= self.entries@.len(),
            forall|i: int| 0 <= i < at ==> text_less((#[trigger] self@[i]).0, key@),
            forall|i: int| at <= i < self@.len() ==> !text_less((#[trigger] self@[i]).0, key@),
    {
        proof {
            use_type_invariant(self);
        }
        let mut at: usize = 0;
        while at < self.entries.len() && precedes(self.entries[at].0.as_str(), key)
            invariant
                at <= self.entries@.len(),
                forall|i: int| 0 <= i < at ==> text_less((#[trigger] self@[i]).0, key@),
            decreases self.entries@.len() - at,
        {
            assert(self@[at as int].0 == self.entries@[at as int].0@);
            at += 1;
        }
        proof {
            if at < self@.len() {
                assert(!text_less(self@[at as int].0, key@)) by {
                    assert(self@[at as int].0 == self.entries@[at as int].0@);
                }
                assert forall|i: int| at <= i < self@.len() implies !text_less(
                    (#[trigger] self@[i]).0,
                    key@,
                ) by {
                    if i > at && text_less(self@[i].0, key@) {
                        assert(text_less(self@[at as int].0, self@[i].0));
                        text_order_is_transitive(self@[at as int].0, self@[i].0, key@);
                    }
                }
            }
        }
        at
    }

    pub fn get(&self, key: &str) -> (result: Option<&V>)
        ensures
            match result {
                Some(value) => lookup(self@, key@) == Some(value@),
                None => lookup(self@, key@) is None,
            },
    {
        proof {
            use_type_invariant(self);
        }
        let at: usize = self.position(key);
        if at < self.entries.len() && same_text(self.entries[at].0.as_str(), key) {
            proof {
                assert(self@[at as int].0 == key@);
                entries_are_found(self@, at as int);
            }
            return Some(&self.entries[at].1);
        }
        proof {
            assert forall|i: int| 0 <= i < self@.len() implies (#[trigger] self@[i]).0 != key@ by {
                text_order_is_irreflexive(key@);
                if i > at {
                    assert(text_less(self@[at as int].0, self@[i].0));
                } else if i == at {
                    assert(self@[i].0 == self.entries@[i].0@);
                }
            }
            lemma_lookup_none(self@, key@);
        }
        None
    }

    pub fn contains_key(&self, key: &str) -> (result: bool)
        ensures
            result == (lookup(self@, key@) is Some),
    {
        self.get(key).is_some()
    }

    /// Puts `value` under `key`, in place of what was there.
    pub fn insert(&mut self, key: String, value: V)
        ensures
            is_inserted(old(self)@, key@, value@, final(self)@),
    {
        proof {
            use_type_invariant(&*self);
        }
        let ghost before = self@;
        let at: usize = self.position(key.as_str());
        let mut entries: Vec<(String, V)> = Vec::new();
        std::mem::swap(&mut entries, &mut self.entries);
        if at < entries.len() && same_text(entries[at].0.as_str(), key.as_str()) {
            proof {
                assert(before[at as int].0 == key@);
                lemma_lookup_update(before, at as int, value@);
            }
            let ghost k = key@;
            let ghost v = value@;
            entries.set(at, (key, value));
            assert(entries@.map_values(|entry: (String, V)| (entry.0@, entry.1@)) =~= before.update(
                at as int,
                (k, v),
            ));
        } else {
            proof {
                assert forall|i: int| at <= i < before.len() implies text_less(
                    key@,
                    (#[trigger] before[i]).0,
                ) by {
                    text_order_is_total(before[i].0, key@);
                    if i == at {
                        assert(before[i].0 == entries@[i].0@);
                    } else {
                        assert(text_less(before[at as int].0, before[i].0));
                    }
                }
                lemma_lookup_insert(before, at as int, key@, value@);
            }
            let ghost k = key@;
            let ghost v = value@;
            entries.insert(at, (key, value));
            assert(entries@.map_values(|entry: (String, V)| (entry.0@, entry.1@)) =~= before.insert(
                at as int,
                (k, v),
            ));
        }
        self.entries = entries;
    }

    /// Puts every entry of `upper` into the map, in place of what was there.
    pub fn extend(&mut self, upper: OrderedMap<V>)
        ensures
            is_overlaid(old(self)@, upper@, final(self)@),
    {
        proof {
            use_type_invariant(&*self);
            use_type_invariant(&upper);
        }
        let ghost base = self@;
        let ghost over = upper@;
        let mut rest: Vec<(String, V)> = upper.entries;
        let ghost all = rest@;
        assert(over.skip(over.len() as int) =~= Seq::<(Seq<char>, V::V)>::empty());
        while rest.len() > 0
            invariant
                rest@.len() <= all.len(),
                rest@ == all.take(rest@.len() as int),
                over == all.map_values(|entry: (String, V)| (entry.0@, entry.1@)),
                ascending(over),
                is_overlaid(base, over.skip(rest@.len() as int), self@),
            decreases rest@.len(),
        {
            let ghost before = self@;
            let ghost at = rest@.len() - 1;
            let (key, value) = rest.pop().unwrap();
            let ghost k0 = key@;
            let ghost v0 = value@;
            assert(over[at] == (k0, v0));
            assert(rest@ =~= all.take(at));
            self.insert(key, value);
            proof {
                lemma_overlay_step(base, over, at, before, self@);
            }
        }
        assert(over.skip(0) =~= over);
    }
}

proof fn lemma_overlay_step<T>(
    base: Seq<(Seq<char>, T)>,
    over: Seq<(Seq<char>, T)>,
    at: int,
    before: Seq<(Seq<char>, T)>,
    after: Seq<(Seq<char>, T)>,
)
    requires
        ascending(over),
        0 <= at < over.len(),
        is_overlaid(base, over.skip(at + 1), before),
        is_inserted(before, over[at].0, over[at].1, after),
    ensures
        is_overlaid(base, over.skip(at), after),
{
    let upper = over.skip(at);
    let rest = over.skip(at + 1);
    assert(ascending(upper));
    assert(ascending(rest));
    assert forall|k: Seq<char>| #[trigger]
        lookup(after, k) == match lookup(upper, k) {
            Some(value) => Some(value),
            None => lookup(base, k),
        } by {
        assert(lookup(before, k) == match lookup(rest, k) {
            Some(value) => Some(value),
            None => lookup(base, k),
        });
        if k == over[at].0 {
            assert(upper[0] == over[at]);
            entries_are_found(upper, 0);
        } else {
            if lookup(upper, k) is Some {
                let i = found_values_are_entries(upper, k);
                assert(i > 0);
                assert(rest[i - 1] == upper[i]);
                entries_are_found(rest, i - 1);
            }
            if lookup(rest, k) is Some {
                let i = found_values_are_entries(rest, k);
                assert(upper[i + 1] == rest[i]);
                entries_are_found(upper, i + 1);
            }
        }
    }
}

impl<V: View + Clone> Clone for OrderedMap<V> {
    fn clone(&self) -> (result: Self)
        ensures
            (forall|a: V, b: V| #[trigger] cloned(a, b) ==> b@ == a@) ==> result@ == self@,
    {
        proof {
            use_type_invariant(self);
        }
        let mut result: OrderedMap<V> = OrderedMap::new();
        let ghost faithful = forall|a: V, b: V| #[trigger] cloned(a, b) ==> b@ == a@;
        let mut i: usize = 0;
        assert(self@.take(0) =~= Seq::<(Seq<char>, V::V)>::empty());
        while i < self.entries.len()
            invariant
                i <= self.entries@.len(),
                ascending(self@),
                faithful == (forall|a: V, b: V| #[trigger] cloned(a, b) ==> b@ == a@),
                faithful ==> result@ == self@.take(i as int),
            decreases self.entries@.len() - i,
        {
            let ghost before = result@;
            let value: V = self.entries[i].1.clone();
            let key: String = self.entries[i].0.clone();
            assert(cloned(self.entries@[i as int].1, value));
            let ghost k = key@;
            let ghost v = value@;
            result.insert(key, value);
            proof {
                if faithful {
                    let done = self@.take(i as int);
                    assert(self@[i as int] == (k, v));
                    lemma_lookup_insert(done, i as int, k, v);
                    assert(done.insert(i as int, (k, v)) =~= self@.take(i + 1));
                    use_type_invariant(&result);
                    lookups_determine_the_entries(result@, self@.take(i + 1));
                }
            }
            i += 1;
        }
        assert(self@.take(self@.len() as int) =~= self@);
        result
    }
}

/// Nothing is found under a key exactly if no entry has it.
pub proof fn nothing_is_found_iff_nothing_is_there<T>(
    entries: Seq<(Seq<char>, T)>,
    key: Seq<char>,
)
    ensures
        lookup(entries, key) is None <==> forall|i: int|
            0 <= i < entries.len() ==> (#[trigger] entries[i]).0 != key,
{
    if lookup(entries, key) is Some {
        let i = found_values_are_entries(entries, key);
    } else {
        lemma_no_entry(entries, key);
    }
    if forall|i: int| 0 <= i < entries.len() ==> (#[trigger] entries[i]).0 != key {
        lemma_lookup_none(entries, key);
    }
}

proof fn lemma_no_entry<T>(entries: Seq<(Seq<char>, T)>, key: Seq<char>)
    requires
        lookup(entries, key) is None,
    ensures
        forall|i: int| 0 <= i < entries.len() ==> (#[trigger] entries[i]).0 != key,
    decreases entries.len(),
{
    if entries.len() > 0 {
        lemma_no_entry(entries.drop_last(), key);
        assert forall|i: int| 0 <= i < entries.len() implies (#[trigger] entries[i]).0 != key by {
            if i < entries.len() - 1 {
                assert(entries.drop_last()[i] == entries[i]);
            }
        }
    }
}

/// Entries are in order exactly if each key comes before the next ones.
pub proof fn order_is_by_key<T>(entries: Seq<(Seq<char>, T)>)
    ensures
        ascending(entries) <==> forall|i: int, j: int|
            0 <= i < j < entries.len() ==> text_less(
                (#[trigger] entries[i]).0,
                (#[trigger] entries[j]).0,
            ),
{
}

/// An insertion puts the value under its key and leaves what is under other keys alone.
pub proof fn insertions_change_one_key<T>(
    before: Seq<(Seq<char>, T)>,
    key: Seq<char>,
    value: T,
    after: Seq<(Seq<char>, T)>,
    other: Seq<char>,
)
    requires
        is_inserted(before, key, value, after),
    ensures
        lookup(after, key) == Some(value),
        other != key ==> lookup(after, other) == lookup(before, other),
        ascending(after),
{
    assert(lookup(after, other) == if other == key {
        Some(value)
    } else {
        lookup(before, other)
    });
    assert(lookup(after, key) == Some(value));
}

/// What is laid over comes first, and what it does not speak of stays.
pub proof fn overlays_come_first<T>(
    base: Seq<(Seq<char>, T)>,
    upper: Seq<(Seq<char>, T)>,
    after: Seq<(Seq<char>, T)>,
    key: Seq<char>,
)
    requires
        is_overlaid(base, upper, after),
    ensures
        lookup(upper, key) is Some ==> lookup(after, key) == lookup(upper, key),
        lookup(upper, key) is None ==> lookup(after, key) == lookup(base, key),
        ascending(after),
{
    assert(lookup(after, key) == match lookup(upper, key) {
        Some(value) => Some(value),
        None => lookup(base, key),
    });
}

} // verus!
