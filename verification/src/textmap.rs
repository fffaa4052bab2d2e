//! A map from texts to values that keeps its entries in the order of their keys.

use crate::text::{comes_before, text_eq};
use crate::text;
use vstd::prelude::*;

verus! {

/// Whether the keys come in strictly ascending order; no key occurs twice then.
pub open spec fn keys_ascending<V>(entries: Seq<(Seq<char>, V)>) -> bool {
    forall|i: int, j: int|
        0 <= i < j < entries.len() ==> text::text_before(
            (#[trigger] entries[i]).0,
            (#[trigger] entries[j]).0,
        )
}

/// The value under a key.
pub open spec fn entries_get<V>(entries: Seq<(Seq<char>, V)>, key: Seq<char>) -> Option<V>
    decreases entries.len(),
{
    if entries.len() == 0 {
        None
    } else if entries[0].0 == key {
        Some(entries[0].1)
    } else {
        entries_get(entries.drop_first(), key)
    }
}

/// The entries with `value` under `key`, in place of what stood there.
pub open spec fn entries_insert<V>(
    entries: Seq<(Seq<char>, V)>,
    key: Seq<char>,
    value: V,
) -> Seq<(Seq<char>, V)>
    decreases entries.len(),
{
    if entries.len() == 0 {
        seq![(key, value)]
    } else if entries[0].0 == key {
        seq![(key, value)] + entries.drop_first()
    } else if text::text_before(key, entries[0].0) {
        seq![(key, value)] + entries
    } else {
        seq![entries[0]] + entries_insert(entries.drop_first(), key, value)
    }
}

/// The entries without the one under `key`.
pub open spec fn entries_remove<V>(
    entries: Seq<(Seq<char>, V)>,
    key: Seq<char>,
) -> Seq<(Seq<char>, V)>
    decreases entries.len(),
{
    if entries.len() == 0 {
        entries
    } else if entries[0].0 == key {
        entries.drop_first()
    } else {
        seq![entries[0]] + entries_remove(entries.drop_first(), key)
    }
}

/// The entries with every value mapped.
pub open spec fn map_entries<V, W>(
    entries: Seq<(Seq<char>, V)>,
    f: spec_fn(V) -> W,
) -> Seq<(Seq<char>, W)> {
    Seq::new(entries.len(), |i: int| (entries[i].0, f(entries[i].1)))
}

/// Mapping the values and inserting commute.
pub proof fn lemma_map_insert<V, W>(
    entries: Seq<(Seq<char>, V)>,
    f: spec_fn(V) -> W,
    key: Seq<char>,
    value: V,
)
    ensures
        map_entries(entries_insert(entries, key, value), f) == entries_insert(
            map_entries(entries, f),
            key,
            f(value),
        ),
    decreases entries.len(),
{
    let mapped = map_entries(entries, f);
    if entries.len() > 0 {
        let tail = entries.drop_first();
        lemma_map_insert(tail, f, key, value);
        assert(mapped.drop_first() =~= map_entries(tail, f));
        let inserted = entries_insert(tail, key, value);
        assert(map_entries(seq![entries[0]] + inserted, f) =~= seq![mapped[0]] + map_entries(
            inserted,
            f,
        ));
    }
    assert(map_entries(entries_insert(entries, key, value), f) =~= entries_insert(
        mapped,
        key,
        f(value),
    ));
}

/// Mapping the values and removing commute.
pub proof fn lemma_map_remove<V, W>(
    entries: Seq<(Seq<char>, V)>,
    f: spec_fn(V) -> W,
    key: Seq<char>,
)
    ensures
        map_entries(entries_remove(entries, key), f) == entries_remove(
            map_entries(entries, f),
            key,
        ),
    decreases entries.len(),
{
    let mapped = map_entries(entries, f);
    if entries.len() > 0 {
        let tail = entries.drop_first();
        lemma_map_remove(tail, f, key);
        assert(mapped.drop_first() =~= map_entries(tail, f));
        let removed = entries_remove(tail, key);
        assert(map_entries(seq![entries[0]] + removed, f) =~= seq![mapped[0]] + map_entries(
            removed,
            f,
        ));
    }
    assert(map_entries(entries_remove(entries, key), f) =~= entries_remove(mapped, key));
}

/// Mapping the values and looking up commute.
pub proof fn lemma_map_get<V, W>(
    entries: Seq<(Seq<char>, V)>,
    f: spec_fn(V) -> W,
    key: Seq<char>,
)
    ensures
        entries_get(map_entries(entries, f), key) == match entries_get(entries, key) {
            Some(value) => Some(f(value)),
            None => None,
        },
    decreases entries.len(),
{
    if entries.len() > 0 {
        lemma_map_get(entries.drop_first(), f, key);
        assert(map_entries(entries, f).drop_first() =~= map_entries(entries.drop_first(), f));
    }
}

/// The entries of a list of pairs, keys taken by their characters.
pub open spec fn raw_entries<V>(pairs: Seq<(String, V)>) -> Seq<(Seq<char>, V)> {
    Seq::new(pairs.len(), |i: int| (pairs[i].0@, pairs[i].1))
}

proof fn lemma_ascending_tail<V>(entries: Seq<(Seq<char>, V)>)
    requires
        keys_ascending(entries),
        entries.len() > 0,
    ensures
        keys_ascending(entries.drop_first()),
{
    let tail = entries.drop_first();
    assert forall|i: int, j: int| 0 <= i < j < tail.len() implies text::text_before(
        (#[trigger] tail[i]).0,
        (#[trigger] tail[j]).0,
    ) by {
        assert(tail[i] == entries[i + 1]);
        assert(tail[j] == entries[j + 1]);
    }
}

proof fn lemma_ascending_cons<V>(head: (Seq<char>, V), tail: Seq<(Seq<char>, V)>)
    requires
        keys_ascending(tail),
        tail.len() > 0 ==> text::text_before(head.0, tail[0].0),
    ensures
        keys_ascending(seq![head] + tail),
{
    let all = seq![head] + tail;
    assert forall|i: int, j: int| 0 <= i < j < all.len() implies text::text_before(
        (#[trigger] all[i]).0,
        (#[trigger] all[j]).0,
    ) by {
        assert(all[j] == tail[j - 1]);
        if i == 0 {
            if j > 1 {
                assert(text::text_before(tail[0].0, tail[j - 1].0));
                text::lemma_text_before_transitive(head.0, tail[0].0, tail[j - 1].0);
            }
        } else {
            assert(all[i] == tail[i - 1]);
        }
    }
}

/// What stands first after an insertion: the new key or the old first key.
proof fn lemma_insert_first<V>(entries: Seq<(Seq<char>, V)>, key: Seq<char>, value: V)
    ensures
        entries_insert(entries, key, value).len() > 0,
        entries_insert(entries, key, value)[0].0 == key || (entries.len() > 0 && entries_insert(
            entries,
            key,
            value,
        )[0].0 == entries[0].0),
{
}

/// Inserting keeps the keys in ascending order.
pub proof fn lemma_insert_ascending<V>(entries: Seq<(Seq<char>, V)>, key: Seq<char>, value: V)
    requires
        keys_ascending(entries),
    ensures
        keys_ascending(entries_insert(entries, key, value)),
    decreases entries.len(),
{
    if entries.len() == 0 {
    } else {
        lemma_ascending_tail(entries);
        let tail = entries.drop_first();
        if entries[0].0 == key {
            if tail.len() > 0 {
                assert(tail[0] == entries[1]);
                assert(text::text_before(entries[0].0, entries[1].0));
            }
            lemma_ascending_cons((key, value), tail);
        } else if text::text_before(key, entries[0].0) {
            lemma_ascending_cons((key, value), entries);
        } else {
            lemma_insert_ascending(tail, key, value);
            lemma_insert_first(tail, key, value);
            text::lemma_text_before_total(key, entries[0].0);
            if tail.len() > 0 {
                assert(tail[0] == entries[1]);
                assert(text::text_before(entries[0].0, entries[1].0));
            }
            lemma_ascending_cons(entries[0], entries_insert(tail, key, value));
        }
    }
}

/// Removing keeps the keys in ascending order.
pub proof fn lemma_remove_ascending<V>(entries: Seq<(Seq<char>, V)>, key: Seq<char>)
    requires
        keys_ascending(entries),
    ensures
        keys_ascending(entries_remove(entries, key)),
        entries_remove(entries, key).len() > 0 ==> exists|i: int|
            0 <= i < entries.len() && (#[trigger] entries[i]).0 == entries_remove(
                entries,
                key,
            )[0].0,
    decreases entries.len(),
{
    if entries.len() > 0 {
        lemma_ascending_tail(entries);
        let tail = entries.drop_first();
        if entries[0].0 == key {
            if tail.len() > 0 {
                assert(entries[1] == tail[0]);
            }
        } else {
            lemma_remove_ascending(tail, key);
            let rest = entries_remove(tail, key);
            if rest.len() > 0 {
                let i = choose|i: int| 0 <= i < tail.len() && (#[trigger] tail[i]).0 == rest[0].0;
                assert(tail[i] == entries[i + 1]);
                assert(text::text_before(entries[0].0, entries[i + 1].0));
            }
            lemma_ascending_cons(entries[0], rest);
            assert((seq![entries[0]] + rest)[0] == entries[0]);
        }
    }
}

/// A lookup after an insertion finds the new value under the new key and what was
/// there before under every other key.
pub proof fn lemma_get_after_insert<V>(
    entries: Seq<(Seq<char>, V)>,
    key: Seq<char>,
    value: V,
    other: Seq<char>,
)
    requires
        keys_ascending(entries),
    ensures
        entries_get(entries_insert(entries, key, value), other) == if other == key {
            Some(value)
        } else {
            entries_get(entries, other)
        },
    decreases entries.len(),
{
    let new = entries_insert(entries, key, value);
    if entries.len() == 0 {
        assert(new.drop_first() =~= entries);
    } else {
        lemma_ascending_tail(entries);
        let tail = entries.drop_first();
        if entries[0].0 == key {
            assert(new.drop_first() =~= tail);
        } else if text::text_before(key, entries[0].0) {
            assert(new.drop_first() =~= entries);
        } else {
            assert(new.drop_first() =~= entries_insert(tail, key, value));
            lemma_get_after_insert(tail, key, value, other);
        }
    }
}

/// A lookup after a removal finds nothing under the removed key and what was there
/// before under every other key.
pub proof fn lemma_get_after_remove<V>(
    entries: Seq<(Seq<char>, V)>,
    key: Seq<char>,
    other: Seq<char>,
)
    requires
        keys_ascending(entries),
    ensures
        entries_get(entries_remove(entries, key), other) == if other == key {
            None
        } else {
            entries_get(entries, other)
        },
    decreases entries.len(),
{
    if entries.len() > 0 {
        lemma_ascending_tail(entries);
        let tail = entries.drop_first();
        if entries[0].0 == key {
            lemma_get_absent_after(entries, key);
        } else {
            assert(entries_remove(entries, key).drop_first() =~= entries_remove(tail, key));
            lemma_get_after_remove(tail, key, other);
        }
    }
}

proof fn lemma_get_absent_after<V>(entries: Seq<(Seq<char>, V)>, key: Seq<char>)
    requires
        keys_ascending(entries),
        entries.len() > 0,
        entries[0].0 == key,
    ensures
        entries_get(entries.drop_first(), key) is None,
{
    let tail = entries.drop_first();
    assert forall|i: int| 0 <= i < tail.len() implies (#[trigger] tail[i]).0 != key by {
        assert(tail[i] == entries[i + 1]);
        assert(text::text_before(entries[0].0, entries[i + 1].0));
        text::lemma_text_before_irreflexive(key);
    }
    lemma_get_none(tail, key);
}

/// An entry whose key comes after all others goes to the end.
pub proof fn lemma_insert_last<V>(entries: Seq<(Seq<char>, V)>, key: Seq<char>, value: V)
    requires
        forall|k: int| 0 <= k < entries.len() ==> text::text_before((#[trigger] entries[k]).0, key),
    ensures
        entries_insert(entries, key, value) == entries.push((key, value)),
{
    assert forall|k: int| 0 <= k < entries.len() implies (#[trigger] entries[k]).0 != key
        && !text::text_before(key, entries[k].0) by {
        assert(text::text_before(entries[k].0, key));
        text::lemma_text_before_irreflexive(key);
        if text::text_before(key, entries[k].0) {
            text::lemma_text_before_transitive(key, entries[k].0, key);
        }
    }
    lemma_insert_at(entries, key, value, entries.len() as int);
    assert(entries.insert(entries.len() as int, (key, value)) =~= entries.push((key, value)));
}

/// Taking out an entry that was put in leaves what was there.
pub proof fn lemma_remove_after_insert<V>(
    entries: Seq<(Seq<char>, V)>,
    key: Seq<char>,
    value: V,
)
    requires
        entries_get(entries, key) is None,
    ensures
        entries_remove(entries_insert(entries, key, value), key) == entries,
    decreases entries.len(),
{
    let all = entries_insert(entries, key, value);
    if entries.len() == 0 {
        assert(entries_remove(all, key) =~= entries);
    } else if text::text_before(key, entries[0].0) {
        assert(all[0] == (key, value));
        assert(all.drop_first() =~= entries);
    } else {
        let tail = entries.drop_first();
        lemma_remove_after_insert(tail, key, value);
        assert(all[0] == entries[0]);
        assert(all.drop_first() =~= entries_insert(tail, key, value));
        assert(seq![entries[0]] + tail =~= entries);
    }
}

/// A lookup finds nothing where no entry has the key.
pub proof fn lemma_get_none<V>(entries: Seq<(Seq<char>, V)>, key: Seq<char>)
    requires
        forall|i: int| 0 <= i < entries.len() ==> (#[trigger] entries[i]).0 != key,
    ensures
        entries_get(entries, key) is None,
    decreases entries.len(),
{
    if entries.len() > 0 {
        let tail = entries.drop_first();
        assert forall|i: int| 0 <= i < tail.len() implies (#[trigger] tail[i]).0 != key by {
            assert(tail[i] == entries[i + 1]);
        }
        assert(entries[0].0 != key);
        lemma_get_none(tail, key);
    }
}

/// A lookup finds the value of the first entry with the key.
pub proof fn lemma_get_at<V>(entries: Seq<(Seq<char>, V)>, key: Seq<char>, n: int)
    requires
        0 <= n < entries.len(),
        entries[n].0 == key,
        forall|i: int| 0 <= i < n ==> (#[trigger] entries[i]).0 != key,
    ensures
        entries_get(entries, key) == Some(entries[n].1),
    decreases n,
{
    if n > 0 {
        let tail = entries.drop_first();
        assert(entries[0].0 != key);
        assert forall|i: int| 0 <= i < n - 1 implies (#[trigger] tail[i]).0 != key by {
            assert(tail[i] == entries[i + 1]);
        }
        lemma_get_at(tail, key, n - 1);
    }
}

proof fn lemma_insert_at<V>(entries: Seq<(Seq<char>, V)>, key: Seq<char>, value: V, n: int)
    requires
        0 <= n <= entries.len(),
        forall|i: int|
            0 <= i < n ==> (#[trigger] entries[i]).0 != key && !text::text_before(key, entries[i].0),
        n < entries.len() ==> entries[n].0 == key || text::text_before(key, entries[n].0),
    ensures
        entries_insert(entries, key, value) == if n < entries.len() && entries[n].0 == key {
            entries.update(n, (key, value))
        } else {
            entries.insert(n, (key, value))
        },
    decreases n,
{
    if n == 0 {
        if entries.len() == 0 {
            assert(entries.insert(0, (key, value)) =~= seq![(key, value)]);
        } else if entries[0].0 == key {
            assert(entries.update(0, (key, value)) =~= seq![(key, value)] + entries.drop_first());
        } else {
            assert(entries.insert(0, (key, value)) =~= seq![(key, value)] + entries);
        }
    } else {
        let tail = entries.drop_first();
        assert(entries[0].0 != key);
        assert forall|i: int| 0 <= i < n - 1 implies (#[trigger] tail[i]).0 != key && !text::text_before(
            key,
            tail[i].0,
        ) by {
            assert(tail[i] == entries[i + 1]);
        }
        lemma_insert_at(tail, key, value, n - 1);
        if n < entries.len() && entries[n].0 == key {
            assert(entries.update(n, (key, value)) =~= seq![entries[0]] + tail.update(
                n - 1,
                (key, value),
            ));
        } else {
            assert(entries.insert(n, (key, value)) =~= seq![entries[0]] + tail.insert(
                n - 1,
                (key, value),
            ));
        }
    }
}

proof fn lemma_remove_at<V>(entries: Seq<(Seq<char>, V)>, key: Seq<char>, n: int)
    requires
        0 <= n <= entries.len(),
        forall|i: int| 0 <= i < n ==> (#[trigger] entries[i]).0 != key,
        n < entries.len() ==> entries[n].0 == key,
    ensures
        entries_remove(entries, key) == if n < entries.len() {
            entries.remove(n)
        } else {
            entries
        },
    decreases n,
{
    if entries.len() == 0 {
    } else if n == 0 {
        assert(entries.remove(0) =~= entries.drop_first());
    } else {
        let tail = entries.drop_first();
        assert(entries[0].0 != key);
        assert forall|i: int| 0 <= i < n - 1 implies (#[trigger] tail[i]).0 != key by {
            assert(tail[i] == entries[i + 1]);
        }
        lemma_remove_at(tail, key, n - 1);
        if n < entries.len() {
            assert(entries.remove(n) =~= seq![entries[0]] + tail.remove(n - 1));
        } else {
            assert(entries =~= seq![entries[0]] + tail);
        }
    }
}

/// The entries of a map from texts to texts, both taken by their characters.
pub open spec fn text_entries(map: TextMap<String>) -> Seq<(Seq<char>, Seq<char>)> {
    map_entries(map.raw(), |value: String| value@)
}

/// Whether a place parts the entries whose keys come before a key from the others.
pub open spec fn is_place<V>(entries: Seq<(Seq<char>, V)>, key: Seq<char>, n: int) -> bool {
    &&& 0 <= n <= entries.len()
    &&& forall|k: int| 0 <= k < n ==> text::text_before((#[trigger] entries[k]).0, key)
    &&& forall|k: int| n <= k < entries.len() ==> !text::text_before((#[trigger] entries[k]).0, key)
}

/// A key stands at its place, or nowhere.
pub proof fn lemma_at_place<V>(entries: Seq<(Seq<char>, V)>, key: Seq<char>, n: int)
    requires
        keys_ascending(entries),
        is_place(entries, key, n),
    ensures
        forall|k: int|
            0 <= k < n ==> (#[trigger] entries[k]).0 != key && !text::text_before(key, entries[k].0),
        forall|k: int| n < k < entries.len() ==> (#[trigger] entries[k]).0 != key,
        n < entries.len() && entries[n].0 != key ==> text::text_before(key, entries[n].0),
{
    assert forall|k: int| 0 <= k < n implies (#[trigger] entries[k]).0 != key && !text::text_before(
        key,
        entries[k].0,
    ) by {
        text::lemma_text_before_irreflexive(key);
        if text::text_before(key, entries[k].0) {
            text::lemma_text_before_transitive(key, entries[k].0, key);
        }
    }
    if n < entries.len() {
        text::lemma_text_before_total(key, entries[n].0);
        assert forall|k: int| n < k < entries.len() implies (#[trigger] entries[k]).0 != key by {
            assert(text::text_before(entries[n].0, entries[k].0));
        }
    }
}

/// The place of a key among entries.
fn place_for<V>(entries: &Vec<(String, V)>, key: &str) -> (place: usize)
    requires
        keys_ascending(raw_entries(entries@)),
    ensures
        is_place(raw_entries(entries@), key@, place as int),
{
    let ghost raw = raw_entries(entries@);
    let mut low: usize = 0;
    let mut high: usize = entries.len();
    while low < high
        invariant
            low <= high <= entries@.len(),
            raw == raw_entries(entries@),
            keys_ascending(raw),
            forall|k: int| 0 <= k < low ==> text::text_before((#[trigger] raw[k]).0, key@),
            forall|k: int| high <= k < raw.len() ==> !text::text_before((#[trigger] raw[k]).0, key@),
        decreases high - low,
    {
        let middle: usize = low + (high - low) / 2;
        assert(raw[middle as int].0 == entries@[middle as int].0@);
        if comes_before(entries[middle].0.as_str(), key) {
            proof {
                assert forall|k: int| 0 <= k < middle + 1 implies text::text_before(
                    (#[trigger] raw[k]).0,
                    key@,
                ) by {
                    if k < middle {
                        assert(text::text_before(raw[k].0, raw[middle as int].0));
                        text::lemma_text_before_transitive(raw[k].0, raw[middle as int].0, key@);
                    }
                }
            }
            low = middle + 1;
        } else {
            proof {
                assert forall|k: int| middle <= k < raw.len() implies !text::text_before(
                    (#[trigger] raw[k]).0,
                    key@,
                ) by {
                    if k > middle && text::text_before(raw[k].0, key@) {
                        assert(text::text_before(raw[middle as int].0, raw[k].0));
                        text::lemma_text_before_transitive(raw[middle as int].0, raw[k].0, key@);
                    }
                }
            }
            high = middle;
        }
    }
    low
}

/// A map from texts to values, in the order of the keys.
#[derive(Debug, PartialEq, Eq)]
pub struct TextMap<V> {
    pub(crate) entries: Vec<(String, V)>,
}

impl<V> TextMap<V> {
    /// The entries, keys taken by their characters.
    pub closed spec fn raw(&self) -> Seq<(Seq<char>, V)> {
        raw_entries(self.entries@)
    }

    #[verifier::type_invariant]
    pub(crate) closed spec fn ascending(&self) -> bool {
        keys_ascending(raw_entries(self.entries@))
    }

    pub(crate) proof fn lemma_raw(&self)
        ensures
            self.raw() == raw_entries(self.entries@),
    {
    }

    /// A map without entries.
    pub fn new() -> (map: Self)
        ensures
            map.raw() == Seq::<(Seq<char>, V)>::empty(),
    {
        let map = TextMap { entries: Vec::new() };
        assert(map.raw() =~= Seq::<(Seq<char>, V)>::empty());
        map
    }

    /// The keys of a map come in strictly ascending order.
    pub fn ordered(&self)
        ensures
            keys_ascending(self.raw()),
    {
        proof {
            use_type_invariant(self);
        }
    }

    /// The number of entries.
    pub fn len(&self) -> (len: usize)
        ensures
            len == self.raw().len(),
    {
        self.entries.len()
    }

    /// Whether there is no entry.
    pub fn is_empty(&self) -> (empty: bool)
        ensures
            empty == (self.raw().len() == 0),
    {
        self.entries.len() == 0
    }

    /// The key of the entry at an index.
    pub fn key_at(&self, index: usize) -> (key: &str)
        requires
            index < self.raw().len(),
        ensures
            key@ == self.raw()[index as int].0,
    {
        self.entries[index].0.as_str()
    }

    /// The value of the entry at an index.
    pub fn value_at(&self, index: usize) -> (value: &V)
        requires
            index < self.raw().len(),
        ensures
            *value == self.raw()[index as int].1,
    {
        &self.entries[index].1
    }

    /// The value under a key.
    pub fn get(&self, key: &str) -> (value: Option<&V>)
        ensures
            match (value, entries_get(self.raw(), key@)) {
                (Some(found), Some(expected)) => *found == expected,
                (None, None) => true,
                _ => false,
            },
    {
        proof {
            use_type_invariant(self);
        }
        let i = place_for(&self.entries, key);
        proof {
            lemma_at_place(self.raw(), key@, i as int);
        }
        if i < self.entries.len() && text_eq(self.entries[i].0.as_str(), key) {
            proof {
                lemma_get_at(self.raw(), key@, i as int);
            }
            return Some(&self.entries[i].1);
        }
        proof {
            lemma_get_none(self.raw(), key@);
        }
        None
    }

    /// Whether there is an entry under a key.
    pub fn contains_key(&self, key: &str) -> (found: bool)
        ensures
            found == entries_get(self.raw(), key@) is Some,
    {
        self.get(key).is_some()
    }

    /// Puts a value under a key, in place of what stood there.
    pub fn insert(&mut self, key: String, value: V)
        ensures
            final(self).raw() == entries_insert(old(self).raw(), key@, value),
    {
        proof {
            use_type_invariant(&*self);
        }
        let mut entries: Vec<(String, V)> = Vec::new();
        std::mem::swap(&mut entries, &mut self.entries);
        let ghost before = raw_entries(entries@);
        let i = place_for(&entries, key.as_str());
        proof {
            lemma_at_place(before, key@, i as int);
        }
        let replace = i < entries.len() && text_eq(entries[i].0.as_str(), key.as_str());
        proof {
            lemma_insert_at(before, key@, value, i as int);
            lemma_insert_ascending(before, key@, value);
        }
        let ghost key_text = key@;
        if replace {
            entries.set(i, (key, value));
            assert(raw_entries(entries@) =~= before.update(i as int, (key_text, value)));
        } else {
            entries.insert(i, (key, value));
            assert(raw_entries(entries@) =~= before.insert(i as int, (key_text, value)));
        }
        self.entries = entries;
    }

    /// Takes out the entry under a key.
    pub fn remove(&mut self, key: &str) -> (value: Option<V>)
        ensures
            value == entries_get(old(self).raw(), key@),
            final(self).raw() == entries_remove(old(self).raw(), key@),
    {
        proof {
            use_type_invariant(&*self);
        }
        let mut entries: Vec<(String, V)> = Vec::new();
        std::mem::swap(&mut entries, &mut self.entries);
        let ghost before = raw_entries(entries@);
        let place = place_for(&entries, key);
        proof {
            lemma_at_place(before, key@, place as int);
        }
        let i: usize = if place < entries.len() && text_eq(entries[place].0.as_str(), key) {
            place
        } else {
            entries.len()
        };
        proof {
            lemma_remove_at(before, key@, i as int);
            lemma_remove_ascending(before, key@);
        }
        if i < entries.len() {
            proof {
                lemma_get_at(before, key@, i as int);
            }
            let (_, value) = entries.remove(i);
            assert(raw_entries(entries@) =~= before.remove(i as int));
            self.entries = entries;
            Some(value)
        } else {
            proof {
                lemma_get_none(before, key@);
            }
            self.entries = entries;
            None
        }
    }
}

impl<V: Clone> Clone for TextMap<V> {
    fn clone(&self) -> (copy: Self)
        ensures
            copy.raw().len() == self.raw().len(),
            forall|i: int|
                0 <= i < copy.raw().len() ==> (#[trigger] copy.raw()[i]).0 == self.raw()[i].0
                    && cloned(self.raw()[i].1, copy.raw()[i].1),
    {
        proof {
            use_type_invariant(self);
        }
        let mut entries: Vec<(String, V)> = Vec::new();
        let mut i: usize = 0;
        while i < self.entries.len()
            invariant
                i <= self.entries@.len(),
                entries@.len() == i,
                forall|k: int|
                    0 <= k < i ==> (#[trigger] entries@[k]).0@ == self.entries@[k].0@ && cloned(
                        self.entries@[k].1,
                        entries@[k].1,
                    ),
            decreases self.entries@.len() - i,
        {
            entries.push((self.entries[i].0.clone(), self.entries[i].1.clone()));
            i = i + 1;
        }
        proof {
            let a = raw_entries(self.entries@);
            let b = raw_entries(entries@);
            assert forall|k: int, l: int| 0 <= k < l < b.len() implies text::text_before(
                (#[trigger] b[k]).0,
                (#[trigger] b[l]).0,
            ) by {
                assert(entries@[k].0@ == a[k].0);
                assert(entries@[l].0@ == a[l].0);
            }
        }
        TextMap { entries }
    }
}

} // verus!
