//! The method map of `methods.json`: signature keys to RVA strings, kept sorted by key
//! so that each key occurs once, and rendered as a pretty-printed JSON object.
use vstd::prelude::*;

use crate::errors::LayoutError;
use crate::text::chars_of;

verus! {

/// Lexicographic order on character sequences, by code point (the order of their UTF-8
/// encodings, and so of `String`).
pub open spec fn char_seq_lt(a: Seq<char>, b: Seq<char>) -> bool
    decreases a.len(),
{
    if a.len() == 0 {
        b.len() > 0
    } else if b.len() == 0 {
        false
    } else if a[0] != b[0] {
        (a[0] as int) < (b[0] as int)
    } else {
        char_seq_lt(a.drop_first(), b.drop_first())
    }
}

/// No sequence comes before itself.
pub proof fn lemma_char_seq_lt_irreflexive(a: Seq<char>)
    ensures
        !char_seq_lt(a, a),
    decreases a.len(),
{
    if a.len() > 0 {
        lemma_char_seq_lt_irreflexive(a.drop_first());
    }
}

/// Of two different sequences exactly one comes first.
pub proof fn lemma_char_seq_lt_total(a: Seq<char>, b: Seq<char>)
    ensures
        a != b ==> (char_seq_lt(a, b) || char_seq_lt(b, a)),
        !(char_seq_lt(a, b) && char_seq_lt(b, a)),
    decreases a.len(),
{
    if a.len() > 0 && b.len() > 0 {
        if a[0] == b[0] {
            lemma_char_seq_lt_total(a.drop_first(), b.drop_first());
            if a.drop_first() == b.drop_first() {
                assert(a =~= seq![a[0]] + a.drop_first());
                assert(b =~= seq![b[0]] + b.drop_first());
            }
        } else {
            assert((a[0] as int) != (b[0] as int));
        }
    } else if a.len() == 0 && b.len() == 0 {
        assert(a =~= b);
    }
}

/// The order is transitive.
pub proof fn lemma_char_seq_lt_transitive(a: Seq<char>, b: Seq<char>, c: Seq<char>)
    requires
        char_seq_lt(a, b),
        char_seq_lt(b, c),
    ensures
        char_seq_lt(a, c),
    decreases a.len(),
{
    if a.len() > 0 && b.len() > 0 && c.len() > 0 {
        if a[0] == b[0] && b[0] == c[0] {
            lemma_char_seq_lt_transitive(a.drop_first(), b.drop_first(), c.drop_first());
        }
    }
}

/// The map that a list of key/value entries describes; a later entry for a key replaces
/// an earlier one.
pub open spec fn entries_map(entries: Seq<(Seq<char>, Seq<char>)>) -> Map<Seq<char>, Seq<char>>
    decreases entries.len(),
{
    if entries.len() == 0 {
        Map::empty()
    } else {
        entries_map(entries.drop_last()).insert(entries.last().0, entries.last().1)
    }
}

/// The keys of `entries` are strictly increasing.
pub open spec fn keys_sorted(entries: Seq<(Seq<char>, Seq<char>)>) -> bool {
    forall|i: int, j: int| 0 <= i < j < entries.len() ==> char_seq_lt(#[trigger] entries[i].0, #[trigger] entries[j].0)
}

/// With distinct keys, the map has exactly the listed keys, each with its listed value.
proof fn lemma_entries_map_distinct(entries: Seq<(Seq<char>, Seq<char>)>)
    requires
        keys_sorted(entries),
    ensures
        forall|k: Seq<char>|
            #[trigger] entries_map(entries).dom().contains(k) <==> exists|i: int|
                0 <= i < entries.len() && entries[i].0 == k,
        forall|i: int|
            0 <= i < entries.len() ==> entries_map(entries)[#[trigger] entries[i].0] == entries[i].1,
    decreases entries.len(),
{
    if entries.len() > 0 {
        let rest = entries.drop_last();
        assert(keys_sorted(rest));
        lemma_entries_map_distinct(rest);
        assert forall|k: Seq<char>| #[trigger] entries_map(entries).dom().contains(k) <==> exists|i: int|
            0 <= i < entries.len() && entries[i].0 == k by {
            if entries_map(entries).dom().contains(k) && k != entries.last().0 {
                assert(entries_map(rest).dom().contains(k));
                let i = choose|i: int| 0 <= i < rest.len() && rest[i].0 == k;
                assert(entries[i].0 == k);
            }
            if exists|i: int| 0 <= i < entries.len() && entries[i].0 == k {
                let i = choose|i: int| 0 <= i < entries.len() && entries[i].0 == k;
                if i < entries.len() - 1 {
                    assert(rest[i].0 == k);
                }
            }
        }
        assert forall|i: int| 0 <= i < entries.len() implies entries_map(entries)[#[trigger] entries[i].0]
            == entries[i].1 by {
            if i < entries.len() - 1 {
                assert(char_seq_lt(entries[i].0, entries[entries.len() - 1].0));
                lemma_char_seq_lt_irreflexive(entries[i].0);
                assert(rest[i].0 == entries[i].0);
            }
        }
    }
}

/// Two lists with sorted keys describe the same map when they list the same keys with
/// the same values.
proof fn lemma_entries_map_ext(a: Seq<(Seq<char>, Seq<char>)>, m: Map<Seq<char>, Seq<char>>)
    requires
        keys_sorted(a),
        forall|k: Seq<char>| #[trigger] m.dom().contains(k) <==> exists|i: int| 0 <= i < a.len() && a[i].0 == k,
        forall|i: int| 0 <= i < a.len() ==> m[#[trigger] a[i].0] == a[i].1,
    ensures
        entries_map(a) == m,
{
    lemma_entries_map_distinct(a);
    assert forall|k: Seq<char>| #[trigger] entries_map(a).dom().contains(k) implies entries_map(a)[k] == m[k] by {
        let i = choose|i: int| 0 <= i < a.len() && a[i].0 == k;
    }
    assert(entries_map(a) =~= m);
}

/// Compares `a` and `b` in code-point order: `-1` when `a` comes first, `0` when they are
/// equal, `1` when `b` comes first.
pub fn compare_strs(a: &str, b: &str) -> (r: i8)
    ensures
        r == -1 <==> char_seq_lt(a@, b@),
        r == 0 <==> a@ == b@,
        r == 1 <==> char_seq_lt(b@, a@),
        -1 <= r <= 1,
{
    let x = chars_of(a);
    let y = chars_of(b);
    proof {
        lemma_char_seq_lt_total(a@, b@);
    }
    assert(x@.skip(0) =~= x@);
    assert(y@.skip(0) =~= y@);
    assert(x@.take(0) =~= y@.take(0));
    let mut i: usize = 0;
    while i < x.len() && i < y.len()
        invariant
            i <= x@.len(),
            i <= y@.len(),
            x@ == a@,
            y@ == b@,
            x@.take(i as int) == y@.take(i as int),
            char_seq_lt(a@, b@) == char_seq_lt(x@.skip(i as int), y@.skip(i as int)),
            char_seq_lt(b@, a@) == char_seq_lt(y@.skip(i as int), x@.skip(i as int)),
        decreases x@.len() - i,
    {
        let ghost xs = x@.skip(i as int);
        let ghost ys = y@.skip(i as int);
        assert(xs[0] == x@[i as int]);
        assert(ys[0] == y@[i as int]);
        if x[i] != y[i] {
            if x[i] < y[i] {
                return -1;
            } else {
                return 1;
            }
        }
        assert(xs.drop_first() =~= x@.skip(i + 1));
        assert(ys.drop_first() =~= y@.skip(i + 1));
        assert(x@.take(i + 1) =~= x@.take(i as int).push(x@[i as int]));
        assert(y@.take(i + 1) =~= y@.take(i as int).push(y@[i as int]));
        i += 1;
    }
    if x.len() == y.len() {
        assert(x@ =~= x@.take(i as int));
        assert(y@ =~= y@.take(i as int));
        proof {
            lemma_char_seq_lt_irreflexive(a@);
        }
        0
    } else if i == x.len() {
        assert(x@.skip(i as int).len() == 0);
        -1
    } else {
        assert(y@.skip(i as int).len() == 0);
        1
    }
}

/// A map from method signature to RVA text, with each key once, in key order. It is kept
/// as a vector sorted by key: vstd specifies the standard ordered map only for keys whose
/// order it knows, and it gives no order for `String`.
pub struct MethodMap {
    entries: Vec<(String, String)>,
}

/// The entries of a method map, seen through the strings' views.
pub open spec fn entry_views(entries: Seq<(String, String)>) -> Seq<(Seq<char>, Seq<char>)> {
    entries.map_values(|e: (String, String)| (e.0@, e.1@))
}

impl View for MethodMap {
    type V = Map<Seq<char>, Seq<char>>;

    closed spec fn view(&self) -> Map<Seq<char>, Seq<char>> {
        entries_map(entry_views(self.entries@))
    }
}

impl MethodMap {
    /// The entries are sorted by key, so no key occurs twice.
    pub closed spec fn wf(&self) -> bool {
        keys_sorted(entry_views(self.entries@))
    }

    /// An empty map.
    pub fn new() -> (r: MethodMap)
        ensures
            r.wf(),
            r@ == Map::<Seq<char>, Seq<char>>::empty(),
    {
        let r = MethodMap { entries: Vec::new() };
        assert(entry_views(r.entries@) =~= Seq::<(Seq<char>, Seq<char>)>::empty());
        r
    }

    /// The number of keys.
    pub fn len(&self) -> (r: usize)
        requires
            self.wf(),
        ensures
            r == self@.dom().len(),
    {
        proof {
            self.lemma_dom_len();
        }
        self.entries.len()
    }

    proof fn lemma_dom_len(&self)
        requires
            self.wf(),
        ensures
            self@.dom().len() == self.entries@.len(),
            self@.dom().finite(),
        decreases self.entries@.len(),
    {
        let views = entry_views(self.entries@);
        lemma_entries_map_distinct(views);
        lemma_sorted_dom_len(views);
    }

    /// Sets the value of `key` to `value`, replacing any earlier value.
    pub fn insert(&mut self, key: String, value: String)
        requires
            old(self).wf(),
        ensures
            final(self).wf(),
            final(self)@ == old(self)@.insert(key@, value@),
    {
        let ghost before = entry_views(self.entries@);
        proof {
            lemma_entries_map_distinct(before);
        }
        let mut low: usize = 0;
        let mut high: usize = self.entries.len();
        while low < high
            invariant
                low <= high <= self.entries@.len(),
                before == entry_views(self.entries@),
                keys_sorted(before),
                forall|i: int| 0 <= i < low ==> char_seq_lt(#[trigger] before[i].0, key@),
                forall|i: int| high <= i < before.len() ==> !char_seq_lt(#[trigger] before[i].0, key@),
            decreases high - low,
        {
            let mid = low + (high - low) / 2;
            assert(before[mid as int].0 == self.entries@[mid as int].0@);
            let order = compare_strs(self.entries[mid].0.as_str(), key.as_str());
            if order == -1 {
                proof {
                    assert forall|i: int| 0 <= i <= mid implies char_seq_lt(#[trigger] before[i].0, key@) by {
                        if i < mid {
                            lemma_char_seq_lt_transitive(before[i].0, before[mid as int].0, key@);
                        }
                    }
                }
                low = mid + 1;
            } else {
                proof {
                    lemma_char_seq_lt_total(before[mid as int].0, key@);
                    assert forall|i: int| mid <= i < before.len() implies !char_seq_lt(#[trigger] before[i].0, key@) by {
                        if i > mid {
                            lemma_char_seq_lt_total(before[i].0, key@);
                            if before[mid as int].0 != key@ {
                                lemma_char_seq_lt_transitive(key@, before[mid as int].0, before[i].0);
                            }
                        }
                    }
                }
                high = mid;
            }
        }
        let found = low < self.entries.len() && compare_strs(self.entries[low].0.as_str(), key.as_str()) == 0;
        let ghost expected = entries_map(before).insert(key@, value@);
        if found {
            assert(before[low as int].0 == key@);
            self.entries.set(low, (key, value));
            let ghost after = entry_views(self.entries@);
            assert(after =~= before.update(low as int, (key@, value@)));
            proof {
                assert(keys_sorted(after));
                assert forall|k: Seq<char>| #[trigger] expected.dom().contains(k) <==> exists|i: int|
                    0 <= i < after.len() && after[i].0 == k by {
                    if expected.dom().contains(k) && k != key@ {
                        assert(entries_map(before).dom().contains(k));
                        let i = choose|i: int| 0 <= i < before.len() && before[i].0 == k;
                        assert(after[i].0 == k);
                    }
                    if k == key@ {
                        assert(after[low as int].0 == k);
                    }
                    if exists|i: int| 0 <= i < after.len() && after[i].0 == k {
                        let i = choose|i: int| 0 <= i < after.len() && after[i].0 == k;
                        if i != low {
                            assert(before[i].0 == k);
                            assert(entries_map(before).dom().contains(k));
                        }
                    }
                }
                assert forall|i: int| 0 <= i < after.len() implies expected[#[trigger] after[i].0] == after[i].1 by {
                    if i != low {
                        if i < low {
                            assert(char_seq_lt(before[i].0, before[low as int].0));
                        } else {
                            assert(char_seq_lt(before[low as int].0, before[i].0));
                        }
                        lemma_char_seq_lt_irreflexive(key@);
                    }
                }
                lemma_entries_map_ext(after, expected);
            }
        } else {
            proof {
                if low < before.len() {
                    assert(before[low as int].0 == self.entries@[low as int].0@);
                    assert(before[low as int].0 != key@);
                    lemma_char_seq_lt_total(before[low as int].0, key@);
                    assert forall|j: int| low <= j < before.len() implies char_seq_lt(key@, #[trigger] before[j].0) by {
                        if j > low {
                            lemma_char_seq_lt_transitive(key@, before[low as int].0, before[j].0);
                        }
                    }
                }
            }
            self.entries.insert(low, (key, value));
            let ghost after = entry_views(self.entries@);
            assert(after =~= before.insert(low as int, (key@, value@)));
            proof {
                assert forall|i: int, j: int| 0 <= i < j < after.len() implies char_seq_lt(
                    #[trigger] after[i].0,
                    #[trigger] after[j].0,
                ) by {
                    if j < low {
                    } else if j == low {
                    } else if i < low {
                        assert(char_seq_lt(before[i].0, key@));
                        assert(char_seq_lt(key@, before[j - 1].0));
                        lemma_char_seq_lt_transitive(before[i].0, key@, before[j - 1].0);
                    } else if i == low {
                        assert(char_seq_lt(key@, before[j - 1].0));
                    } else {
                    }
                }
                assert forall|k: Seq<char>| #[trigger] expected.dom().contains(k) <==> exists|i: int|
                    0 <= i < after.len() && after[i].0 == k by {
                    if expected.dom().contains(k) && k != key@ {
                        assert(entries_map(before).dom().contains(k));
                        let i = choose|i: int| 0 <= i < before.len() && before[i].0 == k;
                        if i < low {
                            assert(after[i].0 == k);
                        } else {
                            assert(after[i + 1].0 == k);
                        }
                    }
                    if k == key@ {
                        assert(after[low as int].0 == k);
                    }
                    if exists|i: int| 0 <= i < after.len() && after[i].0 == k {
                        let i = choose|i: int| 0 <= i < after.len() && after[i].0 == k;
                        if i < low {
                            assert(before[i].0 == k);
                            assert(entries_map(before).dom().contains(k));
                        } else if i > low {
                            assert(before[i - 1].0 == k);
                            assert(entries_map(before).dom().contains(k));
                        }
                    }
                }
                assert forall|i: int| 0 <= i < after.len() implies expected[#[trigger] after[i].0] == after[i].1 by {
                    if i < low {
                        lemma_char_seq_lt_irreflexive(key@);
                        assert(before[i].0 != key@);
                    } else if i > low {
                        lemma_char_seq_lt_irreflexive(key@);
                        assert(before[i - 1].0 != key@);
                    }
                }
                lemma_entries_map_ext(after, expected);
            }
        }
    }

    /// The map rendered as a pretty-printed JSON object.
    pub fn to_pretty_json(&self) -> (r: Result<String, LayoutError>)
        requires
            self.wf(),
        ensures
            r matches Ok(text) && text@ == pretty_json_string_map(self@),
    {
        match pretty_json_of_entries(&self.entries) {
            Ok(text) => Ok(text),
            Err(_) => Err(LayoutError::JsonSerialization),
        }
    }
}

/// With sorted keys, the map has as many keys as the list has entries.
proof fn lemma_sorted_dom_len(entries: Seq<(Seq<char>, Seq<char>)>)
    requires
        keys_sorted(entries),
    ensures
        entries_map(entries).dom().len() == entries.len(),
        entries_map(entries).dom().finite(),
    decreases entries.len(),
{
    if entries.len() > 0 {
        let rest = entries.drop_last();
        assert(keys_sorted(rest));
        lemma_sorted_dom_len(rest);
        lemma_entries_map_distinct(rest);
        if entries_map(rest).dom().contains(entries.last().0) {
            let i = choose|i: int| 0 <= i < rest.len() && rest[i].0 == entries.last().0;
            assert(char_seq_lt(entries[i].0, entries[entries.len() - 1].0));
            lemma_char_seq_lt_irreflexive(entries.last().0);
        }
    }
}

/// The text that `serde_json::to_string_pretty` gives for a map of string keys to string
/// values (a `BTreeMap`, so its entries in key order).
pub uninterp spec fn pretty_json_string_map(map: Map<Seq<char>, Seq<char>>) -> Seq<char>;

#[verifier::external_type_specification]
#[verifier::external_body]
pub struct ExSerdeJsonError(serde_json::Error);

/// Calls `serde_json::to_string_pretty` on the `BTreeMap` holding `entries`; its text is the
/// named rendering of the map that the entries describe (the keys are distinct, so the map
/// holds every entry). The call succeeds: serde_json documents that it fails only where a
/// `Serialize` impl fails or a map key is not a string, and neither happens for a map of
/// `String` to `String`.
#[verifier::external_body]
fn pretty_json_of_entries(entries: &Vec<(String, String)>) -> (r: Result<String, serde_json::Error>)
    requires
        keys_sorted(entry_views(entries@)),
    ensures
        r is Ok,
        r matches Ok(text) ==> text@ == pretty_json_string_map(entries_map(entry_views(entries@))),
{
    let map: std::collections::BTreeMap<String, String> = entries.iter().cloned().collect();
    serde_json::to_string_pretty(&map)
}

} // verus!
