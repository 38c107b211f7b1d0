//! Discovery of the keys that a type table entry's base type word is encoded with.
//!
//! Type 0 of the table must be `<Module>`, whose base type word is the "no base" value.
//! The base type words of `System.Object`'s children, of value types and of enums are
//! each shared by many entries: they are read off the entries of `System.ValueType`,
//! `System.Enum` and `System.AttributeTargets` when those are found, and are otherwise
//! taken to be the most frequent large base type words.
use std::collections::HashMap;
use vstd::prelude::*;

use crate::bytes::{in_range, le_u32, read_u32_at, require_range};
use crate::errors::LayoutError;
use crate::static_layout::StaticLayout;
use crate::strings::{decode_string_raw, spec_decode_string_raw};
use crate::text::str_eq;

verus! {

broadcast use vstd::std_specs::hash::group_hash_axioms;

/// Size in bytes of a global type table entry.
pub const KEY_TYPE_ENTRY_SIZE: usize = 0x46;

/// How many leading entries the search for well-known type names looks at.
pub const KEY_NAME_SCAN_LIMIT: usize = 50_000;

/// A base type word must be shared by more entries than this to be taken as a sentinel.
pub const SENTINEL_MIN_COUNT: usize = 100;

/// A base type word must exceed this to be taken as a sentinel.
pub const SENTINEL_MIN_VALUE: u32 = 0x4000_0000;

/// The keys of a type table's base type words and attributes.
#[derive(Clone, Copy, Debug, PartialEq, Eq, Structural)]
pub struct TypeLayoutKeys {
    /// Xor key of the attribute word.
    pub type_attribute_key: u32,
    /// Subtracted from a base type word to give the parent type index.
    pub type_parent_key: u32,
    /// Base type word of a type without a base type.
    pub type_base_none: u32,
    /// Base type word of a direct child of `System.Object`.
    pub type_base_object: u32,
    /// Base type word of a value type.
    pub type_base_value_type: u32,
    /// Base type word of an enum.
    pub type_base_enum: u32,
}

/// Entries the type table is taken to hold: the descriptor's count, or fewer when the table
/// that follows the type table starts earlier.
pub open spec fn key_type_count(layout: StaticLayout, next_table_offset: u32) -> nat {
    let from_size: nat = if next_table_offset >= layout.global_type_table_offset {
        ((next_table_offset - layout.global_type_table_offset) / 0x46) as nat
    } else {
        0
    };
    if (layout.descriptor_count_80 as nat) < from_size {
        layout.descriptor_count_80 as nat
    } else {
        from_size
    }
}

/// How many leading entries have an offset: none when the table start leaves the 32-bit
/// range, else those whose offset fits in a `usize`, at most `count`.
pub open spec fn entry_limit(base: int, count: nat) -> nat {
    if base > u32::MAX {
        0
    } else {
        let room = ((usize::MAX - base) / 0x46) as nat;
        if count <= room {
            count
        } else {
            room + 1
        }
    }
}

/// Offset of type entry `index` in a table starting at `base`.
pub open spec fn key_entry(base: int, index: int) -> int {
    base + index * 0x46
}

/// Every one of the first `limit` entries lies inside the global metadata.
pub open spec fn entries_in_range(g: Seq<u8>, base: int, limit: nat) -> bool {
    forall|i: int| 0 <= i < limit ==> in_range(g, #[trigger] key_entry(base, i), 0x46)
}

/// The base type word of entry `index`.
pub open spec fn raw_base(g: Seq<u8>, base: int, index: int) -> u32 {
    le_u32(g, key_entry(base, index) + 4)
}

/// How many of the first `n` entries have base type word `value`.
pub open spec fn occurrences(g: Seq<u8>, base: int, value: u32, n: nat) -> nat
    decreases n,
{
    if n == 0 {
        0
    } else {
        occurrences(g, base, value, (n - 1) as nat) + if raw_base(g, base, n - 1) == value {
            1nat
        } else {
            0nat
        }
    }
}

/// The namespace and name of the type entry at `entry`.
pub open spec fn spec_type_names_at(g: Seq<u8>, layout: StaticLayout, entry: int) -> Result<
    (Seq<char>, Seq<char>),
    LayoutError,
> {
    if !in_range(g, entry + 0x24, 4) || !in_range(g, entry + 0x28, 4) {
        Err(LayoutError::OutOfRange)
    } else {
        match spec_decode_string_raw(g, layout, le_u32(g, entry + 0x24).wrapping_add(0xF1D3_2D89)) {
            Err(e) => Err(e),
            Ok(namespace) => match spec_decode_string_raw(g, layout, le_u32(g, entry + 0x28).wrapping_add(0xE9FD_68F8)) {
                Err(e) => Err(e),
                Ok(name) => Ok((namespace, name)),
            },
        }
    }
}

/// Base type words found so far for `System.ValueType`, `System.Enum` and
/// `System.AttributeTargets` (0 while not found).
pub open spec fn all_found(s: (u32, u32, u32)) -> bool {
    s.0 != 0 && s.1 != 0 && s.2 != 0
}

/// `s` after looking at a type called `namespace.name` with base type word `raw`.
pub open spec fn scan_update(s: (u32, u32, u32), namespace: Seq<char>, name: Seq<char>, raw: u32) -> (u32, u32, u32) {
    if namespace == "System"@ && name == "ValueType"@ {
        (raw, s.1, s.2)
    } else if namespace == "System"@ && name == "Enum"@ {
        (s.0, raw, s.2)
    } else if namespace == "System"@ && name == "AttributeTargets"@ {
        (s.0, s.1, raw)
    } else {
        s
    }
}

/// The search for the well-known types over the first `n` entries; it stops looking once
/// all three are found.
pub open spec fn spec_name_scan(g: Seq<u8>, layout: StaticLayout, base: int, n: nat) -> Result<
    (u32, u32, u32),
    LayoutError,
>
    decreases n,
{
    if n == 0 {
        Ok((0, 0, 0))
    } else {
        match spec_name_scan(g, layout, base, (n - 1) as nat) {
            Err(e) => Err(e),
            Ok(s) => if all_found(s) {
                Ok(s)
            } else {
                match spec_type_names_at(g, layout, key_entry(base, n - 1)) {
                    Err(e) => Err(e),
                    Ok((namespace, name)) => Ok(scan_update(s, namespace, name, raw_base(g, base, n - 1))),
                }
            },
        }
    }
}

/// `value` may serve as a sentinel: it is large, not excluded, and shared by more than
/// `SENTINEL_MIN_COUNT` of the first `limit` entries.
pub open spec fn sentinel_eligible(g: Seq<u8>, base: int, limit: nat, excluded: Seq<u32>, value: u32) -> bool {
    &&& occurrences(g, base, value, limit) > 100
    &&& value > 0x4000_0000
    &&& !excluded.contains(value)
}

/// `value` is an eligible base type word shared by the most entries (the smallest such
/// word where several are shared equally often).
pub open spec fn most_common_sentinel(g: Seq<u8>, base: int, limit: nat, excluded: Seq<u32>, value: u32) -> bool {
    &&& sentinel_eligible(g, base, limit, excluded, value)
    &&& forall|w: u32|
        #[trigger] sentinel_eligible(g, base, limit, excluded, w) ==> occurrences(g, base, w, limit) < occurrences(
            g,
            base,
            value,
            limit,
        ) || (occurrences(g, base, w, limit) == occurrences(g, base, value, limit) && value <= w)
}

/// The most common eligible base type word, if any.
pub open spec fn spec_most_common(g: Seq<u8>, base: int, limit: nat, excluded: Seq<u32>) -> Option<u32> {
    if exists|v: u32| most_common_sentinel(g, base, limit, excluded, v) {
        Some(choose|v: u32| most_common_sentinel(g, base, limit, excluded, v))
    } else {
        None
    }
}

/// The keys, from the base type word of type 0, its attribute word, the words found for
/// the well-known types, and the most common words where one was not found.
pub open spec fn spec_finish_keys(
    g: Seq<u8>,
    base: int,
    limit: nat,
    none: u32,
    attribute_key: u32,
    found: (u32, u32, u32),
) -> Result<TypeLayoutKeys, LayoutError> {
    let object = if found.0 != 0 {
        Some(found.0)
    } else {
        spec_most_common(g, base, limit, seq![none])
    };
    match object {
        None => Err(LayoutError::TypeSentinelNotFound),
        Some(object) => {
            let value_type = if found.1 != 0 {
                Some(found.1)
            } else {
                spec_most_common(g, base, limit, seq![none, object])
            };
            match value_type {
                None => Err(LayoutError::TypeSentinelNotFound),
                Some(value_type) => {
                    let enum_base = if found.2 != 0 {
                        Some(found.2)
                    } else {
                        spec_most_common(g, base, limit, seq![none, object, value_type])
                    };
                    match enum_base {
                        None => Err(LayoutError::TypeSentinelNotFound),
                        Some(enum_base) => Ok(
                            TypeLayoutKeys {
                                type_attribute_key: attribute_key,
                                type_parent_key: object.wrapping_sub(1),
                                type_base_none: none,
                                type_base_object: object,
                                type_base_value_type: value_type,
                                type_base_enum: enum_base,
                            },
                        ),
                    }
                },
            }
        },
    }
}

/// The keys of the type table of `layout` in `g`, whose entry count is bounded by the
/// descriptor and by `next_table_offset`, where the following table starts.
pub open spec fn spec_discover_type_layout_keys(layout: StaticLayout, g: Seq<u8>, next_table_offset: u32) -> Result<
    TypeLayoutKeys,
    LayoutError,
> {
    let count = key_type_count(layout, next_table_offset);
    let base = layout.payload_offset + layout.global_type_table_offset;
    if count == 0 {
        Err(LayoutError::EmptyTypeTable)
    } else if base > usize::MAX {
        Err(LayoutError::ArithmeticOverflow)
    } else if !in_range(g, base, 0x46) {
        Err(LayoutError::OutOfRange)
    } else {
        match spec_type_names_at(g, layout, base) {
            Err(e) => Err(e),
            Ok((_, module)) => if module != "<Module>"@ {
                Err(LayoutError::FirstTypeNotModule)
            } else {
                let none = le_u32(g, base + 4);
                let attribute_key = le_u32(g, base + 0x14) ^ 0x700u32;
                let limit = entry_limit(base, count);
                if !entries_in_range(g, base, limit) {
                    Err(LayoutError::OutOfRange)
                } else {
                    let scan = if limit < 50_000 {
                        limit
                    } else {
                        50_000
                    };
                    match spec_name_scan(g, layout, base, scan) {
                        Err(e) => Err(e),
                        Ok(found) => spec_finish_keys(g, base, limit, none, attribute_key, found),
                    }
                }
            },
        }
    }
}

/// Every offset below the entry limit fits in a `usize`.
proof fn lemma_entry_fits(base: int, count: nat, i: int)
    requires
        0 <= base,
        0 <= i < entry_limit(base, count),
    ensures
        key_entry(base, i) <= usize::MAX,
{
    let span = usize::MAX - base;
    let room = span / 0x46;
    assert(i <= room);
    assert(i * 0x46 <= room * 0x46) by (nonlinear_arith)
        requires
            0 <= i <= room,
    ;
    assert(room * 0x46 <= span) by (nonlinear_arith)
        requires
            span >= 0,
            room == span / 0x46,
    ;
}

/// Reads the namespace and name of the type entry at `entry`.
fn type_names_at(g: &[u8], layout: &StaticLayout, entry: usize) -> (r: Result<(String, String), LayoutError>)
    ensures
        match r {
            Ok((namespace, name)) => spec_type_names_at(g@, *layout, entry as int) == Ok::<
                (Seq<char>, Seq<char>),
                LayoutError,
            >((namespace@, name@)),
            Err(e) => spec_type_names_at(g@, *layout, entry as int) == Err::<(Seq<char>, Seq<char>), LayoutError>(e),
        },
{
    let namespace_raw = read_u32_at(g, entry, 0x24)?;
    let name_raw = read_u32_at(g, entry, 0x28)?;
    let namespace = decode_string_raw(g, layout, namespace_raw.wrapping_add(0xF1D3_2D89))?;
    let name = decode_string_raw(g, layout, name_raw.wrapping_add(0xE9FD_68F8))?;
    Ok((namespace, name))
}

/// Whether `xs` holds `v`.
fn contains_u32(xs: &[u32], v: u32) -> (r: bool)
    ensures
        r == xs@.contains(v),
{
    let mut i: usize = 0;
    while i < xs.len()
        invariant
            i <= xs.len(),
            forall|j: int| 0 <= j < i ==> xs@[j] != v,
        decreases xs.len() - i,
    {
        if xs[i] == v {
            assert(xs@[i as int] == v);
            return true;
        }
        i += 1;
    }
    false
}

/// The counts of the base type words of the first `limit` entries, and those words in
/// the order they first occur.
fn count_raw_bases(g: &[u8], base: usize, limit: usize) -> (r: (HashMap<u32, usize>, Vec<u32>))
    requires
        entries_in_range(g@, base as int, limit as nat),
    ensures
        forall|v: u32| #[trigger] r.0@.contains_key(v) <==> r.1@.contains(v),
        forall|v: u32| r.0@.contains_key(v) ==> r.0@[v] == occurrences(g@, base as int, v, limit as nat),
        forall|v: u32| !r.0@.contains_key(v) ==> occurrences(g@, base as int, v, limit as nat) == 0,
{
    let mut counts: HashMap<u32, usize> = HashMap::new();
    let mut words: Vec<u32> = Vec::new();
    let mut i: usize = 0;
    while i < limit
        invariant
            i <= limit,
            entries_in_range(g@, base as int, limit as nat),
            forall|v: u32| #[trigger] counts@.contains_key(v) <==> words@.contains(v),
            forall|v: u32| counts@.contains_key(v) ==> counts@[v] == occurrences(g@, base as int, v, i as nat),
            forall|v: u32| !counts@.contains_key(v) ==> occurrences(g@, base as int, v, i as nat) == 0,
            forall|v: u32| #[trigger] occurrences(g@, base as int, v, i as nat) <= i,
        decreases limit - i,
    {
        assert(in_range(g@, key_entry(base as int, i as int), 0x46));
        assert(g@.len() == g.len());
        let entry = base + i * 0x46;
        let raw = match read_u32_at(g, entry, 4) {
            Ok(v) => v,
            Err(_) => {
                return (counts, words);
            },
        };
        assert(raw == raw_base(g@, base as int, i as int));
        let ghost before = counts@;
        let ghost before_words = words@;
        match counts.get(&raw) {
            Some(c) => {
                let next = *c + 1;
                counts.insert(raw, next);
            },
            None => {
                counts.insert(raw, 1);
                words.push(raw);
            },
        }
        proof {
            assert forall|v: u32| #[trigger] counts@.contains_key(v) <==> words@.contains(v) by {
                if v == raw {
                    if !before.contains_key(raw) {
                        assert(words@[words@.len() - 1] == raw);
                    }
                } else {
                    if before_words.contains(v) {
                        let j = choose|j: int| 0 <= j < before_words.len() && before_words[j] == v;
                        assert(words@[j] == v);
                    }
                    if words@.contains(v) {
                        let j = choose|j: int| 0 <= j < words@.len() && words@[j] == v;
                        assert(j < before_words.len());
                        assert(before_words[j] == v);
                    }
                }
            }
            assert forall|v: u32| #[trigger] occurrences(g@, base as int, v, (i + 1) as nat) <= i + 1 by {
                assert(occurrences(g@, base as int, v, i as nat) <= i);
            }
        }
        i += 1;
    }
    (counts, words)
}

/// The most common eligible word among `words`, whose counts `counts` holds.
fn pick_most_common(
    g: &[u8],
    base: usize,
    limit: usize,
    counts: &HashMap<u32, usize>,
    words: &Vec<u32>,
    excluded: &[u32],
) -> (r: Option<u32>)
    requires
        forall|v: u32| #[trigger] counts@.contains_key(v) <==> words@.contains(v),
        forall|v: u32| counts@.contains_key(v) ==> counts@[v] == occurrences(g@, base as int, v, limit as nat),
        forall|v: u32| !counts@.contains_key(v) ==> occurrences(g@, base as int, v, limit as nat) == 0,
    ensures
        r == spec_most_common(g@, base as int, limit as nat, excluded@),
{
    let ghost occ = |v: u32| occurrences(g@, base as int, v, limit as nat);
    let mut best: Option<u32> = None;
    let mut best_count: usize = 0;
    let mut j: usize = 0;
    while j < words.len()
        invariant
            j <= words.len(),
            forall|v: u32| #[trigger] counts@.contains_key(v) <==> words@.contains(v),
            forall|v: u32| counts@.contains_key(v) ==> counts@[v] == occurrences(g@, base as int, v, limit as nat),
            best is None ==> forall|k: int|
                0 <= k < j ==> !sentinel_eligible(g@, base as int, limit as nat, excluded@, #[trigger] words@[k]),
            best matches Some(b) ==> {
                &&& sentinel_eligible(g@, base as int, limit as nat, excluded@, b)
                &&& best_count == occurrences(g@, base as int, b, limit as nat)
                &&& forall|k: int|
                    0 <= k < j && sentinel_eligible(g@, base as int, limit as nat, excluded@, #[trigger] words@[k])
                        ==> occurrences(g@, base as int, words@[k], limit as nat) < best_count || (occurrences(
                        g@,
                        base as int,
                        words@[k],
                        limit as nat,
                    ) == best_count && b <= words@[k])
            },
        decreases words.len() - j,
    {
        let w = words[j];
        assert(words@.contains(w));
        let c = match counts.get(&w) {
            Some(c) => *c,
            None => 0,
        };
        let excluded_here = contains_u32(excluded, w);
        if c > SENTINEL_MIN_COUNT && w > SENTINEL_MIN_VALUE && !excluded_here {
            let better = match best {
                None => true,
                Some(b) => c > best_count || (c == best_count && w < b),
            };
            if better {
                best = Some(w);
                best_count = c;
            }
        }
        j += 1;
    }
    proof {
        match best {
            Some(b) => {
                assert forall|w: u32| #[trigger] sentinel_eligible(g@, base as int, limit as nat, excluded@, w) implies occurrences(
                    g@,
                    base as int,
                    w,
                    limit as nat,
                ) < occurrences(g@, base as int, b, limit as nat) || (occurrences(g@, base as int, w, limit as nat)
                    == occurrences(g@, base as int, b, limit as nat) && b <= w) by {
                    assert(counts@.contains_key(w));
                    let k = choose|k: int| 0 <= k < words@.len() && words@[k] == w;
                    assert(sentinel_eligible(g@, base as int, limit as nat, excluded@, words@[k]));
                }
                assert(most_common_sentinel(g@, base as int, limit as nat, excluded@, b));
                let c = choose|v: u32| most_common_sentinel(g@, base as int, limit as nat, excluded@, v);
                assert(most_common_sentinel(g@, base as int, limit as nat, excluded@, c));
                assert(sentinel_eligible(g@, base as int, limit as nat, excluded@, c));
                assert(sentinel_eligible(g@, base as int, limit as nat, excluded@, b));
            },
            None => {
                if exists|v: u32| most_common_sentinel(g@, base as int, limit as nat, excluded@, v) {
                    let v = choose|v: u32| most_common_sentinel(g@, base as int, limit as nat, excluded@, v);
                    assert(counts@.contains_key(v));
                    let k = choose|k: int| 0 <= k < words@.len() && words@[k] == v;
                    assert(!sentinel_eligible(g@, base as int, limit as nat, excluded@, words@[k]));
                }
            },
        }
    }
    best
}

/// The words excluded from a sentinel search: `none`, then the sentinels already chosen.
fn excluded_words(none: u32, object: Option<u32>, value_type: Option<u32>) -> (r: Vec<u32>)
    ensures
        r@ == match (object, value_type) {
            (Some(o), Some(v)) => seq![none, o, v],
            (Some(o), None) => seq![none, o],
            _ => seq![none],
        },
{
    let mut r: Vec<u32> = Vec::new();
    r.push(none);
    match (object, value_type) {
        (Some(o), Some(v)) => {
            r.push(o);
            r.push(v);
        },
        (Some(o), None) => {
            r.push(o);
        },
        _ => {},
    }
    assert(r@ =~= match (object, value_type) {
        (Some(o), Some(v)) => seq![none, o, v],
        (Some(o), None) => seq![none, o],
        _ => seq![none],
    });
    r
}

/// Whether each of the first `limit` entries lies inside `g`.
fn entries_fit(g: &[u8], base: usize, limit: usize, Ghost(count): Ghost<nat>) -> (r: bool)
    requires
        limit == entry_limit(base as int, count),
    ensures
        r == entries_in_range(g@, base as int, limit as nat),
{
    let mut i: usize = 0;
    while i < limit
        invariant
            i <= limit,
            limit == entry_limit(base as int, count),
            forall|j: int| 0 <= j < i ==> in_range(g@, #[trigger] key_entry(base as int, j), 0x46),
        decreases limit - i,
    {
        proof {
            lemma_entry_fits(base as int, count, i as int);
        }
        let entry = base + i * 0x46;
        if require_range(g, entry, KEY_TYPE_ENTRY_SIZE).is_err() {
            assert(!in_range(g@, key_entry(base as int, i as int), 0x46));
            return false;
        }
        i += 1;
    }
    true
}

/// Once the search fails, it fails with the same error over any longer prefix.
proof fn lemma_name_scan_error(g: Seq<u8>, layout: StaticLayout, base: int, failing: nat, n: nat, e: LayoutError)
    requires
        failing <= n,
        spec_name_scan(g, layout, base, failing) == Err::<(u32, u32, u32), LayoutError>(e),
    ensures
        spec_name_scan(g, layout, base, n) == Err::<(u32, u32, u32), LayoutError>(e),
    decreases n - failing,
{
    if failing < n {
        lemma_name_scan_error(g, layout, base, failing + 1, n, e);
    }
}

/// Looks for `System.ValueType`, `System.Enum` and `System.AttributeTargets` among the
/// first `n` entries.
fn scan_names(g: &[u8], layout: &StaticLayout, base: usize, n: usize) -> (r: Result<(u32, u32, u32), LayoutError>)
    requires
        entries_in_range(g@, base as int, n as nat),
    ensures
        r == spec_name_scan(g@, *layout, base as int, n as nat),
{
    let mut found: (u32, u32, u32) = (0, 0, 0);
    let mut i: usize = 0;
    while i < n
        invariant
            i <= n,
            entries_in_range(g@, base as int, n as nat),
            spec_name_scan(g@, *layout, base as int, i as nat) == Ok::<(u32, u32, u32), LayoutError>(found),
        decreases n - i,
    {
        if !(found.0 != 0 && found.1 != 0 && found.2 != 0) {
            assert(in_range(g@, key_entry(base as int, i as int), 0x46));
            assert(g@.len() == g.len());
            let entry = base + i * 0x46;
            let (namespace, name) = match type_names_at(g, layout, entry) {
                Ok(names) => names,
                Err(e) => {
                    proof {
                        lemma_name_scan_error(g@, *layout, base as int, (i + 1) as nat, n as nat, e);
                    }
                    return Err(e);
                },
            };
            let raw = match read_u32_at(g, entry, 4) {
                Ok(v) => v,
                Err(e) => {
                    return Err(e);
                },
            };
            assert(raw == raw_base(g@, base as int, i as int));
            if str_eq(namespace.as_str(), "System") {
                if str_eq(name.as_str(), "ValueType") {
                    found = (raw, found.1, found.2);
                } else if str_eq(name.as_str(), "Enum") {
                    found = (found.0, raw, found.2);
                } else if str_eq(name.as_str(), "AttributeTargets") {
                    found = (found.0, found.1, raw);
                }
            }
        }
        i += 1;
    }
    Ok(found)
}

/// Discovers the keys of the type table of `layout` in `global_data`. The table holds at
/// most the descriptor's count of entries, and no more than fit before
/// `next_table_offset`, where the following table starts. Nothing in the library calls it:
/// the model decoder in `layout_model` reads type entries with the fixed keys of the
/// supported builds (`TYPE_ATTRIBUTE_KEY`, `TYPE_BASE_VALUE_TYPE`, `TYPE_BASE_ENUM`).
pub fn discover_type_layout_keys(layout: &StaticLayout, global_data: &[u8], next_table_offset: u32) -> (r: Result<
    TypeLayoutKeys,
    LayoutError,
>)
    ensures
        r == spec_discover_type_layout_keys(*layout, global_data@, next_table_offset),
{
    let g = global_data;
    let from_size: u32 = if next_table_offset >= layout.global_type_table_offset {
        (next_table_offset - layout.global_type_table_offset) / 0x46
    } else {
        0
    };
    let count: u32 = if layout.descriptor_count_80 < from_size {
        layout.descriptor_count_80
    } else {
        from_size
    };
    if count == 0 {
        return Err(LayoutError::EmptyTypeTable);
    }
    let base: usize = match (layout.payload_offset as usize).checked_add(layout.global_type_table_offset as usize) {
        Some(b) => b,
        None => {
            return Err(LayoutError::ArithmeticOverflow);
        },
    };
    require_range(g, base, KEY_TYPE_ENTRY_SIZE)?;
    let (_, module) = type_names_at(g, layout, base)?;
    if !str_eq(module.as_str(), "<Module>") {
        return Err(LayoutError::FirstTypeNotModule);
    }
    let none = match read_u32_at(g, base, 4) {
        Ok(v) => v,
        Err(e) => {
            return Err(e);
        },
    };
    let attribute_key = match read_u32_at(g, base, 0x14) {
        Ok(v) => v ^ 0x700,
        Err(e) => {
            return Err(e);
        },
    };
    let limit: usize = if layout.payload_offset.checked_add(layout.global_type_table_offset).is_none() {
        0
    } else {
        let room = (usize::MAX - base) / 0x46;
        if (count as usize) <= room {
            count as usize
        } else {
            room + 1
        }
    };
    assert(limit == entry_limit(base as int, key_type_count(*layout, next_table_offset)));
    if !entries_fit(g, base, limit, Ghost(key_type_count(*layout, next_table_offset))) {
        return Err(LayoutError::OutOfRange);
    }
    assert(entries_in_range(g@, base as int, limit as nat));
    let (counts, words) = count_raw_bases(g, base, limit);
    let scan: usize = if limit < KEY_NAME_SCAN_LIMIT {
        limit
    } else {
        KEY_NAME_SCAN_LIMIT
    };
    assert(entries_in_range(g@, base as int, scan as nat));
    let found = scan_names(g, layout, base, scan)?;
    let object = if found.0 != 0 {
        found.0
    } else {
        match pick_most_common(g, base, limit, &counts, &words, excluded_words(none, None, None).as_slice()) {
            Some(v) => v,
            None => {
                return Err(LayoutError::TypeSentinelNotFound);
            },
        }
    };
    let value_type = if found.1 != 0 {
        found.1
    } else {
        match pick_most_common(g, base, limit, &counts, &words, excluded_words(none, Some(object), None).as_slice()) {
            Some(v) => v,
            None => {
                return Err(LayoutError::TypeSentinelNotFound);
            },
        }
    };
    let enum_base = if found.2 != 0 {
        found.2
    } else {
        match pick_most_common(
            g,
            base,
            limit,
            &counts,
            &words,
            excluded_words(none, Some(object), Some(value_type)).as_slice(),
        ) {
            Some(v) => v,
            None => {
                return Err(LayoutError::TypeSentinelNotFound);
            },
        }
    };
    Ok(
        TypeLayoutKeys {
            type_attribute_key: attribute_key,
            type_parent_key: object.wrapping_sub(1),
            type_base_none: none,
            type_base_object: object,
            type_base_value_type: value_type,
            type_base_enum: enum_base,
        },
    )
}

} // verus!
