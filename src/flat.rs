//! The flat-layout schema: a root table with scalar `id` and `timestamp`, a
//! string `name`, a vector of doubles `values`, and a vector of key/value
//! tables `metadata`. In a flat buffer the string and vector fields may be
//! unset; decoding maps an unset field to its empty default.
//!
//! A flat buffer is written children first: the name string and the values
//! vector, then each metadata pair's key and value strings followed by the
//! pair's table, then the vector of pair tables, and last the root table that
//! refers to all of them. `FlatTable` lists the fields in that order.

use vstd::prelude::*;
use crate::record::{entries_map, keys_unique, insert_entry, copy_values, record_of, RecordView};

verus! {

/// A metadata pair as the layout stores it: either string may be unset.
pub struct FlatEntry {
    pub key: Option<String>,
    pub value: Option<String>,
}

/// The fields of the root table.
pub struct FlatTable {
    pub id: u64,
    pub name: Option<String>,
    pub values: Option<Vec<u64>>,
    pub metadata: Option<Vec<FlatEntry>>,
    pub timestamp: i64,
}

pub struct FlatEntryView {
    pub key: Option<Seq<char>>,
    pub value: Option<Seq<char>>,
}

pub struct FlatTableView {
    pub id: u64,
    pub name: Option<Seq<char>>,
    pub values: Option<Seq<u64>>,
    pub metadata: Option<Seq<FlatEntryView>>,
    pub timestamp: i64,
}

pub open spec fn str_view(s: Option<String>) -> Option<Seq<char>> {
    match s {
        Some(x) => Some(x@),
        None => None,
    }
}

impl View for FlatEntry {
    type V = FlatEntryView;

    open spec fn view(&self) -> FlatEntryView {
        FlatEntryView { key: str_view(self.key), value: str_view(self.value) }
    }
}

impl View for FlatTable {
    type V = FlatTableView;

    open spec fn view(&self) -> FlatTableView {
        FlatTableView {
            id: self.id,
            name: str_view(self.name),
            values: match self.values {
                Some(v) => Some(v@),
                None => None,
            },
            metadata: match self.metadata {
                Some(m) => Some(m@.map_values(|e: FlatEntry| e@)),
                None => None,
            },
            timestamp: self.timestamp,
        }
    }
}

/// The table that encodes a record's fields: every field set, one pair
/// table per metadata entry, in the entries' order.
pub open spec fn plan_of(
    id: u64,
    name: Seq<char>,
    values: Seq<u64>,
    metadata: Seq<(String, String)>,
    timestamp: i64,
) -> FlatTableView {
    FlatTableView {
        id,
        name: Some(name),
        values: Some(values),
        metadata: Some(
            Seq::new(
                metadata.len(),
                |i: int| FlatEntryView { key: Some(metadata[i].0@), value: Some(metadata[i].1@) },
            ),
        ),
        timestamp,
    }
}

/// The mapping that a vector of pair tables stands for: pairs with an unset
/// key or value are skipped, and a later pair replaces an earlier one.
pub open spec fn flat_entries_map(m: Seq<FlatEntryView>) -> Map<Seq<char>, Seq<char>>
    decreases m.len(),
{
    if m.len() == 0 {
        Map::empty()
    } else {
        let rest = flat_entries_map(m.drop_last());
        match (m.last().key, m.last().value) {
            (Some(k), Some(v)) => rest.insert(k, v),
            _ => rest,
        }
    }
}

/// The record that a table decodes to, unset fields taking their defaults.
pub open spec fn decode_of(t: FlatTableView) -> RecordView {
    RecordView {
        id: t.id,
        name: match t.name {
            Some(s) => s,
            None => Seq::empty(),
        },
        values: match t.values {
            Some(v) => v,
            None => Seq::empty(),
        },
        metadata: match t.metadata {
            Some(m) => flat_entries_map(m),
            None => Map::empty(),
        },
        timestamp: t.timestamp,
    }
}

/// Lays a record's fields out as a table, every field set.
pub fn plan(
    id: u64,
    name: &str,
    values: &[u64],
    metadata: &Vec<(String, String)>,
    timestamp: i64,
) -> (r: FlatTable)
    ensures
        r@ == plan_of(id, name@, values@, metadata@, timestamp),
{
    let mut pairs: Vec<FlatEntry> = Vec::new();
    let mut i: usize = 0;
    while i < metadata.len()
        invariant
            i <= metadata@.len(),
            pairs@.len() == i,
            forall|j: int| 0 <= j < i ==> (#[trigger] pairs@[j])@ == (FlatEntryView {
                key: Some(metadata@[j].0@),
                value: Some(metadata@[j].1@),
            }),
        decreases metadata@.len() - i,
    {
        let k = metadata[i].0.clone();
        let v = metadata[i].1.clone();
        pairs.push(FlatEntry { key: Some(k), value: Some(v) });
        i = i + 1;
    }
    let r = FlatTable {
        id,
        name: Some(String::from_str(name)),
        values: Some(copy_values(values)),
        metadata: Some(pairs),
        timestamp,
    };
    assert(pairs@.map_values(|e: FlatEntry| e@) =~= plan_of(id, name@, values@, metadata@, timestamp).metadata->0);
    r
}

/// Collects the pairs whose key and value are both set into entries with
/// unique keys, a later pair replacing an earlier one.
pub fn collect_entries(m: &Vec<FlatEntry>) -> (r: Vec<(String, String)>)
    ensures
        keys_unique(r@),
        entries_map(r@) == flat_entries_map(m@.map_values(|e: FlatEntry| e@)),
{
    let ghost views = m@.map_values(|e: FlatEntry| e@);
    let mut r: Vec<(String, String)> = Vec::new();
    let mut i: usize = 0;
    while i < m.len()
        invariant
            i <= m@.len(),
            views == m@.map_values(|e: FlatEntry| e@),
            keys_unique(r@),
            entries_map(r@) == flat_entries_map(views.subrange(0, i as int)),
        decreases m@.len() - i,
    {
        let ghost before = r@;
        proof {
            assert(views.subrange(0, i + 1).drop_last() == views.subrange(0, i as int));
            assert(views.subrange(0, i + 1).last() == m@[i as int]@);
        }
        match (&m[i].key, &m[i].value) {
            (Some(k), Some(v)) => {
                insert_entry(&mut r, k.clone(), v.clone());
            },
            _ => {},
        }
        i = i + 1;
    }
    assert(views.subrange(0, m@.len() as int) == views);
    r
}

/// Reads the five fields out of a table: an unset name is the empty string,
/// unset values the empty sequence, unset metadata the empty mapping.
pub fn unpack(t: &FlatTable) -> (r: (u64, String, Vec<u64>, Vec<(String, String)>, i64))
    ensures
        keys_unique(r.3@),
        record_of(r.0, r.1@, r.2@, r.3@, r.4) == decode_of(t@),
{
    let name = match &t.name {
        Some(s) => s.clone(),
        None => String::new(),
    };
    let values = match &t.values {
        Some(v) => copy_values(v.as_slice()),
        None => Vec::new(),
    };
    let metadata = match &t.metadata {
        Some(m) => collect_entries(m),
        None => Vec::new(),
    };
    assert(metadata@.len() == 0 ==> entries_map(metadata@) == Map::<Seq<char>, Seq<char>>::empty());
    (t.id, name, values, metadata, t.timestamp)
}

/// Two entry lists whose keys and values agree as strings are laid out alike.
pub proof fn lemma_plan_same_strings(
    id: u64,
    name: Seq<char>,
    values: Seq<u64>,
    a: Seq<(String, String)>,
    b: Seq<(String, String)>,
    timestamp: i64,
)
    requires
        a.len() == b.len(),
        forall|i: int| 0 <= i < a.len() ==> (#[trigger] a[i]).0@ == b[i].0@ && a[i].1@ == b[i].1@,
    ensures
        plan_of(id, name, values, a, timestamp) == plan_of(id, name, values, b, timestamp),
{
    assert(plan_of(id, name, values, a, timestamp).metadata->0 =~= plan_of(id, name, values, b, timestamp).metadata->0);
}

/// Decoding a table with an unset name, values or metadata gives the empty
/// string, the empty sequence or the empty mapping for that field.
pub proof fn lemma_absent_fields_default(t: FlatTableView)
    ensures
        t.name is None ==> decode_of(t).name == Seq::<char>::empty(),
        t.values is None ==> decode_of(t).values == Seq::<u64>::empty(),
        t.metadata is None ==> decode_of(t).metadata == Map::<Seq<char>, Seq<char>>::empty(),
        decode_of(t).id == t.id && decode_of(t).timestamp == t.timestamp,
{
}

/// Decoding a table laid out from a record gives the record back, the
/// metadata as the same mapping.
pub proof fn lemma_plan_round_trip(
    id: u64,
    name: Seq<char>,
    values: Seq<u64>,
    metadata: Seq<(String, String)>,
    timestamp: i64,
)
    ensures
        decode_of(plan_of(id, name, values, metadata, timestamp))
            == record_of(id, name, values, metadata, timestamp),
    decreases metadata.len(),
{
    let p = plan_of(id, name, values, metadata, timestamp);
    if metadata.len() > 0 {
        let q = plan_of(id, name, values, metadata.drop_last(), timestamp);
        lemma_plan_round_trip(id, name, values, metadata.drop_last(), timestamp);
        assert(p.metadata->0.drop_last() =~= q.metadata->0);
    }
    assert(decode_of(p).metadata =~= entries_map(metadata));
}

} // verus!
