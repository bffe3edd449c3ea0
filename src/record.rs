use vstd::prelude::*;
use crate::flat::{decode_of, plan, plan_of, unpack, FlatTable};

verus! {

/// The mapping that a list of metadata entries stands for. Entries are
/// applied in order, so a later entry replaces an earlier one with its key.
pub open spec fn entries_map(m: Seq<(String, String)>) -> Map<Seq<char>, Seq<char>>
    decreases m.len(),
{
    if m.len() == 0 {
        Map::empty()
    } else {
        entries_map(m.drop_last()).insert(m.last().0@, m.last().1@)
    }
}

/// No two entries share a key.
pub open spec fn keys_unique(m: Seq<(String, String)>) -> bool {
    forall|i: int, j: int|
        0 <= i < m.len() && 0 <= j < m.len() && i != j ==> #[trigger] m[i].0@ != #[trigger] m[j].0@
}

/// The abstract record: metadata is a mapping, with no order.
pub struct RecordView {
    pub id: u64,
    pub name: Seq<char>,
    pub values: Seq<u64>,
    pub metadata: Map<Seq<char>, Seq<char>>,
    pub timestamp: i64,
}

/// The canonical record. `values` holds the bit pattern of each double;
/// `metadata` holds the string-to-string mapping as entries with unique keys.
pub struct TestData {
    pub id: u64,
    pub name: String,
    pub values: Vec<u64>,
    pub metadata: Vec<(String, String)>,
    pub timestamp: i64,
}

/// The record whose five fields are the given ones.
pub open spec fn record_of(
    id: u64,
    name: Seq<char>,
    values: Seq<u64>,
    metadata: Seq<(String, String)>,
    timestamp: i64,
) -> RecordView {
    RecordView { id, name, values, metadata: entries_map(metadata), timestamp }
}

impl View for TestData {
    type V = RecordView;

    open spec fn view(&self) -> RecordView {
        record_of(self.id, self.name@, self.values@, self.metadata@, self.timestamp)
    }
}

impl TestData {
    pub open spec fn wf(&self) -> bool {
        keys_unique(self.metadata@)
    }

    /// Materialises a record from its five fields, copying each of them.
    pub fn new(
        id: u64,
        name: &str,
        values: &[u64],
        metadata: &Vec<(String, String)>,
        timestamp: i64,
    ) -> (r: TestData)
        ensures
            r.id == id,
            r.name@ == name@,
            r.values@ == values@,
            r.metadata@.len() == metadata@.len(),
            forall|i: int| 0 <= i < metadata@.len() ==>
                (#[trigger] r.metadata@[i]).0@ == metadata@[i].0@ && r.metadata@[i].1@ == metadata@[i].1@,
            r.timestamp == timestamp,
            r@ == record_of(id, name@, values@, metadata@, timestamp),
            keys_unique(metadata@) ==> r.wf(),
    {
        let entries = copy_entries(metadata);
        TestData {
            id,
            name: String::from_str(name),
            values: copy_values(values),
            metadata: entries,
            timestamp,
        }
    }

    /// Lays the record out as a flat-layout table.
    pub fn to_table(&self) -> (r: FlatTable)
        ensures
            r@ == plan_of(self.id, self.name@, self.values@, self.metadata@, self.timestamp),
    {
        plan(self.id, self.name.as_str(), self.values.as_slice(), &self.metadata, self.timestamp)
    }

    /// Materialises the record that a flat-layout table decodes to.
    pub fn from_table(t: &FlatTable) -> (r: TestData)
        ensures
            r.wf(),
            r@ == decode_of(t@),
    {
        let (id, name, values, metadata, timestamp) = unpack(t);
        TestData { id, name, values, metadata, timestamp }
    }

    /// Hands the five fields back as a tuple.
    pub fn into_fields(self) -> (r: (u64, String, Vec<u64>, Vec<(String, String)>, i64))
        ensures
            r.0 == self.id,
            r.1@ == self.name@,
            r.2@ == self.values@,
            r.3@ == self.metadata@,
            r.4 == self.timestamp,
    {
        (self.id, self.name, self.values, self.metadata, self.timestamp)
    }
}

/// Two entry lists whose keys and values agree as strings stand for the same mapping.
pub proof fn lemma_entries_map_same_strings(a: Seq<(String, String)>, b: Seq<(String, String)>)
    requires
        a.len() == b.len(),
        forall|i: int| 0 <= i < a.len() ==> (#[trigger] a[i]).0@ == b[i].0@ && a[i].1@ == b[i].1@,
    ensures
        entries_map(a) == entries_map(b),
    decreases a.len(),
{
    if a.len() > 0 {
        assert(a.drop_last().len() == b.drop_last().len());
        assert forall|i: int| 0 <= i < a.drop_last().len() implies
            (#[trigger] a.drop_last()[i]).0@ == b.drop_last()[i].0@
                && a.drop_last()[i].1@ == b.drop_last()[i].1@ by {
            assert(a.drop_last()[i] == a[i]);
            assert(b.drop_last()[i] == b[i]);
        }
        lemma_entries_map_same_strings(a.drop_last(), b.drop_last());
    }
}

/// Copies a sequence of bit patterns.
pub fn copy_values(v: &[u64]) -> (r: Vec<u64>)
    ensures
        r@ == v@,
{
    let mut r: Vec<u64> = Vec::new();
    let mut i: usize = 0;
    while i < v.len()
        invariant
            i <= v@.len(),
            r@ == v@.subrange(0, i as int),
        decreases v@.len() - i,
    {
        r.push(v[i]);
        i = i + 1;
    }
    assert(r@ == v@.subrange(0, v@.len() as int));
    r
}

/// Copies a list of entries, string by string.
pub fn copy_entries(m: &Vec<(String, String)>) -> (r: Vec<(String, String)>)
    ensures
        r@.len() == m@.len(),
        forall|i: int| 0 <= i < m@.len() ==>
            (#[trigger] r@[i]).0@ == m@[i].0@ && r@[i].1@ == m@[i].1@,
        entries_map(r@) == entries_map(m@),
        keys_unique(m@) ==> keys_unique(r@),
{
    let mut r: Vec<(String, String)> = Vec::new();
    let mut i: usize = 0;
    while i < m.len()
        invariant
            i <= m@.len(),
            r@.len() == i,
            forall|j: int| 0 <= j < i ==>
                (#[trigger] r@[j]).0@ == m@[j].0@ && r@[j].1@ == m@[j].1@,
        decreases m@.len() - i,
    {
        let k = m[i].0.clone();
        let v = m[i].1.clone();
        r.push((k, v));
        i = i + 1;
    }
    proof {
        lemma_entries_map_same_strings(r@, m@);
    }
    r
}

/// With unique keys, the mapping holds exactly the entries' keys, each with its entry's value.
pub proof fn lemma_entries_map_unique(m: Seq<(String, String)>)
    requires
        keys_unique(m),
    ensures
        forall|key: Seq<char>| #[trigger] entries_map(m).contains_key(key)
            <==> exists|i: int| 0 <= i < m.len() && (#[trigger] m[i]).0@ == key,
        forall|i: int| 0 <= i < m.len() ==> entries_map(m)[(#[trigger] m[i]).0@] == m[i].1@,
    decreases m.len(),
{
    if m.len() > 0 {
        let p = m.drop_last();
        assert forall|i: int, j: int|
            0 <= i < p.len() && 0 <= j < p.len() && i != j implies
            #[trigger] p[i].0@ != #[trigger] p[j].0@ by {
            assert(p[i] == m[i] && p[j] == m[j]);
        }
        lemma_entries_map_unique(p);
        let last = m.len() - 1;
        assert forall|key: Seq<char>| #[trigger] entries_map(m).contains_key(key)
            <==> exists|i: int| 0 <= i < m.len() && (#[trigger] m[i]).0@ == key by {
            assert(entries_map(m) == entries_map(p).insert(m[last].0@, m[last].1@));
            if entries_map(m).contains_key(key) && key != m[last].0@ {
                assert(entries_map(p).contains_key(key));
                let i = choose|i: int| 0 <= i < p.len() && (#[trigger] p[i]).0@ == key;
                assert(m[i] == p[i]);
            }
            if exists|i: int| 0 <= i < m.len() && (#[trigger] m[i]).0@ == key {
                let i = choose|i: int| 0 <= i < m.len() && (#[trigger] m[i]).0@ == key;
                if i < last {
                    assert(p[i] == m[i]);
                    assert(entries_map(p).contains_key(key));
                }
            }
        }
        assert forall|i: int| 0 <= i < m.len() implies entries_map(m)[(#[trigger] m[i]).0@] == m[i].1@ by {
            if i < last {
                assert(p[i] == m[i]);
                assert(m[i].0@ != m[last].0@);
            }
        }
    }
}

/// Adds an entry to a list with unique keys, replacing the value of an entry
/// with the same key if there is one.
pub fn insert_entry(m: &mut Vec<(String, String)>, key: String, value: String)
    requires
        keys_unique(old(m)@),
    ensures
        keys_unique(final(m)@),
        entries_map(final(m)@) == entries_map(old(m)@).insert(key@, value@),
{
    let mut i: usize = 0;
    while i < m.len()
        invariant
            i <= m@.len(),
            m@ == old(m)@,
            keys_unique(m@),
            forall|j: int| 0 <= j < i ==> (#[trigger] m@[j]).0@ != key@,
        decreases m@.len() - i,
    {
        if m[i].0 == key {
            let ghost before = m@;
            m.set(i, (key, value));
            proof {
                lemma_entries_map_unique(before);
                assert forall|a: int, b: int|
                    0 <= a < m@.len() && 0 <= b < m@.len() && a != b implies
                    #[trigger] m@[a].0@ != #[trigger] m@[b].0@ by {
                    assert(m@[a].0@ == before[a].0@ && m@[b].0@ == before[b].0@);
                    assert(before[a].0@ != before[b].0@);
                }
                lemma_entries_map_unique(m@);
                let want = entries_map(before).insert(key@, value@);
                assert forall|k: Seq<char>| #[trigger] entries_map(m@).contains_key(k)
                    <==> want.contains_key(k) by {
                    if entries_map(m@).contains_key(k) {
                        let j = choose|j: int| 0 <= j < m@.len() && (#[trigger] m@[j]).0@ == k;
                        assert(before[j].0@ == k);
                    }
                    if want.contains_key(k) && k != key@ {
                        let j = choose|j: int| 0 <= j < before.len() && (#[trigger] before[j]).0@ == k;
                        assert(m@[j].0@ == k);
                    }
                    if k == key@ {
                        assert(m@[i as int].0@ == k);
                    }
                }
                assert forall|k: Seq<char>| #[trigger] entries_map(m@).contains_key(k)
                    implies entries_map(m@)[k] == want[k] by {
                    let j = choose|j: int| 0 <= j < m@.len() && (#[trigger] m@[j]).0@ == k;
                    if j != i {
                        assert(m@[j] == before[j]);
                    }
                }
                assert(entries_map(m@) =~= want);
            }
            return;
        }
        i = i + 1;
    }
    let ghost before = m@;
    m.push((key, value));
    proof {
        assert(m@.drop_last() == before);
        assert forall|a: int, b: int|
            0 <= a < m@.len() && 0 <= b < m@.len() && a != b implies
            #[trigger] m@[a].0@ != #[trigger] m@[b].0@ by {
            if a < before.len() {
                assert(m@[a] == before[a]);
            }
            if b < before.len() {
                assert(m@[b] == before[b]);
            }
            if a < before.len() && b < before.len() {
                assert(before[a].0@ != before[b].0@);
            }
        }
        assert(entries_map(m@) == entries_map(m@.drop_last()).insert(key@, value@));
    }
}

} // verus!
