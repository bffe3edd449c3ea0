//! The flat-layout adapter that materialises the record on both paths: the
//! fields are copied into a `TestData` before the table is laid out, and the
//! decoded table is copied into a `TestData` before the fields are returned.
//! It lays out the same table as the direct adapter in `flat`, so the two
//! produce the same bytes.

use vstd::prelude::*;
use crate::flat::{decode_of, lemma_plan_same_strings, plan_of, FlatTable};
use crate::record::{keys_unique, record_of, TestData};

verus! {

/// The table to build for a record's fields, laid out from a materialised record.
pub fn pack(
    id: u64,
    name: &str,
    values: &[u64],
    metadata: &Vec<(String, String)>,
    timestamp: i64,
) -> (r: FlatTable)
    ensures
        r@ == plan_of(id, name@, values@, metadata@, timestamp),
{
    let data = TestData::new(id, name, values, metadata, timestamp);
    let r = data.to_table();
    proof {
        lemma_plan_same_strings(id, name@, values@, data.metadata@, metadata@, timestamp);
    }
    r
}

/// The five fields of a decoded table, read through a materialised record.
pub fn unpack(t: &FlatTable) -> (r: (u64, String, Vec<u64>, Vec<(String, String)>, i64))
    ensures
        keys_unique(r.3@),
        record_of(r.0, r.1@, r.2@, r.3@, r.4) == decode_of(t@),
{
    let data = TestData::from_table(t);
    data.into_fields()
}

} // verus!
