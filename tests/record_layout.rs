use serial_bench::fixture::{create_test_data, half_bits};
use serial_bench::flat::{collect_entries, plan, unpack, FlatEntry, FlatTable};
use serial_bench::flatbuffers_wrapped;
use serial_bench::record::{insert_entry, TestData};

fn entry(k: &str, v: &str) -> (String, String) {
    (k.to_string(), v.to_string())
}

fn sorted(mut m: Vec<(String, String)>) -> Vec<(String, String)> {
    m.sort();
    m
}

#[test]
fn fixture_fields() {
    let (id, name, values, metadata, timestamp) = create_test_data();
    assert_eq!(id, 12345);
    assert_eq!(name, "test_data");
    assert_eq!(values.len(), 1000);
    assert_eq!(f64::from_bits(values[2]), 3.0);
    for (i, v) in values.iter().enumerate() {
        assert_eq!(f64::from_bits(*v), i as f64 * 1.5);
    }
    assert_eq!(f64::from_bits(values[999]), 1498.5);
    assert_eq!(
        sorted(metadata),
        vec![entry("type", "benchmark"), entry("version", "1.0")]
    );
    assert_eq!(timestamp, 1640995200);
}

#[test]
fn half_bits_exact() {
    assert_eq!(half_bits(0), 0);
    assert_eq!(half_bits(1), 0.5f64.to_bits());
    assert_eq!(half_bits(3), 1.5f64.to_bits());
    assert_eq!(half_bits(6), 3.0f64.to_bits());
    assert_eq!(half_bits(2997), 1498.5f64.to_bits());
    assert_eq!(half_bits(4095), 2047.5f64.to_bits());
}

#[test]
fn plan_sets_every_field() {
    let m = vec![entry("a", "1"), entry("b", "2")];
    let t = plan(7, "n", &[1, 2, 3], &m, -5);
    assert_eq!(t.id, 7);
    assert_eq!(t.name.as_deref(), Some("n"));
    assert_eq!(t.values, Some(vec![1, 2, 3]));
    let pairs = t.metadata.as_ref().unwrap();
    assert_eq!(pairs.len(), 2);
    assert_eq!(pairs[1].key.as_deref(), Some("b"));
    assert_eq!(pairs[1].value.as_deref(), Some("2"));
    assert_eq!(t.timestamp, -5);
}

#[test]
fn flat_round_trip_fixture() {
    let (id, name, values, metadata, timestamp) = create_test_data();
    let t = plan(id, &name, &values, &metadata, timestamp);
    let back = unpack(&t);
    assert_eq!(back.0, id);
    assert_eq!(back.1, name);
    assert_eq!(back.2, values);
    assert_eq!(sorted(back.3), sorted(metadata.clone()));
    assert_eq!(back.4, timestamp);
    let wrapped = flatbuffers_wrapped::unpack(&flatbuffers_wrapped::pack(id, &name, &values, &metadata, timestamp));
    assert_eq!(wrapped.0, id);
    assert_eq!(wrapped.1, name);
    assert_eq!(wrapped.2, values);
    assert_eq!(sorted(wrapped.3), sorted(metadata));
    assert_eq!(wrapped.4, timestamp);
}

fn same_table(a: &FlatTable, b: &FlatTable) -> bool {
    let pairs = |t: &FlatTable| -> Vec<(Option<String>, Option<String>)> {
        t.metadata
            .as_ref()
            .map(|m| m.iter().map(|e| (e.key.clone(), e.value.clone())).collect())
            .unwrap_or_default()
    };
    a.id == b.id
        && a.name == b.name
        && a.values == b.values
        && a.metadata.is_some() == b.metadata.is_some()
        && pairs(a) == pairs(b)
        && a.timestamp == b.timestamp
}

#[test]
fn wrapped_lays_out_same_table() {
    let (id, name, values, metadata, timestamp) = create_test_data();
    let direct = plan(id, &name, &values, &metadata, timestamp);
    let wrapped = flatbuffers_wrapped::pack(id, &name, &values, &metadata, timestamp);
    assert!(same_table(&direct, &wrapped));
}

#[test]
fn absent_fields_default() {
    let t = FlatTable { id: 9, name: None, values: None, metadata: None, timestamp: 4 };
    let (id, name, values, metadata, timestamp) = unpack(&t);
    assert_eq!(id, 9);
    assert_eq!(name, "");
    assert!(values.is_empty());
    assert!(metadata.is_empty());
    assert_eq!(timestamp, 4);
    let (id, name, values, metadata, timestamp) = flatbuffers_wrapped::unpack(&t);
    assert_eq!((id, name.as_str(), values.len(), metadata.len(), timestamp), (9, "", 0, 0, 4));
}

#[test]
fn pairs_with_unset_strings_are_skipped() {
    let m = vec![
        FlatEntry { key: Some("k".to_string()), value: None },
        FlatEntry { key: None, value: Some("v".to_string()) },
        FlatEntry { key: Some("a".to_string()), value: Some("1".to_string()) },
    ];
    assert_eq!(collect_entries(&m), vec![entry("a", "1")]);
}

#[test]
fn later_pair_replaces_earlier() {
    let m = vec![
        FlatEntry { key: Some("a".to_string()), value: Some("1".to_string()) },
        FlatEntry { key: Some("b".to_string()), value: Some("2".to_string()) },
        FlatEntry { key: Some("a".to_string()), value: Some("3".to_string()) },
    ];
    assert_eq!(sorted(collect_entries(&m)), vec![entry("a", "3"), entry("b", "2")]);
}

#[test]
fn insert_entry_replaces_or_appends() {
    let mut m = vec![entry("x", "1")];
    insert_entry(&mut m, "y".to_string(), "2".to_string());
    insert_entry(&mut m, "x".to_string(), "9".to_string());
    assert_eq!(sorted(m), vec![entry("x", "9"), entry("y", "2")]);
}

#[test]
fn record_copies_and_returns_fields() {
    let m = vec![entry("k", "v")];
    let data = TestData::new(1, "r", &[5, 6], &m, 2);
    let table = data.to_table();
    let again = TestData::from_table(&table);
    let (id, name, values, metadata, timestamp) = again.into_fields();
    assert_eq!((id, name.as_str(), values, metadata, timestamp), (1, "r", vec![5, 6], m, 2));
}
