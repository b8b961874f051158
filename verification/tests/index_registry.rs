//! Tests of the guide's index: ordered, append-only, with total position
//! lookup.
use codasai::context::{Index, IndexEntry};

fn sample_index() -> Index {
    let mut index = Index::default();
    index.append(IndexEntry { name: "First".to_string(), code: "first".to_string() });
    index.append(IndexEntry { name: "Second".to_string(), code: "second".to_string() });
    index.append(IndexEntry { name: "Third".to_string(), code: "third".to_string() });
    index
}

#[test]
fn default_index_is_empty() {
    let index = Index::default();
    assert_eq!(index.len(), 0);
    assert!(index.entries.is_empty());
}

#[test]
fn append_keeps_insertion_order() {
    let index = sample_index();
    assert_eq!(index.len(), 3);
    assert_eq!(index.entries[0].code, "first");
    assert_eq!(index.entries[1].code, "second");
    assert_eq!(index.entries[2].code, "third");
}

#[test]
fn lookup_by_position_hits_every_valid_position() {
    let index = sample_index();
    let codes = ["first", "second", "third"];
    for (i, code) in codes.iter().enumerate() {
        let entry = index.lookup_by_position(i as i64).expect("position in range");
        assert_eq!(entry.code, *code);
    }
}

#[test]
fn lookup_by_position_misses_boundary_positions() {
    let index = sample_index();
    assert!(index.lookup_by_position(-1).is_none());
    assert!(index.lookup_by_position(3).is_none());
    assert!(index.lookup_by_position(i64::MIN).is_none());
    assert!(index.lookup_by_position(i64::MAX).is_none());
}

#[test]
fn lookup_by_position_on_empty_index() {
    let index = Index::default();
    assert!(index.lookup_by_position(-1).is_none());
    assert!(index.lookup_by_position(0).is_none());
}
