use hls2mp4::{merge, temp_store_name, PipelineError, SegmentStore, MERGED_STORE_NAME};

fn filled(chunks: &[&[u8]], order: &[usize]) -> SegmentStore {
    let mut store = SegmentStore::new(chunks.len());
    for &i in order {
        assert!(store.put(i, chunks[i].to_vec()));
    }
    store
}

#[test]
fn new_store_is_empty() {
    let store = SegmentStore::new(3);
    assert_eq!(store.len(), 3);
    for i in 0..4 {
        assert!(!store.holds(i));
        assert_eq!(store.get(i), None);
    }
    assert_eq!(SegmentStore::new(0).len(), 0);
}

#[test]
fn put_get_remove() {
    let mut store = SegmentStore::new(2);
    assert!(store.put(1, vec![1, 2, 3]));
    assert!(store.holds(1));
    assert!(!store.holds(0));
    assert_eq!(store.get(1), Some(&vec![1, 2, 3]));
    assert!(store.put(1, vec![4]));
    assert_eq!(store.get(1), Some(&vec![4]));
    assert!(!store.put(2, vec![9]));
    assert_eq!(store.len(), 2);
    store.remove(1);
    assert!(!store.holds(1));
    store.remove(1);
    store.remove(7);
    assert_eq!(store.len(), 2);
}

#[test]
fn merge_is_in_index_order_whatever_the_completion_order() {
    let chunks: [&[u8]; 4] = [b"first-", b"second-", b"", b"fourth"];
    let expected = b"first-second-fourth".to_vec();
    let orders: [[usize; 4]; 5] =
        [[0, 1, 2, 3], [3, 2, 1, 0], [2, 0, 3, 1], [1, 3, 0, 2], [3, 0, 1, 2]];
    for order in orders.iter() {
        let mut store = filled(&chunks, order);
        let mut sink = Vec::new();
        assert_eq!(merge(4, &mut store, &mut sink, false), Ok(()));
        assert_eq!(sink, expected);
    }
}

#[test]
fn merge_appends_to_the_sink() {
    let chunks: [&[u8]; 2] = [b"bc", b"de"];
    let mut store = filled(&chunks, &[1, 0]);
    let mut sink = b"a".to_vec();
    assert_eq!(merge(2, &mut store, &mut sink, true), Ok(()));
    assert_eq!(sink, b"abcde".to_vec());
}

#[test]
fn merge_deletes_stores_unless_retained() {
    let chunks: [&[u8]; 3] = [b"x", b"y", b"z"];
    let mut store = filled(&chunks, &[0, 1, 2]);
    let mut sink = Vec::new();
    assert_eq!(merge(3, &mut store, &mut sink, true), Ok(()));
    assert!(store.holds(0) && store.holds(1) && store.holds(2));
    let mut again = Vec::new();
    assert_eq!(merge(3, &mut store, &mut again, false), Ok(()));
    assert_eq!(again, sink);
    assert!(!store.holds(0) && !store.holds(1) && !store.holds(2));
}

#[test]
fn merge_of_a_prefix_leaves_the_rest() {
    let chunks: [&[u8]; 3] = [b"x", b"y", b"z"];
    let mut store = filled(&chunks, &[2, 1, 0]);
    let mut sink = Vec::new();
    assert_eq!(merge(2, &mut store, &mut sink, false), Ok(()));
    assert_eq!(sink, b"xy".to_vec());
    assert!(!store.holds(0) && !store.holds(1) && store.holds(2));
}

#[test]
fn merge_of_nothing() {
    let mut store = SegmentStore::new(0);
    let mut sink = vec![1u8];
    assert_eq!(merge(0, &mut store, &mut sink, false), Ok(()));
    assert_eq!(sink, vec![1u8]);
}

#[test]
fn merge_stops_at_the_first_missing_store() {
    let mut store = SegmentStore::new(4);
    store.put(0, b"aa".to_vec());
    store.put(1, b"bb".to_vec());
    store.put(3, b"dd".to_vec());
    let mut sink = Vec::new();
    assert_eq!(merge(4, &mut store, &mut sink, false), Err(PipelineError::MissingSegmentData(2)));
    assert_eq!(sink, b"aabb".to_vec());
    assert!(!store.holds(0) && !store.holds(1) && store.holds(3));
}

#[test]
fn merge_keeps_everything_on_failure_when_retaining() {
    let mut store = SegmentStore::new(2);
    store.put(1, b"bb".to_vec());
    let mut sink = Vec::new();
    assert_eq!(merge(2, &mut store, &mut sink, true), Err(PipelineError::MissingSegmentData(0)));
    assert!(sink.is_empty());
    assert!(store.holds(1));
}

#[test]
fn merge_past_the_end_misses_data() {
    let mut store = SegmentStore::new(1);
    store.put(0, b"a".to_vec());
    let mut sink = Vec::new();
    assert_eq!(merge(3, &mut store, &mut sink, false), Err(PipelineError::MissingSegmentData(1)));
    assert_eq!(sink, b"a".to_vec());
}

#[test]
fn store_names() {
    assert_eq!(temp_store_name(0), "seg_00000.ts");
    assert_eq!(temp_store_name(7), "seg_00007.ts");
    assert_eq!(temp_store_name(42), "seg_00042.ts");
    assert_eq!(temp_store_name(99999), "seg_99999.ts");
    assert_eq!(temp_store_name(100000), "seg_100000.ts");
    assert_eq!(temp_store_name(1234567), "seg_1234567.ts");
    assert_eq!(MERGED_STORE_NAME, "temp_merged.ts");
}

#[test]
fn store_names_agree_with_std_formatting() {
    for i in [0usize, 1, 9, 10, 99, 100, 12345, 54321, 99999, 100000, usize::MAX] {
        assert_eq!(temp_store_name(i), format!("seg_{:05}.ts", i));
    }
}
