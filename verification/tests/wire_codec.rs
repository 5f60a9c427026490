use scene_core::state::{SceneStateStore, StateEntry, StateKey};
use scene_core::wire::{decode_batch, encode_batch};

fn entry(entity: u32, component: u32, version: u32, value: &[u8]) -> StateEntry {
    StateEntry { key: StateKey { entity, component }, version, value: value.to_vec() }
}

#[test]
fn encode_then_decode_round_trips() {
    let batch = vec![
        entry(1, 2, 3, b"alpha"),
        entry(4, 5, 6, b""),
        entry(7, 8, 9, &[0u8, 255u8, 128u8]),
    ];
    let bytes = encode_batch(&batch);
    let decoded = decode_batch(&bytes).expect("a batch must decode back");
    assert_eq!(decoded.len(), batch.len());
    for (d, e) in decoded.iter().zip(batch.iter()) {
        assert_eq!(d.key, e.key);
        assert_eq!(d.version, e.version);
        assert_eq!(d.value, e.value);
    }
}

#[test]
fn empty_batch_round_trips() {
    let bytes = encode_batch(&Vec::new());
    assert_eq!(bytes, vec![0u8, 0, 0, 0]);
    let decoded = decode_batch(&bytes).expect("the empty batch must decode");
    assert!(decoded.is_empty());
}

#[test]
fn truncated_stream_is_rejected() {
    let bytes = encode_batch(&vec![entry(1, 1, 1, b"abc")]);
    let cut = bytes[..bytes.len() - 1].to_vec();
    assert!(decode_batch(&cut).is_err());
    assert!(decode_batch(&vec![1u8, 0]).is_err());
}

#[test]
fn trailing_bytes_are_rejected() {
    let mut bytes = encode_batch(&vec![entry(1, 1, 1, b"abc")]);
    bytes.push(0);
    assert!(decode_batch(&bytes).is_err());
}

#[test]
fn short_payload_is_rejected() {
    // Record claims 4 payload bytes but carries 2.
    let mut bytes = vec![1u8, 0, 0, 0];
    bytes.extend_from_slice(&1u32.to_le_bytes());
    bytes.extend_from_slice(&1u32.to_le_bytes());
    bytes.extend_from_slice(&1u32.to_le_bytes());
    bytes.extend_from_slice(&4u32.to_le_bytes());
    bytes.extend_from_slice(b"ab");
    assert!(decode_batch(&bytes).is_err());
}

#[test]
fn snapshot_replay_dirties_exactly_snapshot_keys() {
    // Round trip through a fresh store: the dirty set after replay is
    // exactly the snapshot's key set.
    let batch = vec![entry(1, 1, 1, b"a"), entry(2, 2, 1, b"b"), entry(1, 1, 2, b"c")];
    let bytes = encode_batch(&batch);
    let mut store = SceneStateStore::new();
    store.snapshot_replay(&bytes).expect("a well-formed snapshot must replay");
    let dirty = store.take_dirty();
    assert_eq!(dirty.len(), 2);
    assert!(dirty.contains(&StateKey { entity: 1, component: 1 }));
    assert!(dirty.contains(&StateKey { entity: 2, component: 2 }));
}

#[test]
fn malformed_snapshot_mutates_nothing() {
    let mut store = SceneStateStore::new();
    store.ingest(&vec![entry(1, 1, 1, b"kept")]);
    let _ = store.take_dirty();
    assert!(store.snapshot_replay(&vec![9u8, 9, 9]).is_err());
    assert!(store.take_dirty().is_empty());
    let stored = store.lookup(StateKey { entity: 1, component: 1 }).expect("still present");
    assert_eq!(stored.value, b"kept".to_vec());
}
