use cita_gossip::cache::{decode_all, encode_all, PersistCache};

#[test]
fn put_then_get() {
    let mut c = PersistCache::new(&None);
    assert!(c.get(b"k").is_none());
    assert!(c.put(b"k".to_vec(), b"v1".to_vec()));
    assert_eq!(c.get(b"k"), Some(b"v1".to_vec()));
    assert!(c.put(b"k".to_vec(), b"v2".to_vec()));
    assert_eq!(c.get(b"k"), Some(b"v2".to_vec()));
    assert!(c.put(b"other".to_vec(), b"x".to_vec()));
    assert_eq!(c.get(b"k"), Some(b"v2".to_vec()));
    assert_eq!(c.get(b"other"), Some(b"x".to_vec()));
}

#[test]
fn save_without_file_is_none() {
    let mut c = PersistCache::new(&None);
    c.put(vec![1], vec![2]);
    assert!(c.save().is_none());
    assert!(c.filename().is_none());
}

#[test]
fn save_writes_length_prefixed_key_then_value() {
    let mut c = PersistCache::new(&Some("cache.bin".to_string()));
    assert_eq!(c.filename().as_deref(), Some("cache.bin"));
    c.put(vec![1, 2], vec![3]);
    c.put(vec![9], vec![]);
    assert_eq!(c.save(), Some(vec![0, 2, 1, 2, 0, 1, 3, 0, 1, 9, 0, 0]));
    c.put(vec![1, 2], vec![4, 5]);
    assert_eq!(c.save(), Some(vec![0, 2, 1, 2, 0, 2, 4, 5, 0, 1, 9, 0, 0]));
}

#[test]
fn long_payload_prefix_is_big_endian() {
    let key = vec![7u8; 300];
    let bytes = encode_all(&vec![(key.clone(), vec![])]);
    assert_eq!(&bytes[0..2], &[1, 44]);
    assert_eq!(bytes.len(), 2 + 300 + 2);
    assert_eq!(decode_all(&bytes), Some(vec![(key, vec![])]));
}

#[test]
fn oversized_length_prefix_is_cut_to_sixteen_bits() {
    let key = vec![0u8; 65536 + 3];
    let bytes = encode_all(&vec![(key, vec![])]);
    assert_eq!(&bytes[0..2], &[0, 3]);
}

#[test]
fn saved_cache_loads_back() {
    let mut c = PersistCache::new(&Some("f".to_string()));
    c.put(b"session-a".to_vec(), b"ticket-a".to_vec());
    c.put(b"session-b".to_vec(), vec![]);
    let bytes = c.save().unwrap();
    let mut d = PersistCache::new(&None);
    d.put(b"stale".to_vec(), b"gone".to_vec());
    d.load(&bytes);
    assert_eq!(d.get(b"session-a"), Some(b"ticket-a".to_vec()));
    assert_eq!(d.get(b"session-b"), Some(vec![]));
    assert!(d.get(b"stale").is_none());
}

#[test]
fn load_later_entry_wins() {
    let bytes = vec![0, 1, 5, 0, 1, 1, 0, 1, 5, 0, 1, 2];
    let mut c = PersistCache::new(&None);
    c.load(&bytes);
    assert_eq!(c.get(&[5]), Some(vec![2]));
}

#[test]
fn truncated_data_does_not_decode_and_empty_data_empties() {
    let mut c = PersistCache::new(&None);
    c.put(vec![1], vec![1]);
    assert!(decode_all(&[0, 3, 1, 2]).is_none());
    assert!(decode_all(&[0, 1, 1]).is_none());
    assert!(decode_all(&[0, 1, 1, 0, 2, 9]).is_none());
    assert!(decode_all(&[0]).is_none());
    assert_eq!(c.get(&[1]), Some(vec![1]));
    c.load(&[]);
    assert!(c.get(&[1]).is_none());
}

#[test]
fn decode_all_matches_encode_all() {
    let entries = vec![(vec![1, 2, 3], vec![4]), (vec![], vec![5, 6])];
    let bytes = encode_all(&entries);
    assert_eq!(bytes, vec![0, 3, 1, 2, 3, 0, 1, 4, 0, 0, 0, 2, 5, 6]);
    assert_eq!(decode_all(&bytes), Some(entries));
    assert_eq!(decode_all(&[]), Some(vec![]));
    assert_eq!(decode_all(&[0, 2, 1]), None);
}
