use blobget::collection::load_collection;
use blobget::error::GetError;
use blobget::export::{export_entry, export_step};
use blobget::store::{bytes_eq, parse_hash_seq, verify_chunk, ContentStore, MAX_HASH_SEQ_SIZE};

fn digest(data: &[u8]) -> Vec<u8> {
    blake3::hash(data).as_bytes().to_vec()
}

#[test]
fn verified_chunk_is_stored() {
    let mut store = ContentStore::new();
    let data = b"hello world".to_vec();
    let h = digest(&data);
    assert_eq!(store.insert_verified(&h, data.clone()), Ok(()));
    assert_eq!(store.get(&h), Some(&data));
}

#[test]
fn corrupted_chunk_is_refused() {
    let mut store = ContentStore::new();
    let data = b"hello world".to_vec();
    let h = digest(&data);
    let mut bad = data.clone();
    bad[3] ^= 1;
    assert_eq!(store.insert_verified(&h, bad), Err(GetError::IntegrityMismatch));
    assert_eq!(store.get(&h), None);
}

#[test]
fn hash_is_not_its_input() {
    let mut store = ContentStore::new();
    let data = vec![7u8; 32];
    assert_eq!(store.insert_verified(&data, data.clone()), Err(GetError::IntegrityMismatch));
}

#[test]
fn stored_entry_is_written_once() {
    let mut store = ContentStore::new();
    let data = b"abc".to_vec();
    let h = digest(&data);
    assert_eq!(store.insert_verified(&h, data.clone()), Ok(()));
    assert_eq!(store.insert_verified(&h, data.clone()), Ok(()));
    assert_eq!(store.get(&h), Some(&data));
}

#[test]
fn chunk_check_compares_digests() {
    assert_eq!(verify_chunk(&[1, 2, 3], &[1, 2, 3]), Ok(()));
    assert_eq!(verify_chunk(&[1, 2, 3], &[1, 2, 4]), Err(GetError::IntegrityMismatch));
    assert!(bytes_eq(&[], &[]));
    assert!(!bytes_eq(&[1], &[1, 1]));
}

#[test]
fn hash_seq_splits_into_hashes() {
    let mut data = vec![1u8; 32];
    data.extend(vec![2u8; 32]);
    let hs = parse_hash_seq(&data, MAX_HASH_SEQ_SIZE).unwrap();
    assert_eq!(hs, vec![vec![1u8; 32], vec![2u8; 32]]);
}

#[test]
fn hash_seq_must_be_whole_and_small() {
    assert_eq!(parse_hash_seq(&[0u8; 33], MAX_HASH_SEQ_SIZE), Err(GetError::Manifest));
    assert_eq!(parse_hash_seq(&[0u8; 64], 63), Err(GetError::Manifest));
    assert_eq!(parse_hash_seq(&[], MAX_HASH_SEQ_SIZE), Ok(vec![]));
}

fn sample_store() -> (ContentStore, Vec<u8>, Vec<u8>, Vec<u8>) {
    let mut store = ContentStore::new();
    let mut meta = b"CollectionV0.".to_vec();
    meta.push(2);
    meta.push(7);
    meta.extend(b"a/b.txt");
    meta.push(7);
    meta.extend(b"a/c.txt");
    let b = b"contents of b".to_vec();
    let c = b"contents of c".to_vec();
    let hm = digest(&meta);
    let hb = digest(&b);
    let hc = digest(&c);
    let mut root = hm.clone();
    root.extend(hb.clone());
    root.extend(hc.clone());
    let hr = digest(&root);
    store.insert_verified(&hm, meta).unwrap();
    store.insert_verified(&hb, b).unwrap();
    store.insert_verified(&hc, c).unwrap();
    store.insert_verified(&hr, root).unwrap();
    (store, hr, hb, hc)
}

#[test]
fn collection_pairs_names_with_hashes() {
    let (store, root, hb, hc) = sample_store();
    let c = load_collection(&store, &root).unwrap();
    assert_eq!(c.len(), 2);
    assert_eq!(c.name(0), "a/b.txt");
    assert_eq!(c.hash(0), &hb);
    assert_eq!(c.name(1), "a/c.txt");
    assert_eq!(c.hash(1), &hc);
}

#[test]
fn collection_with_wrong_count_is_refused() {
    let mut store = ContentStore::new();
    let mut meta = b"CollectionV0.".to_vec();
    meta.push(1);
    meta.push(4);
    meta.extend(b"only");
    let hm = digest(&meta);
    let mut root = hm.clone();
    root.extend(vec![5u8; 32]);
    root.extend(vec![6u8; 32]);
    let hr = digest(&root);
    store.insert_verified(&hm, meta).unwrap();
    store.insert_verified(&hr, root).unwrap();
    assert!(matches!(load_collection(&store, &hr), Err(GetError::Manifest)));
}

#[test]
fn missing_root_is_refused() {
    let (store, _, _, _) = sample_store();
    assert!(matches!(load_collection(&store, &[9u8; 32]), Err(GetError::Manifest)));
}

#[test]
fn bad_metadata_is_refused() {
    let mut store = ContentStore::new();
    let meta = b"NotACollection".to_vec();
    let hm = digest(&meta);
    let hr = digest(&hm);
    store.insert_verified(&hm, meta).unwrap();
    store.insert_verified(&hr, hm.clone()).unwrap();
    assert!(matches!(load_collection(&store, &hr), Err(GetError::Manifest)));
}

#[test]
fn export_writes_verified_bytes_or_stops() {
    let (store, _, hb, _) = sample_store();
    assert_eq!(export_entry(&store, &hb, false), Ok(&b"contents of b".to_vec()));
    assert_eq!(export_entry(&store, &hb, true), Err(GetError::ExportConflict));
    assert_eq!(export_entry(&store, &[0u8; 32], false), Err(GetError::PartialData));
}

#[test]
fn two_entries_export_their_own_bytes() {
    let (store, root, _, _) = sample_store();
    let c = load_collection(&store, &root).unwrap();
    let (p0, b0) = export_step("/tmp/out", &c, &store, 0, false).unwrap();
    assert_eq!(p0, "/tmp/out/a/b.txt");
    assert_eq!(b0, &b"contents of b".to_vec());
    let (p1, b1) = export_step("/tmp/out", &c, &store, 1, false).unwrap();
    assert_eq!(p1, "/tmp/out/a/c.txt");
    assert_eq!(b1, &b"contents of c".to_vec());
}

#[test]
fn existing_target_stops_the_step() {
    let (store, root, _, _) = sample_store();
    let c = load_collection(&store, &root).unwrap();
    assert_eq!(export_step("/tmp/out", &c, &store, 1, true), Err(GetError::ExportConflict));
}

#[test]
fn unsafe_name_stops_the_step() {
    let mut store = ContentStore::new();
    let mut meta = b"CollectionV0.".to_vec();
    meta.extend([1, 4]);
    meta.extend(b"../x");
    let data = b"payload".to_vec();
    let hm = digest(&meta);
    let hd = digest(&data);
    let mut root = hm.clone();
    root.extend(hd.clone());
    let hr = digest(&root);
    store.insert_verified(&hm, meta).unwrap();
    store.insert_verified(&hd, data).unwrap();
    store.insert_verified(&hr, root).unwrap();
    let c = load_collection(&store, &hr).unwrap();
    assert_eq!(export_step("/tmp/out", &c, &store, 0, false), Err(GetError::PathViolation));
}
