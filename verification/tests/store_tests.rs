use file_sync::hash_store::HashStorage;
use file_sync::hash_utils::conpute_hash;

fn hex(bytes: &[u8]) -> String {
    let mut s = String::new();
    for b in bytes {
        s.push_str(&format!("{:02x}", b));
    }
    s
}

#[test]
fn sha256_of_known_vector() {
    let digest = conpute_hash(b"abc");
    assert_eq!(
        hex(&digest),
        "ba7816bf8f01cfea414140de5dae2223b00361a396177a9cb410ff61f20015ad"
    );
    assert_eq!(digest.len(), 32);
}

#[test]
fn sha256_differs_from_input() {
    let digest = conpute_hash(b"hello");
    assert_ne!(digest.as_slice(), b"hello".as_ref());
    assert_ne!(conpute_hash(b"hello"), conpute_hash(b"hello "));
}

#[test]
fn first_sight_reports_change_and_stores_digest() {
    let mut st = HashStorage::empty(String::from("/tmp/hash_storage"));
    let content = vec![1u8, 2, 3, 4];
    let changed = st.detect_change("/data/dict.txt", Some(&content));
    assert!(changed);
    let stored = st.get_hash("/data/dict.txt");
    assert_eq!(stored.len(), 32);
    assert_eq!(stored, conpute_hash(&content));
}

#[test]
fn unreadable_file_still_reports_change_with_empty_digest() {
    let mut st = HashStorage::empty(String::from("/tmp/hash_storage"));
    let changed = st.detect_change("/data/missing.txt", None);
    assert!(changed);
    assert!(st.get_hash("/data/missing.txt").is_empty());
}

#[test]
fn detect_change_is_idempotent() {
    let mut st = HashStorage::empty(String::from("/tmp/hash_storage"));
    let content = vec![9u8, 9, 9];
    assert!(st.detect_change("/data/dict.txt", Some(&content)));
    assert!(!st.detect_change("/data/dict.txt", Some(&content)));
    assert!(!st.detect_change("/data/dict.txt", Some(&content)));
}

#[test]
fn modified_content_reports_change_again() {
    let mut st = HashStorage::empty(String::from("/tmp/hash_storage"));
    assert!(st.detect_change("/data/dict.txt", Some(&vec![1u8])));
    assert!(st.detect_change("/data/dict.txt", Some(&vec![2u8])));
    assert!(!st.detect_change("/data/dict.txt", Some(&vec![2u8])));
}

#[test]
fn update_hash_replaces_existing_entry() {
    let mut st = HashStorage::empty(String::from("/s"));
    st.update_hash(String::from("a"), vec![1]);
    st.update_hash(String::from("a"), vec![2]);
    assert_eq!(st.get_hash("a"), vec![2]);
    assert_eq!(st.hashes.len(), 1);
}

#[test]
fn get_hash_of_unknown_path_is_empty() {
    let st = HashStorage::empty(String::from("/s"));
    assert!(st.get_hash("nowhere").is_empty());
}

#[test]
fn save_writes_the_expected_document() {
    let mut st = HashStorage::empty(String::from("d"));
    st.update_hash(String::from("a"), vec![0x0f]);
    assert_eq!(st.save(), "{\"hashes\":{\"a\":\"0f\"},\"dir_path\":\"d\"}");
}

#[test]
fn save_of_empty_store() {
    let st = HashStorage::empty(String::from("/var/hs"));
    assert_eq!(st.save(), "{\"hashes\":{},\"dir_path\":\"/var/hs\"}");
}

#[test]
fn save_escapes_quotes_and_backslashes() {
    let mut st = HashStorage::empty(String::from("d"));
    st.update_hash(String::from("a\"b\\c"), vec![0xab]);
    assert_eq!(
        st.save(),
        "{\"hashes\":{\"a\\\"b\\\\c\":\"ab\"},\"dir_path\":\"d\"}"
    );
}

#[test]
fn save_then_load_round_trips_the_mapping() {
    let mut st = HashStorage::empty(String::from("/tmp/hs"));
    st.update_hash(String::from("/data/dict.txt"), vec![1, 2, 3]);
    st.update_hash(String::from("weird\"path\\x"), vec![0xab, 0x00, 0xff]);
    st.update_hash(String::from(""), vec![]);
    let text = st.save();
    let reloaded = HashStorage::load(&text, "/tmp/hs");
    assert_eq!(reloaded.hashes.len(), 3);
    assert_eq!(reloaded.get_hash("/data/dict.txt"), vec![1, 2, 3]);
    assert_eq!(reloaded.get_hash("weird\"path\\x"), vec![0xab, 0x00, 0xff]);
    assert_eq!(reloaded.get_hash(""), Vec::<u8>::new());
    assert_eq!(reloaded.dir_path, "/tmp/hs");
}

#[test]
fn round_trip_after_updates_and_overwrites() {
    let mut st = HashStorage::empty(String::from("loc"));
    for i in 0..10u8 {
        st.update_hash(format!("file{}", i), vec![i, i + 1]);
    }
    st.update_hash(String::from("file3"), vec![0xee]);
    let reloaded = HashStorage::load(&st.save(), "loc");
    assert_eq!(reloaded.hashes.len(), 10);
    for i in 0..10u8 {
        let expected = if i == 3 { vec![0xee] } else { vec![i, i + 1] };
        assert_eq!(reloaded.get_hash(&format!("file{}", i)), expected);
    }
}

#[test]
fn corrupt_document_loads_as_empty_map() {
    let r = HashStorage::load("not a document", "/p");
    assert_eq!(r.hashes.len(), 0);
    assert_eq!(r.dir_path, "/p");
    let r2 = HashStorage::load("", "/p");
    assert_eq!(r2.hashes.len(), 0);
    let r3 = HashStorage::load("{\"hashes\":{\"a\":\"0\"},\"dir_path\":\"d\"}", "/p");
    assert_eq!(r3.hashes.len(), 0, "odd hex digit count is rejected");
    let r4 = HashStorage::load("{\"hashes\":{\"a\":\"0f\"},\"dir_path\":\"d\"} ", "/p");
    assert_eq!(r4.hashes.len(), 0, "trailing garbage is rejected");
}

#[test]
fn duplicate_paths_load_as_empty_map() {
    let doc = "{\"hashes\":{\"a\":\"01\",\"a\":\"02\"},\"dir_path\":\"d\"}";
    let r = HashStorage::load(doc, "/p");
    assert_eq!(r.hashes.len(), 0);
}

#[test]
fn load_takes_the_current_location() {
    let mut st = HashStorage::empty(String::from("/old/place"));
    st.update_hash(String::from("k"), vec![7]);
    let moved = HashStorage::load(&st.save(), "/new/place");
    assert_eq!(moved.dir_path, "/new/place");
    assert_eq!(moved.get_hash("k"), vec![7]);
}
