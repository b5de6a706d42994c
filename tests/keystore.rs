use rpkv::{get_from_snapshot, get_path, put_in_snapshot, Store, DB_PATH};

fn s(t: &str) -> String {
    t.to_string()
}

#[test]
fn toto() {
    put_in_snapshot(&[], "toto".into(), "rue des pets".into()).unwrap();
}

#[test]
fn scenario_put_save_reload_get() {
    let saved = put_in_snapshot(&[], s("toto"), s("rue des pets")).unwrap();
    let reloaded = Store::decode(&saved);
    assert_eq!(reloaded.get(&s("toto")), Some(s("rue des pets")));
    assert_eq!(reloaded.get(&s("missing")), None);
    assert_eq!(get_from_snapshot(&saved, &s("toto")), Some(s("rue des pets")));
    assert_eq!(get_from_snapshot(&saved, &s("missing")), None);
}

#[test]
fn persistence_across_fresh_load() {
    let saved = put_in_snapshot(&[], s("a"), s("1")).unwrap();
    assert_eq!(get_from_snapshot(&saved, &s("a")), Some(s("1")));
}

#[test]
fn put_then_get_with_empty_strings() {
    let saved = put_in_snapshot(&[], s(""), s("")).unwrap();
    assert_eq!(get_from_snapshot(&saved, &s("")), Some(s("")));
    let saved = put_in_snapshot(&saved, s("k"), s("")).unwrap();
    assert_eq!(get_from_snapshot(&saved, &s("k")), Some(s("")));
    assert_eq!(get_from_snapshot(&saved, &s("")), Some(s("")));
}

#[test]
fn overwrite_keeps_last_value() {
    let s1 = put_in_snapshot(&[], s("k"), s("v1")).unwrap();
    let s2 = put_in_snapshot(&s1, s("k"), s("v2")).unwrap();
    assert_eq!(get_from_snapshot(&s2, &s("k")), Some(s("v2")));
    let mut st = Store::new();
    st.put(s("k"), s("v1"));
    st.put(s("k"), s("v2"));
    assert_eq!(st.get(&s("k")), Some(s("v2")));
    assert_eq!(st.encode().unwrap(), s2);
}

#[test]
fn missing_key_is_absent() {
    assert_eq!(get_from_snapshot(&[], &s("nope")), None);
    let s1 = put_in_snapshot(&[], s("a"), s("1")).unwrap();
    let s2 = put_in_snapshot(&s1, s("b"), s("2")).unwrap();
    assert_eq!(get_from_snapshot(&s2, &s("nope")), None);
    assert_eq!(get_from_snapshot(&s2, &s("a")), Some(s("1")));
}

#[test]
fn empty_snapshot_decodes_to_empty_store() {
    let st = Store::decode(&[]);
    assert_eq!(st.get(&s("a")), None);
    assert_eq!(st.encode().unwrap(), vec![0u8; 8]);
}

#[test]
fn garbage_snapshot_decodes_to_empty_store() {
    let garbage: Vec<u8> = vec![0xff, 0x13, 0x37];
    assert_eq!(Store::decode(&garbage).encode().unwrap(), vec![0u8; 8]);
    let huge_length: Vec<u8> = vec![0xff; 12];
    assert_eq!(Store::decode(&huge_length).encode().unwrap(), vec![0u8; 8]);
    // one entry whose key is not UTF-8
    let bad_utf8: Vec<u8> = vec![1, 0, 0, 0, 0, 0, 0, 0, 1, 0, 0, 0, 0, 0, 0, 0, 0xff, 0, 0, 0, 0, 0, 0, 0, 0];
    assert_eq!(Store::decode(&bad_utf8).encode().unwrap(), vec![0u8; 8]);
    // a put over a corrupt file starts from the empty store
    let saved = put_in_snapshot(&garbage, s("a"), s("1")).unwrap();
    assert_eq!(saved, put_in_snapshot(&[], s("a"), s("1")).unwrap());
}

#[test]
fn encoding_of_one_entry() {
    let mut st = Store::new();
    st.put(s("a"), s("1"));
    let bytes = st.encode().unwrap();
    let expected: Vec<u8> = vec![
        1, 0, 0, 0, 0, 0, 0, 0, 1, 0, 0, 0, 0, 0, 0, 0, b'a', 1, 0, 0, 0, 0, 0, 0, 0, b'1',
    ];
    assert_eq!(bytes, expected);
}

#[test]
fn decoding_keeps_the_later_of_two_equal_keys() {
    let bytes: Vec<u8> = vec![
        2, 0, 0, 0, 0, 0, 0, 0, 1, 0, 0, 0, 0, 0, 0, 0, b'k', 1, 0, 0, 0, 0, 0, 0, 0, b'x', 1, 0,
        0, 0, 0, 0, 0, 0, b'k', 1, 0, 0, 0, 0, 0, 0, 0, b'y',
    ];
    let st = Store::decode(&bytes);
    assert_eq!(st.get(&s("k")), Some(s("y")));
    let mut one = Store::new();
    one.put(s("k"), s("y"));
    assert_eq!(st.encode().unwrap(), one.encode().unwrap());
}

#[test]
fn round_trip_of_several_entries() {
    let mut st = Store::new();
    st.put(s("toto"), s("rue des pets"));
    st.put(s(""), s("empty key"));
    st.put(s("clé"), s("valeur ünïcode"));
    st.put(s("toto"), s("rue des fleurs"));
    let bytes = st.encode().unwrap();
    let back = Store::decode(&bytes);
    assert_eq!(back.get(&s("toto")), Some(s("rue des fleurs")));
    assert_eq!(back.get(&s("")), Some(s("empty key")));
    assert_eq!(back.get(&s("clé")), Some(s("valeur ünïcode")));
    assert_eq!(back.get(&s("other")), None);
    assert_eq!(back.encode().unwrap(), bytes);
}

#[test]
fn from_entries_later_pair_wins() {
    let st = Store::from_entries(&vec![(s("a"), s("1")), (s("b"), s("2")), (s("a"), s("3"))]);
    assert_eq!(st.get(&s("a")), Some(s("3")));
    assert_eq!(st.get(&s("b")), Some(s("2")));
}

#[test]
fn concurrent_puts_lose_an_update() {
    let s0 = put_in_snapshot(&[], s("base"), s("0")).unwrap();
    // both writers load the same snapshot before either saves
    let first = put_in_snapshot(&s0, s("k1"), s("v1")).unwrap();
    let second = put_in_snapshot(&s0, s("k2"), s("v2")).unwrap();
    assert_eq!(get_from_snapshot(&first, &s("k1")), Some(s("v1")));
    // the second save replaces the file: the first writer's key is gone
    assert_eq!(get_from_snapshot(&second, &s("k1")), None);
    assert_eq!(get_from_snapshot(&second, &s("k2")), Some(s("v2")));
    assert_eq!(get_from_snapshot(&second, &s("base")), Some(s("0")));
}

#[test]
fn storage_path_is_fixed() {
    assert_eq!(get_path(), "./rpkv.db");
    assert_eq!(DB_PATH, "./rpkv.db");
}
