use fesghel::model::url::Url as Record;
use fesghel::store::error::Error;
use fesghel::store::url::Url as Store;

#[test]
fn duplicate_key_is_refused() {
    let mut s = Store::new();
    assert!(s.store(&Record::new("https://a.example", "abc123")).is_ok());
    match s.store(&Record::new("https://b.example", "abc123")) {
        Err(Error::DuplicateKey { key }) => assert_eq!(key, "abc123"),
        _ => panic!("the second store of the key must fail as a duplicate"),
    }
}

#[test]
fn fetch_returns_stored_record() {
    let mut s = Store::new();
    s.store(&Record::new("https://a.example", "abc123")).unwrap();
    let rec = s.fetch("abc123").expect("the stored key must be found");
    assert_eq!(rec.url(), "https://a.example");
    assert_eq!(rec.key(), "abc123");
}

#[test]
fn fetch_missing_key_returns_none() {
    let empty = Store::new();
    assert!(empty.fetch("nonexistent").is_none());
    let mut s = Store::new();
    s.store(&Record::new("https://a.example", "abc123")).unwrap();
    assert!(s.fetch("nonexistent").is_none());
}

#[test]
fn same_key_stored_once() {
    let mut s = Store::new();
    let mut accepted = 0;
    let mut refused = 0;
    for i in 0..8 {
        let url = format!("https://t{}.example", i);
        match s.store(&Record::new(&url, "clash1")) {
            Ok(()) => accepted += 1,
            Err(Error::DuplicateKey { key }) => {
                assert_eq!(key, "clash1");
                refused += 1;
            }
            Err(Error::Database { .. }) => panic!("no database failure can arise here"),
        }
    }
    assert_eq!(accepted, 1);
    assert_eq!(refused, 7);
}

#[test]
fn random_key() {
    let s1 = Store::random_key();
    assert_eq!(s1.len(), 6);

    let s2 = Store::random_key();

    assert_ne!(s1, s2);
}

#[test]
fn key_spells_the_sampled_bytes() {
    let sample: Vec<u8> = vec![b'a', b'b', b'c', b'1', b'2', b'3'];
    assert_eq!(Store::key_from_sample(&sample), "abc123");
}

#[test]
fn random_keys_are_alphanumeric() {
    for _ in 0..100 {
        let k = Store::random_key();
        assert_eq!(k.chars().count(), 6);
        assert!(k.chars().all(|c| c.is_ascii_alphanumeric()));
    }
}

#[test]
fn consecutive_random_keys_differ() {
    let mut prev = Store::random_key();
    for _ in 0..200 {
        let next = Store::random_key();
        assert_ne!(prev, next);
        prev = next;
    }
}

#[test]
fn rejections_are_classified() {
    match Error::from_rejection(true, "abc123", "E11000 duplicate key error") {
        Error::DuplicateKey { key } => assert_eq!(key, "abc123"),
        Error::Database { .. } => panic!("a duplicate signal must be classified as a duplicate"),
    }
    match Error::from_rejection(false, "abc123", "connection reset") {
        Error::Database { cause } => assert_eq!(cause, "connection reset"),
        Error::DuplicateKey { .. } => panic!("another failure must be classified as database"),
    }
}

#[test]
fn error_message_names_the_cause() {
    let d = Error::DuplicateKey { key: String::from("abc123") };
    assert_eq!(d.message(), "store error: duplicate key abc123");
    let e = Error::Database { cause: String::from("connection reset") };
    assert_eq!(e.message(), "store error: connection reset");
}
