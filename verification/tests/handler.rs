use fesghel::handler::url::{create, fetch, State};
use fesghel::request;
use fesghel::store::error::Error;
use fesghel::store::url::Url as Store;

#[test]
fn create_uses_the_callers_name() {
    let mut st = State::new(Store::new());
    let req = request::Url::new("https://a.example", Some(String::from("mylink")));
    let key = create(&mut st, &req).expect("a free name must be accepted");
    assert_eq!(key, "mylink");
    let rec = fetch(&st, "mylink").expect("the stored key must be found");
    assert_eq!(rec.url(), "https://a.example");
    assert_eq!(rec.key(), "mylink");
}

#[test]
fn create_generates_a_key_when_unnamed() {
    let mut st = State::new(Store::new());
    let req = request::Url::new("https://a.example", None);
    let key = create(&mut st, &req).expect("a generated key is fresh in an empty store");
    assert_eq!(key.len(), 6);
    assert!(key.chars().all(|c| c.is_ascii_alphanumeric()));
    assert!(fetch(&st, &key).is_some());
}

#[test]
fn create_treats_dash_as_unnamed() {
    let mut st = State::new(Store::new());
    let req = request::Url::new("https://a.example", Some(String::from("-")));
    let key = create(&mut st, &req).expect("a generated key is fresh in an empty store");
    assert_eq!(key.len(), 6);
    assert_ne!(key, "-");
}

#[test]
fn create_reports_duplicate_names() {
    let mut st = State::new(Store::new());
    let first = request::Url::new("https://a.example", Some(String::from("dup111")));
    create(&mut st, &first).expect("a free name must be accepted");
    let second = request::Url::new("https://b.example", Some(String::from("dup111")));
    match create(&mut st, &second) {
        Err(Error::DuplicateKey { key }) => assert_eq!(key, "dup111"),
        _ => panic!("reusing a name must fail as a duplicate"),
    }
}

#[test]
fn request_name_defaults_to_dash() {
    let r = request::Url::new("https://a.example", None);
    assert_eq!(r.url(), "https://a.example");
    assert_eq!(r.name(), "-");
    let named = request::Url::new("https://a.example", Some(String::from("n1")));
    assert_eq!(named.name(), "n1");
}
