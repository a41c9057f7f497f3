use fesghel::model::url::Url as Record;
use fesghel::store::codec::{decode_record, encode_record};

#[test]
fn record_round_trips() {
    let r = Record::new("https://a.example", "abc123");
    let bytes = encode_record(&r);
    let back = decode_record(&bytes).expect("an encoded record must decode");
    assert_eq!(back.url(), "https://a.example");
    assert_eq!(back.key(), "abc123");
}

#[test]
fn empty_fields_round_trip() {
    let r = Record::new("", "");
    let bytes = encode_record(&r);
    let back = decode_record(&bytes).expect("an encoded record must decode");
    assert_eq!(back.url(), "");
    assert_eq!(back.key(), "");
}

#[test]
fn non_ascii_fields_round_trip() {
    let r = Record::new("https://példa.example/útvonal", "kulcs1");
    let bytes = encode_record(&r);
    let back = decode_record(&bytes).expect("an encoded record must decode");
    assert_eq!(back.url(), "https://példa.example/útvonal");
    assert_eq!(back.key(), "kulcs1");
}

#[test]
fn encoded_document_is_valid_bson() {
    let r = Record::new("https://a.example", "abc123");
    let bytes = encode_record(&r);
    let doc = bson::Document::from_reader(&bytes[..]).expect("the bytes must parse as BSON");
    assert_eq!(doc.get_str("url").unwrap(), "https://a.example");
    assert_eq!(doc.get_str("key").unwrap(), "abc123");
}

#[test]
fn bson_documents_decode() {
    let mut doc = bson::Document::new();
    doc.insert("url", "https://b.example");
    doc.insert("key", "k12345");
    let mut bytes: Vec<u8> = Vec::new();
    doc.to_writer(&mut bytes).unwrap();
    let rec = decode_record(&bytes).expect("a two-field document must decode");
    assert_eq!(rec.url(), "https://b.example");
    assert_eq!(rec.key(), "k12345");
}

#[test]
fn malformed_documents_are_refused() {
    assert!(decode_record(&Vec::new()).is_none());
    let r = Record::new("https://a.example", "abc123");
    let mut bytes = encode_record(&r);
    bytes.pop();
    assert!(decode_record(&bytes).is_none());
}

#[test]
fn invalid_utf8_fields_are_refused() {
    let r = Record::new("ab", "cd");
    let mut bytes = encode_record(&r);
    // the url field's bytes start right after the 13-byte document header
    bytes[13] = 0xff;
    assert!(decode_record(&bytes).is_none());
}
