//! The persisted record: a {url, key} pair, immutable once constructed.

use vstd::prelude::*;

verus! {

/// A stored mapping from a short key to its redirect target.
///
/// Both fields are fixed at construction; a record's identity is its key.
#[derive(Debug)]
pub struct Url {
    url: String,
    key: String,
}

/// The mathematical value of a record: both fields as character sequences.
pub struct UrlView {
    pub url: Seq<char>,
    pub key: Seq<char>,
}

impl View for Url {
    type V = UrlView;

    closed spec fn view(&self) -> UrlView {
        UrlView { url: self.url@, key: self.key@ }
    }
}

impl Url {
    pub fn key(&self) -> (r: &str)
        ensures
            r@ == self@.key,
    {
        self.key.as_str()
    }

    pub fn url(&self) -> (r: &str)
        ensures
            r@ == self@.url,
    {
        self.url.as_str()
    }

    pub fn new(url: &str, key: &str) -> (r: Self)
        ensures
            r@.url == url@,
            r@.key == key@,
    {
        Url { url: url.to_owned(), key: key.to_owned() }
    }
}

impl Clone for Url {
    fn clone(&self) -> (r: Self)
        ensures
            r@ == self@,
    {
        Url { url: self.url.clone(), key: self.key.clone() }
    }
}

} // verus!
