//! A client's request to shorten a URL, as handed in by the HTTP layer.

use vstd::prelude::*;

verus! {

/// The request body for creating a short URL: the redirect target and an
/// optional caller-chosen name; with no name given, a key is generated.
#[derive(Debug)]
pub struct Url {
    url: String,
    name: Option<String>,
}

/// The mathematical value of a request.
pub struct UrlView {
    pub url: Seq<char>,
    pub name: Option<Seq<char>>,
}

impl View for Url {
    type V = UrlView;

    closed spec fn view(&self) -> UrlView {
        UrlView { url: self.url@, name: self.name.deep_view() }
    }
}

impl Url {
    pub fn new(url: &str, name: Option<String>) -> (r: Self)
        ensures
            r@.url == url@,
            r@.name == name.deep_view(),
    {
        Url { url: url.to_owned(), name }
    }

    pub fn url(&self) -> (r: &str)
        ensures
            r@ == self@.url,
    {
        self.url.as_str()
    }

    /// The caller-chosen name, or `"-"` when the caller left it out.
    pub fn name(&self) -> (r: &str)
        ensures
            self@.name matches Some(s) ==> r@ == s,
            self@.name is None ==> r@ == "-"@,
    {
        if let Some(s) = &self.name {
            s.as_str()
        } else {
            "-"
        }
    }
}

} // verus!
