//! Data carriers for the service: the persisted record lives in [`url`].

pub mod url;

use vstd::prelude::*;

verus! {

/// A pair of a full address and its short form, as handed back to a client.
#[derive(Debug)]
pub struct URL {
    actual: String,
    short: String,
}

impl View for URL {
    type V = URLView;

    closed spec fn view(&self) -> URLView {
        URLView { actual: self.actual@, short: self.short@ }
    }
}

/// The mathematical value of a [`URL`]: both fields as character sequences.
pub struct URLView {
    pub actual: Seq<char>,
    pub short: Seq<char>,
}

impl URL {
    pub fn new(actual: &str, short: &str) -> (r: Self)
        ensures
            r@.actual == actual@,
            r@.short == short@,
    {
        URL { actual: actual.to_owned(), short: short.to_owned() }
    }
}

} // verus!
