//! The decision cores of the create and fetch handlers: choosing the key
//! for a new record, storing it, and looking a record up.

use vstd::prelude::*;

use crate::model;
use crate::request;
use crate::store;
use crate::store::error::Error;
use crate::store::url::{attempt, is_alnum_char, LENGTH};
use crate::text::str_eq;

verus! {

/// The shared state behind the URL handlers: the mapping store.
pub struct State {
    store: store::url::Url,
}

impl View for State {
    type V = Map<Seq<char>, Seq<char>>;

    closed spec fn view(&self) -> Map<Seq<char>, Seq<char>> {
        self.store@
    }
}

impl State {
    /// The store's invariant, carried through the handlers.
    pub closed spec fn inv(&self) -> bool {
        self.store.inv()
    }

    pub fn new(store: store::url::Url) -> (r: Self)
        ensures
            r.inv() <==> store.inv(),
            r@ == store@,
    {
        State { store }
    }
}

/// The name the request asks for, when the caller chose one: a name of
/// `"-"` stands for no choice, as does an absent name.
pub open spec fn requested_name(v: request::UrlView) -> Option<Seq<char>> {
    match v.name {
        Some(s) => if s == "-"@ {
            None
        } else {
            Some(s)
        },
        None => None,
    }
}

/// The create handler's decision core: the new record's key is the
/// caller-chosen name when one was given, a fresh generated key otherwise;
/// the record is stored under the store's uniqueness rule, and the caller
/// receives the key on success and the store's typed failure otherwise —
/// the caller decides its own retry policy.
pub fn create(state: &mut State, url: &request::Url) -> (r: Result<String, Error>)
    requires
        old(state).inv(),
    ensures
        final(state).inv(),
        r matches Ok(k) ==> !old(state)@.dom().contains(k@) && final(state)@ == old(state)@.insert(
            k@,
            url@.url,
        ),
        r matches Err(e) ==> (e matches Error::DuplicateKey { key }
            && old(state)@.dom().contains(key@)) && final(state)@ == old(state)@,
        requested_name(url@) matches Some(s) ==> (r matches Ok(k) ==> k@ == s) && (r matches Err(e)
            ==> e matches Error::DuplicateKey { key } && key@ == s) && (r is Ok <==> !old(
            state,
        )@.dom().contains(s)),
        requested_name(url@) is None ==> (r matches Ok(k) ==> k@.len() == LENGTH && forall|i: int|
            0 <= i < k@.len() ==> is_alnum_char(#[trigger] k@[i])),
{
    let name = if str_eq(url.name(), "-") {
        store::url::Url::random_key()
    } else {
        url.name().to_owned()
    };
    let m = model::url::Url::new(url.url(), name.as_str());
    match state.store.store(&m) {
        Ok(()) => {
            proof {
                assert(attempt(old(state)@, m@.key, m@.url).0);
            }
            Ok(name)
        },
        Err(e) => Err(e),
    }
}

/// The fetch handler's decision core: the record stored under the given
/// name, or absent when no record carries it; the HTTP layer maps the two
/// outcomes onto a redirect and a not-found response.
pub fn fetch(state: &State, name: &str) -> (r: Option<model::url::Url>)
    requires
        state.inv(),
    ensures
        state@.dom().contains(name@) ==> (r matches Some(rec) && rec@.key == name@ && rec@.url
            == state@[name@]),
        !state@.dom().contains(name@) ==> r is None,
{
    state.store.fetch(name)
}

} // verus!
