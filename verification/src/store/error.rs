//! The closed set of store-level failure kinds.

use vstd::prelude::*;
use vstd::string::StringExecFns;

verus! {

/// A store-level failure, as reported to the caller of `store`.
///
/// `DuplicateKey` is recoverable: the caller may pick a new key and retry.
/// `Database` covers every other persistence failure; its cause is kept
/// only for diagnostics and is never matched on further upstream.
#[derive(Debug)]
pub enum Error {
    /// The attempted key collided with an existing record; carries that key.
    DuplicateKey { key: String },
    /// Any other persistence-layer failure; carries its cause as text.
    Database { cause: String },
}

impl Error {
    /// The typed failure for an insert the backing store rejected:
    /// `DuplicateKey` carrying the attempted key when the rejection was the
    /// store's duplicate-violation signal, `Database` carrying the cause
    /// for every other failure.
    pub fn from_rejection(duplicate: bool, key: &str, cause: &str) -> (r: Error)
        ensures
            duplicate ==> (r matches Error::DuplicateKey { key: k } && k@ == key@),
            !duplicate ==> (r matches Error::Database { cause: c } && c@ == cause@),
    {
        if duplicate {
            Error::DuplicateKey { key: key.to_owned() }
        } else {
            Error::Database { cause: cause.to_owned() }
        }
    }

    /// The diagnostic text of this failure.
    pub fn message(&self) -> (r: String)
        ensures
            self matches Error::DuplicateKey { key } ==> r@ == "store error: duplicate key "@ + key@,
            self matches Error::Database { cause } ==> r@ == "store error: "@ + cause@,
    {
        match self {
            Error::DuplicateKey { key } => {
                "store error: duplicate key ".to_owned().concat(key.as_str())
            },
            Error::Database { cause } => "store error: ".to_owned().concat(cause.as_str()),
        }
    }
}

} // verus!
