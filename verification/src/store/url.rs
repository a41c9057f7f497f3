//! The mapping store: owns the collection of {key -> target} records,
//! enforces the key-uniqueness invariant, and reports failures as typed
//! errors.

use vstd::prelude::*;
use vstd::pervasive::unreached;

use rand::distributions::Alphanumeric;
use rand::{thread_rng, Rng};

use crate::model;
use crate::model::url::UrlView;
use crate::store::error::Error;
use crate::text::{bytes_to_string, lemma_ascii_decode, str_eq};

verus! {

/// The length of every generated key.
pub const LENGTH: usize = 6;

/// The byte is the ASCII code of a character of the 62-symbol alphanumeric
/// alphabet.
pub open spec fn is_alnum_byte(b: u8) -> bool {
    (48 <= b <= 57) || (65 <= b <= 90) || (97 <= b <= 122)
}

/// The character belongs to the 62-symbol alphanumeric alphabet.
pub open spec fn is_alnum_char(c: char) -> bool {
    (48 <= c as u32 <= 57) || (65 <= c as u32 <= 90) || (97 <= c as u32 <= 122)
}

/// One attempted insertion against the store's abstract state: accepted
/// exactly when the key is not yet taken, in which case the mapping gains
/// the new pair; a refused attempt leaves the mapping unchanged.
pub open spec fn attempt(
    m: Map<Seq<char>, Seq<char>>,
    key: Seq<char>,
    target: Seq<char>,
) -> (bool, Map<Seq<char>, Seq<char>>) {
    if m.dom().contains(key) {
        (false, m)
    } else {
        (true, m.insert(key, target))
    }
}

/// How many of a sequence of insertion attempts, all claiming the same key,
/// are accepted, starting from the abstract state `m`.
pub open spec fn successes(
    m: Map<Seq<char>, Seq<char>>,
    key: Seq<char>,
    targets: Seq<Seq<char>>,
) -> nat
    decreases targets.len(),
{
    if targets.len() == 0 {
        0
    } else {
        (if attempt(m, key, targets.first()).0 {
            1nat
        } else {
            0nat
        }) + successes(attempt(m, key, targets.first()).1, key, targets.drop_first())
    }
}

/// Law: once a key is taken, an attempt on any key — in particular, one
/// interleaved from another caller — leaves it taken.
pub proof fn lemma_claim_persists(
    m: Map<Seq<char>, Seq<char>>,
    key: Seq<char>,
    other_key: Seq<char>,
    other_target: Seq<char>,
)
    requires
        m.dom().contains(key),
    ensures
        attempt(m, other_key, other_target).1.dom().contains(key),
{
}

/// Law: while a key is taken, no attempt claiming it is ever accepted again.
pub proof fn lemma_taken_key_never_accepted(
    m: Map<Seq<char>, Seq<char>>,
    key: Seq<char>,
    targets: Seq<Seq<char>>,
)
    requires
        m.dom().contains(key),
    ensures
        successes(m, key, targets) == 0,
    decreases targets.len(),
{
    if targets.len() == 0 {
    } else {
        lemma_taken_key_never_accepted(m, key, targets.drop_first());
    }
}

/// Law: of any number of insertion attempts that claim one free key —
/// however many callers they come from, in whatever order the backing
/// store's atomic uniqueness constraint serializes them — exactly one is
/// accepted and every other one is refused as a duplicate.
pub proof fn lemma_same_key_stored_once(
    m: Map<Seq<char>, Seq<char>>,
    key: Seq<char>,
    targets: Seq<Seq<char>>,
)
    requires
        !m.dom().contains(key),
        targets.len() > 0,
    ensures
        successes(m, key, targets) == 1,
    decreases targets.len(),
{
    let m2 = attempt(m, key, targets.first()).1;
    lemma_taken_key_never_accepted(m2, key, targets.drop_first());
}

/// No two records in the sequence share a key.
pub open spec fn unique_keys(s: Seq<UrlView>) -> bool {
    forall|i: int, j: int| 0 <= i < j < s.len() ==> s[i].key != s[j].key
}

/// The mapping that a sequence of records denotes, later records taking
/// precedence.
pub closed spec fn map_of(s: Seq<UrlView>) -> Map<Seq<char>, Seq<char>>
    decreases s.len(),
{
    if s.len() == 0 {
        Map::empty()
    } else {
        map_of(s.drop_last()).insert(s.last().key, s.last().url)
    }
}

/// A key is in the denoted mapping exactly when some record carries it.
proof fn lemma_map_of_contains_key(s: Seq<UrlView>, k: Seq<char>)
    ensures
        map_of(s).dom().contains(k) <==> exists|i: int| 0 <= i < s.len() && s[i].key == k,
    decreases s.len(),
{
    if s.len() == 0 {
    } else {
        lemma_map_of_contains_key(s.drop_last(), k);
        if s.last().key == k {
            assert(s[s.len() - 1].key == k);
        } else if exists|i: int| 0 <= i < s.len() && s[i].key == k {
            let i = choose|i: int| 0 <= i < s.len() && s[i].key == k;
            assert(s.drop_last()[i] == s[i]);
        } else {
            assert forall|i: int| 0 <= i < s.drop_last().len() implies s.drop_last()[i].key != k by {
                assert(s.drop_last()[i] == s[i]);
            }
        }
    }
}

/// Under unique keys, the record at any index gives the mapping's value at
/// its key.
proof fn lemma_map_of_index(s: Seq<UrlView>, i: int)
    requires
        unique_keys(s),
        0 <= i < s.len(),
    ensures
        map_of(s).dom().contains(s[i].key),
        map_of(s)[s[i].key] == s[i].url,
    decreases s.len(),
{
    if i == s.len() - 1 {
    } else {
        assert(s[i].key != s.last().key);
        assert(s.drop_last()[i] == s[i]);
        lemma_map_of_index(s.drop_last(), i);
    }
}

/// Appending a record updates the denoted mapping at its key.
proof fn lemma_map_of_push(s: Seq<UrlView>, v: UrlView)
    ensures
        map_of(s.push(v)) == map_of(s).insert(v.key, v.url),
{
    assert(s.push(v).drop_last() =~= s);
    assert(s.push(v).last() == v);
}

/// The views of a sequence of records.
pub open spec fn views_of(s: Seq<model::url::Url>) -> Seq<UrlView> {
    Seq::new(s.len(), |i: int| s[i]@)
}

/// The store of persisted records. At most one record exists per key at
/// any time; `store` enforces that invariant at write time and `fetch`
/// looks a record up by its key.
pub struct Url {
    records: Vec<model::url::Url>,
}

impl View for Url {
    type V = Map<Seq<char>, Seq<char>>;

    closed spec fn view(&self) -> Map<Seq<char>, Seq<char>> {
        map_of(views_of(self.records@))
    }
}

/// Relies on rand's `Alphanumeric` distribution: a sample is one byte drawn
/// uniformly from the 62-symbol alphanumeric alphabet.
#[verifier::external_body]
fn sample_alphanumeric() -> (r: u8)
    ensures
        is_alnum_byte(r),
{
    thread_rng().sample(Alphanumeric)
}

impl Url {
    /// The key spelled by a drawn sample of alphanumeric bytes: one
    /// character per byte. Deterministic, so a caller may supply any
    /// sample — in particular a fixed one in place of a random draw.
    pub fn key_from_sample(bytes: &Vec<u8>) -> (r: String)
        requires
            forall|j: int| 0 <= j < bytes@.len() ==> is_alnum_byte(#[trigger] bytes@[j]),
        ensures
            r@.len() == bytes@.len(),
            forall|i: int| 0 <= i < r@.len() ==> r@[i] == bytes@[i] as char,
            forall|i: int| 0 <= i < r@.len() ==> is_alnum_char(#[trigger] r@[i]),
    {
        proof {
            lemma_ascii_decode(bytes@);
        }
        match bytes_to_string(bytes.clone()) {
            Some(s) => s,
            None => unreached(),
        }
    }

    /// Produces a fresh candidate key: a string of exactly `LENGTH`
    /// characters, each drawn independently from the alphanumeric alphabet.
    /// No error conditions; collisions with keys already stored are caught
    /// by `store`, not here.
    pub fn random_key() -> (r: String)
        ensures
            r@.len() == LENGTH,
            forall|i: int| 0 <= i < r@.len() ==> is_alnum_char(#[trigger] r@[i]),
    {
        let mut bytes: Vec<u8> = Vec::new();
        let mut i: usize = 0;
        while i < LENGTH
            invariant
                i <= LENGTH,
                bytes@.len() == i,
                forall|j: int| 0 <= j < i ==> is_alnum_byte(#[trigger] bytes@[j]),
            decreases LENGTH - i,
        {
            bytes.push(sample_alphanumeric());
            i += 1;
        }
        Self::key_from_sample(&bytes)
    }

    /// The store's internal invariant: no two records share a key.
    pub closed spec fn inv(&self) -> bool {
        unique_keys(views_of(self.records@))
    }

    /// A fresh store holding no records.
    pub fn new() -> (r: Self)
        ensures
            r.inv(),
            r@ == Map::<Seq<char>, Seq<char>>::empty(),
    {
        let r = Url { records: Vec::new() };
        proof {
            assert(views_of(r.records@) =~= Seq::<UrlView>::empty());
        }
        r
    }

    /// Inserts `url` as a new record. Accepted exactly when its key is not
    /// yet taken; a collision is refused as `DuplicateKey` carrying the
    /// offending key, and leaves the store unchanged. No other error can
    /// arise here, and the store never panics on a failed operation.
    pub fn store(&mut self, url: &model::url::Url) -> (r: Result<(), Error>)
        requires
            old(self).inv(),
        ensures
            final(self).inv(),
            r matches Ok(()) <==> attempt(old(self)@, url@.key, url@.url).0,
            final(self)@ == attempt(old(self)@, url@.key, url@.url).1,
            r matches Err(e) ==> e matches Error::DuplicateKey { key } && key@ == url@.key,
    {
        let ghost old_views = views_of(old(self).records@);
        let n = self.records.len();
        let mut i: usize = 0;
        while i < n
            invariant
                n == self.records.len(),
                0 <= i <= n,
                self == old(self),
                old(self).inv(),
                forall|j: int| 0 <= j < i ==> views_of(self.records@)[j].key != url@.key,
            decreases n - i,
        {
            if str_eq(self.records[i].key(), url.key()) {
                proof {
                    assert(views_of(self.records@)[i as int].key == url@.key);
                    lemma_map_of_contains_key(views_of(self.records@), url@.key);
                }
                return Err(Error::DuplicateKey { key: url.key().to_owned() });
            }
            i += 1;
        }
        proof {
            lemma_map_of_contains_key(old_views, url@.key);
        }
        self.records.push(url.clone());
        proof {
            assert(views_of(self.records@) =~= old_views.push(url@));
            lemma_map_of_push(old_views, url@);
        }
        Ok(())
    }

    /// Looks up the unique record with the given key: the record when the
    /// key is present, absent otherwise. No side effects.
    pub fn fetch(&self, name: &str) -> (r: Option<model::url::Url>)
        requires
            self.inv(),
        ensures
            self@.dom().contains(name@) ==> (r matches Some(rec) && rec@.key == name@
                && rec@.url == self@[name@]),
            !self@.dom().contains(name@) ==> r is None,
    {
        let n = self.records.len();
        let mut i: usize = 0;
        while i < n
            invariant
                self.inv(),
                n == self.records.len(),
                0 <= i <= n,
                forall|j: int| 0 <= j < i ==> views_of(self.records@)[j].key != name@,
            decreases n - i,
        {
            if str_eq(self.records[i].key(), name) {
                proof {
                    assert(views_of(self.records@)[i as int].key == name@);
                    lemma_map_of_index(views_of(self.records@), i as int);
                }
                return Some(self.records[i].clone());
            }
            i += 1;
        }
        proof {
            lemma_map_of_contains_key(views_of(self.records@), name@);
        }
        None
    }
}

} // verus!
