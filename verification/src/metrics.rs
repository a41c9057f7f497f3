//! The service's own metrics, modeled as exact counters: how many worker
//! threads serve, how many short URLs were created, a build-info flag, and
//! error totals by type. The embedding process exports these values to its
//! monitoring system; the arithmetic on them is owned and checked here.

use vstd::prelude::*;
use vstd::pervasive::VecAdditionalExecFns;

use crate::text::str_eq;

verus! {

/// The total recorded for `label` in a sequence of labeled counters.
pub open spec fn label_count(s: Seq<(String, u64)>, label: Seq<char>) -> nat
    decreases s.len(),
{
    if s.len() == 0 {
        0
    } else {
        (if s.last().0@ == label {
            s.last().1 as nat
        } else {
            0nat
        }) + label_count(s.drop_last(), label)
    }
}

/// No two counters in the sequence carry the same label.
pub open spec fn unique_labels(s: Seq<(String, u64)>) -> bool {
    forall|i: int, j: int| 0 <= i < j < s.len() ==> s[i].0@ != s[j].0@
}

/// A label no counter carries has a total of zero.
proof fn lemma_label_count_absent(s: Seq<(String, u64)>, label: Seq<char>)
    requires
        forall|i: int| 0 <= i < s.len() ==> s[i].0@ != label,
    ensures
        label_count(s, label) == 0,
    decreases s.len(),
{
    if s.len() == 0 {
    } else {
        assert forall|i: int| 0 <= i < s.drop_last().len() implies s.drop_last()[i].0@
            != label by {
            assert(s.drop_last()[i] == s[i]);
        }
        lemma_label_count_absent(s.drop_last(), label);
    }
}

/// Under unique labels, the counter at any index holds its label's total.
proof fn lemma_label_count_at(s: Seq<(String, u64)>, i: int)
    requires
        unique_labels(s),
        0 <= i < s.len(),
    ensures
        label_count(s, s[i].0@) == s[i].1,
    decreases s.len(),
{
    if i == s.len() - 1 {
        assert forall|j: int| 0 <= j < s.drop_last().len() implies s.drop_last()[j].0@
            != s[i].0@ by {
            assert(s.drop_last()[j] == s[j]);
        }
        lemma_label_count_absent(s.drop_last(), s[i].0@);
    } else {
        assert(s.drop_last()[i] == s[i]);
        lemma_label_count_at(s.drop_last(), i);
    }
}

/// Replacing the counter at one index moves every label's total by the
/// difference between the old and the new entry.
proof fn lemma_label_count_update(s: Seq<(String, u64)>, i: int, v: (String, u64), label: Seq<char>)
    requires
        0 <= i < s.len(),
    ensures
        label_count(s.update(i, v), label) + (if s[i].0@ == label {
            s[i].1 as nat
        } else {
            0nat
        }) == label_count(s, label) + (if v.0@ == label {
            v.1 as nat
        } else {
            0nat
        }),
    decreases s.len(),
{
    let s2 = s.update(i, v);
    if i == s.len() - 1 {
        assert(s2.drop_last() =~= s.drop_last());
        assert(s2.last() == v);
    } else {
        assert(s2.drop_last() =~= s.drop_last().update(i, v));
        assert(s2.last() == s.last());
        lemma_label_count_update(s.drop_last(), i, v, label);
        assert(s.drop_last()[i] == s[i]);
    }
}

/// The service's metric counters. All are exact integers; durations of
/// database operations are observed by the embedding process, which owns
/// the clock.
pub struct Metrics {
    /// Number of HTTP server worker threads.
    pub workers: u64,
    /// Total number of shortened URLs created.
    pub urls_created: u64,
    /// Build-information flag: one once the metrics are registered.
    pub app_info: u64,
    /// Total number of errors by type.
    pub errors: Vec<(String, u64)>,
}

/// Creates the metric family, all counters at zero and the build-info flag
/// set. Called once at startup.
pub fn register_metrics() -> (m: Metrics)
    ensures
        m.inv(),
        m.workers == 0,
        m.urls_created == 0,
        m.app_info == 1,
        forall|l: Seq<char>| label_count(m.errors@, l) == 0,
{
    Metrics { workers: 0, urls_created: 0, app_info: 1, errors: Vec::new() }
}

impl Metrics {
    /// The counters' internal invariant: one counter per error type.
    pub open spec fn inv(&self) -> bool {
        unique_labels(self.errors@)
    }

    /// Sets the worker-count gauge. Called at startup once the worker
    /// count is determined.
    pub fn set_workers(&mut self, count: usize)
        ensures
            final(self).workers == count as u64,
            final(self).urls_created == old(self).urls_created,
            final(self).app_info == old(self).app_info,
            final(self).errors == old(self).errors,
    {
        self.workers = count as u64;
    }

    /// Increments the URLs-created counter. Called after a record is
    /// successfully stored.
    pub fn inc_urls_created(&mut self)
        requires
            old(self).urls_created < u64::MAX,
        ensures
            final(self).urls_created == old(self).urls_created + 1,
            final(self).workers == old(self).workers,
            final(self).app_info == old(self).app_info,
            final(self).errors == old(self).errors,
    {
        self.urls_created = self.urls_created + 1;
    }

    /// Increments the error counter of one type by one and moves no other
    /// total.
    pub fn inc_error(&mut self, error_type: &str)
        requires
            old(self).inv(),
            label_count(old(self).errors@, error_type@) < u64::MAX,
        ensures
            final(self).inv(),
            label_count(final(self).errors@, error_type@) == label_count(
                old(self).errors@,
                error_type@,
            ) + 1,
            forall|l: Seq<char>| l != error_type@ ==> label_count(final(self).errors@, l)
                == label_count(old(self).errors@, l),
            final(self).workers == old(self).workers,
            final(self).urls_created == old(self).urls_created,
            final(self).app_info == old(self).app_info,
    {
        let ghost s = self.errors@;
        let n = self.errors.len();
        let mut i: usize = 0;
        while i < n
            invariant
                self == old(self),
                s == old(self).errors@,
                old(self).inv(),
                label_count(old(self).errors@, error_type@) < u64::MAX,
                n == self.errors.len(),
                0 <= i <= n,
                forall|j: int| 0 <= j < i ==> self.errors@[j].0@ != error_type@,
            decreases n - i,
        {
            if str_eq(self.errors[i].0.as_str(), error_type) {
                let label = self.errors[i].0.clone();
                let count = self.errors[i].1;
                proof {
                    lemma_label_count_at(s, i as int);
                }
                self.errors.set(i, (label, count + 1));
                proof {
                    let s2 = self.errors@;
                    assert forall|l: Seq<char>|
                        label_count(s2, l) + (if s[i as int].0@ == l {
                            s[i as int].1 as nat
                        } else {
                            0nat
                        }) == label_count(s, l) + (if s2[i as int].0@ == l {
                            (s[i as int].1 + 1) as nat
                        } else {
                            0nat
                        }) by {
                        lemma_label_count_update(s, i as int, s2[i as int], l);
                    }
                    assert forall|a: int, b: int| 0 <= a < b < s2.len() implies s2[a].0@
                        != s2[b].0@ by {
                        assert(s2[a].0@ == s[a].0@);
                        assert(s2[b].0@ == s[b].0@);
                    }
                }
                return ;
            }
            i += 1;
        }
        proof {
            lemma_label_count_absent(s, error_type@);
        }
        self.errors.push((error_type.to_owned(), 1));
        proof {
            let s2 = self.errors@;
            assert(s2.drop_last() =~= s);
            assert(s2.last().0@ == error_type@);
            assert forall|a: int, b: int| 0 <= a < b < s2.len() implies s2[a].0@ != s2[b].0@ by {
                if b < s2.len() - 1 {
                    assert(s2[a] == s[a]);
                    assert(s2[b] == s[b]);
                } else {
                    assert(s2[a] == s[a]);
                }
            }
        }
    }

    /// The total recorded for one error type.
    pub fn error_count(&self, error_type: &str) -> (r: u64)
        requires
            self.inv(),
        ensures
            r == label_count(self.errors@, error_type@),
    {
        let n = self.errors.len();
        let mut i: usize = 0;
        while i < n
            invariant
                self.inv(),
                n == self.errors.len(),
                0 <= i <= n,
                forall|j: int| 0 <= j < i ==> self.errors@[j].0@ != error_type@,
            decreases n - i,
        {
            if str_eq(self.errors[i].0.as_str(), error_type) {
                proof {
                    lemma_label_count_at(self.errors@, i as int);
                }
                return self.errors[i].1;
            }
            i += 1;
        }
        proof {
            lemma_label_count_absent(self.errors@, error_type@);
        }
        0
    }
}

} // verus!
