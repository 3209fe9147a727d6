//! The `{total, recent}` counter, a commutative monoid under pointwise addition.
use vstd::prelude::*;
use crate::timestamp::{timestamp_spec, Instant};

verus! {

/// Records seen, and records whose timestamp lies after the cutoff.
#[derive(Clone, Copy, Debug, PartialEq, Eq, Structural)]
pub struct Counter {
    pub total: u64,
    pub recent: u64,
}

/// Pointwise sum of two `(total, recent)` pairs.
pub open spec fn plus(a: (nat, nat), b: (nat, nat)) -> (nat, nat) {
    (a.0 + b.0, a.1 + b.1)
}

/// The sum of a sequence of `(total, recent)` pairs, folded from the left.
pub open spec fn sum_counts(s: Seq<(nat, nat)>) -> (nat, nat)
    decreases s.len(),
{
    if s.len() == 0 {
        (0, 0)
    } else {
        plus(sum_counts(s.drop_last()), s.last())
    }
}

/// What one record adds: one to `total`, and one to `recent` when its timestamp
/// column is present, parses, and lies strictly after `cutoff`.
pub open spec fn row_count(field: Option<Seq<u8>>, cutoff: Instant) -> (nat, nat) {
    let recent: nat = match field {
        Some(f) => match timestamp_spec(f) {
            Ok(t) => if t.millis > cutoff.millis { 1 } else { 0 },
            Err(_) => 0,
        },
        None => 0,
    };
    (1, recent)
}

/// Whether the pointwise sum of `a` and `b` fits in a `Counter`.
pub open spec fn sum_fits(a: Counter, b: Counter) -> bool {
    a.total + b.total <= u64::MAX && a.recent + b.recent <= u64::MAX
}

impl Counter {
    pub open spec fn view(&self) -> (nat, nat) {
        (self.total as nat, self.recent as nat)
    }

    /// The empty counter, identity of `merge`.
    pub fn new() -> (r: Counter)
        ensures
            r@ == (0nat, 0nat),
    {
        Counter { total: 0, recent: 0 }
    }

    /// The pointwise sum of two counters.
    pub fn merge(self, other: Counter) -> (r: Counter)
        requires
            sum_fits(self, other),
        ensures
            r@ == plus(self@, other@),
    {
        Counter { total: self.total + other.total, recent: self.recent + other.recent }
    }

    /// The pointwise sum of two counters, or `None` when it does not fit.
    pub fn checked_merge(self, other: Counter) -> (r: Option<Counter>)
        ensures
            r.is_some() == sum_fits(self, other),
            r.is_some() ==> r.unwrap()@ == plus(self@, other@),
    {
        if self.total > u64::MAX - other.total || self.recent > u64::MAX - other.recent {
            None
        } else {
            Some(self.merge(other))
        }
    }

    /// Counts one record whose timestamp column holds `field`, if it has one.
    pub fn record(&mut self, field: Option<&[u8]>, cutoff: Instant)
        requires
            old(self).total < u64::MAX,
            old(self).recent <= old(self).total,
        ensures
            final(self)@ == plus(old(self)@, row_count(
                match field { Some(f) => Some(f@), None => None },
                cutoff,
            )),
            final(self).recent <= final(self).total,
    {
        self.total = self.total + 1;
        if let Some(bytes) = field {
            if let Ok(t) = crate::timestamp::parse_timestamp_bytes(bytes) {
                if t.is_after(&cutoff) {
                    self.recent = self.recent + 1;
                }
            }
        }
    }
}

/// Merging is associative.
pub proof fn lemma_merge_associative(a: (nat, nat), b: (nat, nat), c: (nat, nat))
    ensures
        plus(plus(a, b), c) == plus(a, plus(b, c)),
{
}

/// Merging is commutative.
pub proof fn lemma_merge_commutative(a: (nat, nat), b: (nat, nat))
    ensures
        plus(a, b) == plus(b, a),
{
}

/// The empty counter is the identity of merging.
pub proof fn lemma_merge_identity(a: (nat, nat))
    ensures
        plus(a, (0nat, 0nat)) == a,
        plus((0nat, 0nat), a) == a,
{
}

/// Summing two parts and merging the results gives the sum of the whole:
/// however the counters are split among workers, the reduction agrees.
pub proof fn lemma_sum_split(a: Seq<(nat, nat)>, b: Seq<(nat, nat)>)
    ensures
        sum_counts(a + b) == plus(sum_counts(a), sum_counts(b)),
    decreases b.len(),
{
    if b.len() == 0 {
        assert(a + b =~= a);
    } else {
        lemma_sum_split(a, b.drop_last());
        assert((a + b).drop_last() =~= a + b.drop_last());
    }
}

proof fn lemma_sum_pair(a: (nat, nat), b: (nat, nat))
    ensures
        sum_counts(seq![a, b]) == plus(a, b),
{
    let x = seq![a, b];
    let y = seq![a];
    assert(x.drop_last() =~= y);
    assert(y.drop_last() =~= Seq::<(nat, nat)>::empty());
    assert(sum_counts(y) == plus(sum_counts(y.drop_last()), y.last()));
    assert(sum_counts(x) == plus(sum_counts(x.drop_last()), x.last()));
}

/// Reordering two neighbouring counters leaves the sum unchanged; any order
/// of the counters is reached by such swaps.
pub proof fn lemma_sum_swap(s: Seq<(nat, nat)>, i: int)
    requires
        0 <= i,
        i + 1 < s.len(),
    ensures
        sum_counts(s.update(i, s[i + 1]).update(i + 1, s[i])) == sum_counts(s),
{
    let t = s.update(i, s[i + 1]).update(i + 1, s[i]);
    let pre = s.subrange(0, i);
    let post = s.subrange(i + 2, s.len() as int);
    assert(s =~= pre + seq![s[i], s[i + 1]] + post);
    assert(t =~= pre + seq![s[i + 1], s[i]] + post);
    lemma_sum_split(pre + seq![s[i], s[i + 1]], post);
    lemma_sum_split(pre + seq![s[i + 1], s[i]], post);
    lemma_sum_split(pre, seq![s[i], s[i + 1]]);
    lemma_sum_split(pre, seq![s[i + 1], s[i]]);
    lemma_sum_pair(s[i], s[i + 1]);
    lemma_sum_pair(s[i + 1], s[i]);
}

/// A record whose timestamp equals the cutoff is not recent.
pub proof fn lemma_cutoff_not_recent(field: Seq<u8>, cutoff: Instant)
    requires
        timestamp_spec(field) == Ok::<Instant, crate::timestamp::TimestampError>(cutoff),
    ensures
        row_count(Some(field), cutoff) == (1nat, 0nat),
{
}

/// A record whose timestamp does not parse counts toward `total` only.
pub proof fn lemma_malformed_not_recent(field: Seq<u8>, cutoff: Instant)
    requires
        timestamp_spec(field).is_err(),
    ensures
        row_count(Some(field), cutoff) == (1nat, 0nat),
{
}

} // verus!
