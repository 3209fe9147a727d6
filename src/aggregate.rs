//! Reducing the counters of many files into one.
use vstd::prelude::*;
use crate::counter::{lemma_sum_split, lemma_sum_swap, sum_counts, Counter};
use crate::records::CountError;

verus! {

/// Why a run over many files produced no counter.
#[derive(Clone, Copy, Debug, PartialEq, Eq, Structural)]
pub enum RunError {
    /// The file at `index` could not be counted.
    File { index: usize, error: CountError },
    /// The combined counts do not fit in a counter.
    Overflow,
}

/// The counters of the files, with a failed file standing as the empty counter.
pub open spec fn result_views(results: Seq<Result<Counter, CountError>>) -> Seq<(nat, nat)> {
    results.map_values(|x: Result<Counter, CountError>| match x {
        Ok(c) => c@,
        Err(_) => (0nat, 0nat),
    })
}

pub open spec fn all_ok(results: Seq<Result<Counter, CountError>>) -> bool {
    forall|i: int| 0 <= i < results.len() ==> (#[trigger] results[i]).is_ok()
}

pub open spec fn fits_counter(p: (nat, nat)) -> bool {
    p.0 <= u64::MAX && p.1 <= u64::MAX
}

/// The outcome of a run whose files gave `results`, in the order of the input list:
/// the error of the first file that failed; else the sum of all counters when it fits.
pub open spec fn aggregate_spec(results: Seq<Result<Counter, CountError>>) -> Result<(nat, nat), RunError> {
    if !all_ok(results) {
        let i = choose|i: int| 0 <= i < results.len() && results[i].is_err()
            && forall|j: int| 0 <= j < i ==> (#[trigger] results[j]).is_ok();
        Err(RunError::File { index: i as usize, error: results[i]->Err_0 })
    } else if !fits_counter(sum_counts(result_views(results))) {
        Err(RunError::Overflow)
    } else {
        Ok(sum_counts(result_views(results)))
    }
}

/// Combines the per-file results of a run into one counter: the run fails with the
/// first file that failed, and otherwise yields the pointwise sum of all counters.
pub fn aggregate(results: &Vec<Result<Counter, CountError>>) -> (r: Result<Counter, RunError>)
    ensures
        (match r {
            Ok(c) => aggregate_spec(results@) == Ok::<(nat, nat), RunError>(c@),
            Err(e) => aggregate_spec(results@) == Err::<(nat, nat), RunError>(e),
        }),
{
    let mut i: usize = 0;
    while i < results.len()
        invariant
            i <= results@.len(),
            forall|j: int| 0 <= j < i ==> (#[trigger] results@[j]).is_ok(),
        decreases results@.len() - i,
    {
        match &results[i] {
            Ok(_) => {},
            Err(e) => {
                let error = *e;
                assert(results@[i as int].is_err() && forall|j: int| 0 <= j < i ==> (#[trigger] results@[j]).is_ok());
                return Err(RunError::File { index: i, error });
            },
        }
        i = i + 1;
    }
    let ghost views = result_views(results@);
    let mut acc = Counter::new();
    let mut k: usize = 0;
    while k < results.len()
        invariant
            k <= results@.len(),
            views == result_views(results@),
            all_ok(results@),
            acc@ == sum_counts(views.take(k as int)),
        decreases results@.len() - k,
    {
        assert(views.take(k + 1).drop_last() =~= views.take(k as int));
        let c = match &results[k] {
            Ok(c) => *c,
            Err(_) => Counter::new(),
        };
        match acc.checked_merge(c) {
            Some(next) => {
                acc = next;
            },
            None => {
                proof {
                    assert(views =~= views.take(k + 1) + views.skip(k + 1));
                    lemma_sum_split(views.take(k + 1), views.skip(k + 1));
                }
                return Err(RunError::Overflow);
            },
        }
        k = k + 1;
    }
    assert(views.take(k as int) =~= views);
    Ok(acc)
}

/// When every file was counted, the order in which the results arrive does not
/// change the outcome: exchanging two neighbouring results leaves it as it was.
pub proof fn lemma_aggregate_order_free(results: Seq<Result<Counter, CountError>>, i: int)
    requires
        all_ok(results),
        0 <= i,
        i + 1 < results.len(),
    ensures
        aggregate_spec(results.update(i, results[i + 1]).update(i + 1, results[i]))
            == aggregate_spec(results),
{
    let swapped = results.update(i, results[i + 1]).update(i + 1, results[i]);
    let v = result_views(results);
    assert(result_views(swapped) =~= v.update(i, v[i + 1]).update(i + 1, v[i]));
    lemma_sum_swap(v, i);
    assert(all_ok(swapped)) by {
        assert forall|j: int| 0 <= j < swapped.len() implies (#[trigger] swapped[j]).is_ok() by {
            if j == i {
                assert(results[i + 1].is_ok());
            } else if j == i + 1 {
                assert(results[i].is_ok());
            } else {
                assert(results[j].is_ok());
            }
        }
    }
}

} // verus!
