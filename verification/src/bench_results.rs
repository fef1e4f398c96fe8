use vstd::prelude::*;

verus! {

/// The most latencies that the statistics of a run are computed from.
pub const LATENCY_SAMPLE: usize = 10000;

/// The number of `true` values in `s`.
pub open spec fn count_true(s: Seq<bool>) -> nat
    decreases s.len(),
{
    if s.len() == 0 {
        0
    } else {
        count_true(s.drop_last()) + (if s.last() {
            1nat
        } else {
            0nat
        })
    }
}

/// A run never counts more successful requests than requests: its success
/// rate is at most one.
pub proof fn lemma_successes_at_most_requests(s: Seq<bool>)
    ensures
        count_true(s) <= s.len(),
    decreases s.len(),
{
    if s.len() > 0 {
        lemma_successes_at_most_requests(s.drop_last());
    }
}

/// Every outcome counts: adding an outcome to a run raises the count by one
/// when it is a success and leaves it when it is not, so a run of `n`
/// successes counts `n`.
pub proof fn lemma_success_count_step(s: Seq<bool>, outcome: bool, n: nat)
    ensures
        count_true(s.push(outcome)) == count_true(s) + (if outcome {
            1int
        } else {
            0int
        }),
        count_true(Seq::new(n, |i: int| true)) == n,
        count_true(Seq::new(n, |i: int| false)) == 0,
    decreases n,
{
    assert(s.push(outcome).drop_last() =~= s);
    if n > 0 {
        lemma_success_count_step(s, outcome, (n - 1) as nat);
        assert(Seq::new(n, |i: int| true).drop_last() =~= Seq::new((n - 1) as nat, |i: int| true));
        assert(Seq::new(n, |i: int| false).drop_last() =~= Seq::new((n - 1) as nat, |i: int| false));
    }
}

/// The number of successful requests among the outcomes of a run.
pub fn count_successes(successes: &Vec<bool>) -> (r: usize)
    ensures
        r == count_true(successes@),
{
    let mut n: usize = 0;
    for i in 0..successes.len()
        invariant
            n == count_true(successes@.take(i as int)),
            n <= i,
    {
        assert(successes@.take(i + 1).drop_last() =~= successes@.take(i as int));
        if successes[i] {
            n = n + 1;
        }
    }
    assert(successes@.take(successes@.len() as int) =~= successes@);
    n
}

/// The status code and success flag a request is recorded with: the status
/// of the answer and whether it is in the 2xx range, or 0 and failure when no
/// answer came.
pub fn request_status(answer: Option<u16>) -> (r: (u16, bool))
    ensures
        answer matches Some(s) ==> r == (s, 200 <= s && s < 300),
        answer is None ==> r == (0u16, false),
{
    match answer {
        Some(s) => (s, 200 <= s && s < 300),
        None => (0, false),
    }
}

/// The values of `s` are pairwise different and below `bound`.
pub open spec fn distinct_below(s: Seq<usize>, bound: nat) -> bool {
    &&& forall|i: int| 0 <= i < s.len() ==> (#[trigger] s[i]) < bound
    &&& forall|i: int, j: int|
        0 <= i < s.len() && 0 <= j < s.len() && i != j ==> (#[trigger] s[i]) != (#[trigger] s[j])
}

/// Calls `rand::seq::index::sample` with the thread-local generator: exactly
/// `amount` distinct indices below `length`, in an order chosen at random.
#[verifier::external_body]
fn random_indices(length: usize, amount: usize) -> (r: Vec<usize>)
    requires
        amount <= length,
    ensures
        r@.len() == amount,
        distinct_below(r@, length as nat),
{
    rand::seq::index::sample(&mut rand::thread_rng(), length, amount).into_vec()
}

/// The positions of the results whose latencies enter the statistics: all of
/// them, in order, when there are at most `LATENCY_SAMPLE`; otherwise
/// `LATENCY_SAMPLE` distinct positions drawn at random.
pub fn latency_sample_indices(count: usize) -> (r: Vec<usize>)
    ensures
        r@.len() == (if count <= LATENCY_SAMPLE {
            count
        } else {
            LATENCY_SAMPLE
        }),
        distinct_below(r@, count as nat),
        count <= LATENCY_SAMPLE ==> forall|i: int| 0 <= i < r@.len() ==> #[trigger] r@[i] == i,
{
    if count > LATENCY_SAMPLE {
        random_indices(count, LATENCY_SAMPLE)
    } else {
        let mut all: Vec<usize> = Vec::new();
        for i in 0..count
            invariant
                all@.len() == i,
                forall|k: int| 0 <= k < i ==> #[trigger] all@[k] == k,
        {
            all.push(i);
        }
        all
    }
}


/// The two neighbouring ranks, in a sorted list of `len` values, between
/// which the `percent`-th percentile lies: the floor and the ceiling of
/// `(len - 1) * percent / 100`.  Above 100 percent the ranks would fall
/// outside the list, except for a single value, where both are 0.
pub fn percentile_ranks(len: usize, percent: u32) -> (r: (usize, usize))
    requires
        len >= 1,
        percent <= 100 || len == 1,
        (len - 1) * percent <= usize::MAX,
    ensures
        r.0 == (len - 1) * percent / 100,
        r.1 == r.0 + (if ((len - 1) * percent) % 100 == 0 {
            0int
        } else {
            1int
        }),
        r.0 <= r.1 < len,
{
    let scaled = (len - 1) * (percent as usize);
    let lo = scaled / 100;
    let hi = if scaled % 100 == 0 {
        lo
    } else {
        lo + 1
    };
    if len == 1 {
        assert(scaled == 0) by (nonlinear_arith)
            requires
                len == 1,
                scaled == (len - 1) * percent,
        ;
    } else {
        assert(lo <= len - 1) by (nonlinear_arith)
            requires
                lo == scaled / 100,
                scaled == (len - 1) * percent,
                percent <= 100,
                len >= 1,
        ;
        assert(scaled % 100 != 0 ==> lo < len - 1) by (nonlinear_arith)
            requires
                lo == scaled / 100,
                scaled == (len - 1) * percent,
                percent <= 100,
                len >= 1,
        ;
    }
    (lo, hi)
}

} // verus!
