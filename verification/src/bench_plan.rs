use vstd::prelude::*;
use vstd::string::StringExecFns;

use crate::bench_config::BenchConfig;

verus! {

/// How the benchmark's HTTP client is to be built.
#[derive(Debug)]
pub struct ClientSettings {
    pub user_agent: String,
    pub pool_max_idle_per_host: usize,
    pub tcp_nodelay: bool,
    /// Timeout of a whole request, if any.
    pub timeout_secs: Option<u64>,
    /// How long an idle pooled connection is kept, if set.
    pub pool_idle_timeout_secs: Option<u64>,
    /// HTTP/2 keep-alive timeout, if set.
    pub http2_keep_alive_timeout_secs: Option<u64>,
}

/// The user agent the benchmark sends.
pub open spec fn benchmark_user_agent() -> Seq<char> {
    "rust-benchmark/0.1.0"@
}

/// The settings of the measuring client: idle connections per host are four
/// per unit of concurrency (none when keep-alive is off), requests time out
/// after 60 s, and with keep-alive idle and HTTP/2 keep-alive timeouts are
/// 300 s.
pub fn client_settings(config: &BenchConfig) -> (r: ClientSettings)
    requires
        config.no_keepalive || config.concurrency * 4 <= usize::MAX,
    ensures
        r.user_agent@ == benchmark_user_agent(),
        r.pool_max_idle_per_host == (if config.no_keepalive {
            0
        } else {
            config.concurrency * 4
        }),
        r.tcp_nodelay,
        r.timeout_secs == Some(60u64),
        r.pool_idle_timeout_secs == (if config.no_keepalive {
            None
        } else {
            Some(300u64)
        }),
        r.http2_keep_alive_timeout_secs == r.pool_idle_timeout_secs,
{
    let per_unit: usize = if config.no_keepalive {
        0
    } else {
        4
    };
    let keepalive: Option<u64> = if config.no_keepalive {
        None
    } else {
        Some(300)
    };
    ClientSettings {
        user_agent: String::from_str("rust-benchmark/0.1.0"),
        pool_max_idle_per_host: config.concurrency * per_unit,
        tcp_nodelay: true,
        timeout_secs: Some(60),
        pool_idle_timeout_secs: keepalive,
        http2_keep_alive_timeout_secs: keepalive,
    }
}

/// The settings of the warm-up client: one idle connection per unit of
/// concurrency, a 30 s idle timeout, no request timeout.
pub fn warmup_client_settings(config: &BenchConfig) -> (r: ClientSettings)
    ensures
        r.user_agent@ == benchmark_user_agent(),
        r.pool_max_idle_per_host == config.concurrency,
        r.tcp_nodelay,
        r.timeout_secs is None,
        r.pool_idle_timeout_secs == Some(30u64),
        r.http2_keep_alive_timeout_secs is None,
{
    ClientSettings {
        user_agent: String::from_str("rust-benchmark/0.1.0"),
        pool_max_idle_per_host: config.concurrency,
        tcp_nodelay: true,
        timeout_secs: None,
        pool_idle_timeout_secs: Some(30),
        http2_keep_alive_timeout_secs: None,
    }
}

/// One wave of warm-up requests sent to an endpoint.
#[derive(Debug)]
pub struct WarmupWave {
    /// Number of requests in the wave.
    pub requests: usize,
    /// Number of requests in flight at once.
    pub parallelism: usize,
}

/// The smaller of two numbers.
pub open spec fn min_of(a: int, b: int) -> int {
    if a <= b {
        a
    } else {
        b
    }
}

/// The warm-up of each endpoint: three waves of 100, 200 and 300 requests,
/// each with at most `concurrency` of them in flight.
pub fn warmup_waves(concurrency: usize) -> (r: Vec<WarmupWave>)
    ensures
        r@.len() == 3,
        forall|w: int|
            0 <= w < 3 ==> {
                &&& (#[trigger] r@[w]).requests == 100 * (w + 1)
                &&& r@[w].parallelism == min_of(100 * (w + 1), concurrency as int)
            },
{
    let mut waves: Vec<WarmupWave> = Vec::new();
    for wave in 0..3usize
        invariant
            waves@.len() == wave,
            forall|w: int|
                0 <= w < wave ==> {
                    &&& (#[trigger] waves@[w]).requests == 100 * (w + 1)
                    &&& waves@[w].parallelism == min_of(100 * (w + 1), concurrency as int)
                },
    {
        let requests = 100 * (wave + 1);
        let parallelism = if requests <= concurrency {
            requests
        } else {
            concurrency
        };
        waves.push(WarmupWave { requests, parallelism });
    }
    waves
}

/// Largest number of requests that one chunk of a batch sends at once.
pub const MAX_CHUNK: usize = 1000;

/// Number of chunks that a batch of `size` requests is split into.
pub open spec fn chunk_count(size: nat) -> nat {
    (size + 999) / 1000
}

/// Size of chunk `k` of a batch of `size` requests: full chunks of 1000, the
/// rest in the last one.
pub open spec fn chunk_size(size: nat, k: nat) -> int {
    min_of(1000, size - 1000 * k)
}

/// The sum of a sequence of sizes.
pub open spec fn total(s: Seq<usize>) -> nat
    decreases s.len(),
{
    if s.len() == 0 {
        0
    } else {
        total(s.drop_last()) + (s.last() as nat)
    }
}

proof fn lemma_chunk_bounds(size: nat, k: nat)
    requires
        k < chunk_count(size),
    ensures
        1000 * k < size,
        k + 1 == chunk_count(size) ==> size - 1000 * k <= 1000,
        k + 1 < chunk_count(size) ==> size - 1000 * k > 1000,
{
    assert(1000 * k < size) by (nonlinear_arith)
        requires
            k < (size + 999) / 1000,
    ;
    if k + 1 == chunk_count(size) {
        assert(size <= 1000 * (k + 1)) by (nonlinear_arith)
            requires
                k + 1 == (size + 999) / 1000,
        ;
    }
    if k + 1 < chunk_count(size) {
        assert(1000 * (k + 1) < size) by (nonlinear_arith)
            requires
                k + 1 < (size + 999) / 1000,
        ;
    }
}

/// Splits a batch of `size` requests into chunks of at most 1000.  The
/// chunks together hold exactly `size` requests.
pub fn batch_chunks(size: usize) -> (r: Vec<usize>)
    requires
        size + MAX_CHUNK <= usize::MAX,
    ensures
        r@.len() == chunk_count(size as nat),
        forall|k: int| 0 <= k < r@.len() ==> #[trigger] r@[k] == chunk_size(size as nat, k as nat),
        forall|k: int| 0 <= k < r@.len() ==> 0 < #[trigger] r@[k] <= MAX_CHUNK,
        total(r@) == size,
{
    let chunks = (size + MAX_CHUNK - 1) / MAX_CHUNK;
    let mut out: Vec<usize> = Vec::new();
    let mut done: usize = 0;
    for k in 0..chunks
        invariant
            chunks == chunk_count(size as nat),
            out@.len() == k,
            done == total(out@),
            k < chunks ==> done == 1000 * k,
            forall|j: int| 0 <= j < k ==> #[trigger] out@[j] == chunk_size(size as nat, j as nat),
            forall|j: int| 0 <= j < k ==> 0 < #[trigger] out@[j] <= MAX_CHUNK,
            k == chunks ==> done == size,
    {
        proof {
            lemma_chunk_bounds(size as nat, k as nat);
        }
        let left = size - done;
        let bs = if left < MAX_CHUNK {
            left
        } else {
            MAX_CHUNK
        };
        let ghost before = out@;
        out.push(bs);
        assert(out@.drop_last() =~= before);
        done = done + bs;
        if k + 1 < chunks {
            assert(bs == 1000);
        }
    }
    if chunks == 0 {
        assert(size == 0) by (nonlinear_arith)
            requires
                0 == (size + 999) / 1000,
        ;
    }
    out
}

/// The progress of the measuring loop over one endpoint.
#[derive(Debug)]
pub struct RunProgress {
    /// Requests sent so far.
    pub current: usize,
    /// Size of the next batch.
    pub batch_size: usize,
}

/// The batch size the loop starts with: the configured batch size, but no
/// more than the concurrency.
pub open spec fn initial_batch_size(config: BenchConfig) -> int {
    min_of(config.default_req_per_batch as int, config.concurrency as int)
}

/// The batch size used after `current` requests: past the first 1000
/// requests, as many as the concurrency allows; before that, the size the
/// loop started with.  Either way never more than the requests still to go,
/// since `requests` is the most that a run sends to an endpoint.
pub open spec fn planned_batch(p: RunProgress, config: BenchConfig) -> int {
    if p.current > 1000 {
        min_of(config.concurrency as int, config.requests - p.current)
    } else {
        min_of(p.batch_size as int, config.requests - p.current)
    }
}

impl RunProgress {
    /// The state before the first batch.
    pub fn start(config: &BenchConfig) -> (r: RunProgress)
        ensures
            r.current == 0,
            r.batch_size == initial_batch_size(*config),
    {
        let batch_size = if config.default_req_per_batch <= config.concurrency {
            config.default_req_per_batch
        } else {
            config.concurrency
        };
        RunProgress { current: 0, batch_size }
    }

    /// Whether another batch is sent: time is left and fewer requests than
    /// asked for have been sent.
    pub fn should_continue(&self, config: &BenchConfig, time_left: bool) -> (r: bool)
        ensures
            r == (time_left && self.current < config.requests),
    {
        time_left && self.current < config.requests
    }

    /// Fixes the size of the next batch and returns it.
    pub fn plan_batch(&mut self, config: &BenchConfig) -> (r: usize)
        requires
            old(self).current < config.requests,
        ensures
            r == planned_batch(*old(self), *config),
            final(self).batch_size == r,
            final(self).current == old(self).current,
    {
        let left = config.requests - self.current;
        let wanted = if self.current > 1000 {
            config.concurrency
        } else {
            self.batch_size
        };
        self.batch_size = if wanted <= left {
            wanted
        } else {
            left
        };
        self.batch_size
    }

    /// Counts the requests of a finished batch.
    pub fn record_batch(&mut self, completed: usize)
        requires
            old(self).current + completed <= usize::MAX,
        ensures
            final(self).current == old(self).current + completed,
            final(self).batch_size == old(self).batch_size,
    {
        self.current = self.current + completed;
    }
}

/// A run never sends more requests than asked for: while requests are left,
/// the next batch fits in what is left, so after recording it the count is
/// still at most `requests`.
pub proof fn lemma_run_never_overshoots(p: RunProgress, config: BenchConfig)
    requires
        p.current < config.requests,
    ensures
        0 <= planned_batch(p, config),
        p.current + planned_batch(p, config) <= config.requests,
{
}

/// Past the first 1000 requests, the next batch is as many requests as the
/// concurrency allows, or what is left if fewer: it does not depend on the
/// size of earlier batches.
pub proof fn lemma_batch_past_warm_start(p: RunProgress, config: BenchConfig, earlier: usize)
    requires
        1000 < p.current < config.requests,
    ensures
        config.requests - p.current >= config.concurrency ==> planned_batch(p, config)
            == config.concurrency,
        config.requests - p.current < config.concurrency ==> planned_batch(p, config)
            == config.requests - p.current,
        planned_batch(p, config) == planned_batch(
            RunProgress { current: p.current, batch_size: earlier },
            config,
        ),
{
}

/// Before that, the next batch is the size the run started with, cut down to
/// what is left; it never exceeds the concurrency.
pub proof fn lemma_batch_at_start(config: BenchConfig)
    requires
        0 < config.requests,
    ensures
        planned_batch(RunProgress { current: 0, batch_size: initial_batch_size(config) as usize }, config)
            <= config.concurrency,
        planned_batch(RunProgress { current: 0, batch_size: initial_batch_size(config) as usize }, config)
            <= config.default_req_per_batch,
        config.requests >= config.default_req_per_batch && config.concurrency
            >= config.default_req_per_batch ==> planned_batch(
            RunProgress { current: 0, batch_size: initial_batch_size(config) as usize },
            config,
        ) == config.default_req_per_batch,
{
}

/// How probing an endpoint went.
#[derive(Debug)]
pub enum ProbeOutcome {
    /// The endpoint answered with this status code.
    Status(u16),
    /// The request failed without an answer.
    Failed,
}

/// The status an endpoint is recorded with after probing, if it is kept:
/// an answer below 400 is kept, anything is kept when `force_all` is set, and
/// a failed request is then recorded as 0.
pub open spec fn probe_result(outcome: ProbeOutcome, force_all: bool) -> Option<u16> {
    match outcome {
        ProbeOutcome::Status(s) => if s < 400 || force_all {
            Some(s)
        } else {
            None
        },
        ProbeOutcome::Failed => if force_all {
            Some(0u16)
        } else {
            None
        },
    }
}

/// With `force_all` every endpoint that answered is kept with the status it
/// answered, and one that failed is kept with status 0; without it exactly
/// the answers below 400 are kept, with their status.
pub proof fn lemma_probe_rules(status: u16)
    ensures
        probe_result(ProbeOutcome::Status(status), true) == Some(status),
        probe_result(ProbeOutcome::Failed, true) == Some(0u16),
        probe_result(ProbeOutcome::Status(status), false) is Some <==> status < 400,
        probe_result(ProbeOutcome::Status(status), false) is Some ==> probe_result(
            ProbeOutcome::Status(status),
            false,
        ) == Some(status),
        probe_result(ProbeOutcome::Failed, false) is None,
{
}

/// Decides whether a probed endpoint is kept, and with which status.
pub fn probe_decision(outcome: &ProbeOutcome, force_all: bool) -> (r: Option<u16>)
    ensures
        r == probe_result(*outcome, force_all),
{
    match outcome {
        ProbeOutcome::Status(s) => if *s < 400 || force_all {
            Some(*s)
        } else {
            None
        },
        ProbeOutcome::Failed => if force_all {
            Some(0)
        } else {
            None
        },
    }
}

/// The map from endpoint to status that entries describe, later entries
/// overriding earlier ones.
pub open spec fn entries_map(s: Seq<(String, u16)>) -> Map<Seq<char>, u16>
    decreases s.len(),
{
    if s.len() == 0 {
        Map::empty()
    } else {
        entries_map(s.drop_last()).insert(s.last().0@, s.last().1)
    }
}

/// No two entries share a key.
pub open spec fn keys_distinct(s: Seq<(String, u16)>) -> bool {
    forall|i: int, j: int|
        0 <= i < s.len() && 0 <= j < s.len() && i != j ==> (#[trigger] s[i]).0@ != (
        #[trigger] s[j]).0@
}

proof fn lemma_entries_map(s: Seq<(String, u16)>)
    requires
        keys_distinct(s),
    ensures
        forall|k: Seq<char>|
            #[trigger] entries_map(s).contains_key(k) <==> exists|i: int|
                0 <= i < s.len() && (#[trigger] s[i]).0@ == k,
        forall|i: int| 0 <= i < s.len() ==> entries_map(s)[(#[trigger] s[i]).0@] == s[i].1,
    decreases s.len(),
{
    if s.len() > 0 {
        let t = s.drop_last();
        assert(keys_distinct(t));
        lemma_entries_map(t);
        assert forall|k: Seq<char>|
            #[trigger] entries_map(s).contains_key(k) <==> exists|i: int|
                0 <= i < s.len() && (#[trigger] s[i]).0@ == k by {
            if entries_map(s).contains_key(k) && k != s.last().0@ {
                assert(entries_map(t).contains_key(k));
                let i = choose|i: int| 0 <= i < t.len() && (#[trigger] t[i]).0@ == k;
                assert(s[i] == t[i]);
            }
            if exists|i: int| 0 <= i < s.len() && (#[trigger] s[i]).0@ == k {
                let i = choose|i: int| 0 <= i < s.len() && (#[trigger] s[i]).0@ == k;
                if i < s.len() - 1 {
                    assert(t[i] == s[i]);
                }
            }
        }
        assert forall|i: int| 0 <= i < s.len() implies entries_map(s)[(#[trigger] s[i]).0@]
            == s[i].1 by {
            if i < s.len() - 1 {
                assert(t[i] == s[i]);
                assert(s[i].0@ != s.last().0@);
            }
        }
    }
}

/// The status that a table view records for `endpoint`, if any.
pub open spec fn lookup(table: Map<Seq<char>, u16>, endpoint: Seq<char>) -> Option<u16> {
    if table.contains_key(endpoint) {
        Some(table[endpoint])
    } else {
        None
    }
}

/// Reading an endpoint back after recording it gives the status just
/// recorded, and recording one endpoint leaves what is read for every other
/// endpoint unchanged.
pub proof fn lemma_get_after_insert(
    before: Map<Seq<char>, u16>,
    endpoint: Seq<char>,
    status: u16,
    other: Seq<char>,
)
    ensures
        lookup(before.insert(endpoint, status), endpoint) == Some(status),
        other != endpoint ==> lookup(before.insert(endpoint, status), other) == lookup(
            before,
            other,
        ),
{
}

/// The endpoints found available, each with the status it answered with.
pub struct EndpointTable {
    entries: Vec<(String, u16)>,
}

impl View for EndpointTable {
    type V = Map<Seq<char>, u16>;

    closed spec fn view(&self) -> Map<Seq<char>, u16> {
        entries_map(self.entries@)
    }
}

impl EndpointTable {
    #[verifier::type_invariant]
    closed spec fn keys_are_distinct(self) -> bool {
        keys_distinct(self.entries@)
    }

    /// An empty table.
    pub fn new() -> (r: EndpointTable)
        ensures
            r@ == Map::<Seq<char>, u16>::empty(),
    {
        EndpointTable { entries: Vec::new() }
    }

    /// Records `endpoint` with `status`, replacing any earlier status.
    pub fn insert(&mut self, endpoint: String, status: u16)
        ensures
            final(self)@ == old(self)@.insert(endpoint@, status),
    {
        proof {
            use_type_invariant(&*self);
        }
        let ghost s = self.entries@;
        let mut found: Option<usize> = None;
        for i in 0..self.entries.len()
            invariant
                s == self.entries@,
                found matches Some(j) ==> j < i && s[j as int].0@ == endpoint@,
                found is None ==> forall|k: int| 0 <= k < i ==> (#[trigger] s[k]).0@ != endpoint@,
        {
            if found.is_none() && self.entries[i].0 == endpoint {
                found = Some(i);
            }
        }
        proof {
            lemma_entries_map(s);
        }
        let mut entries: Vec<(String, u16)> = Vec::new();
        std::mem::swap(&mut entries, &mut self.entries);
        assert(entries@ == s);
        match found {
            Some(j) => {
                entries.set(j, (endpoint, status));
                let ghost t = entries@;
                assert(keys_distinct(t)) by {
                    assert forall|a: int, b: int|
                        0 <= a < t.len() && 0 <= b < t.len() && a != b implies (#[trigger] t[a]).0@
                        != (#[trigger] t[b]).0@ by {
                        assert(t[a].0@ == s[a].0@);
                        assert(t[b].0@ == s[b].0@);
                    }
                }
                proof {
                    lemma_entries_map(t);
                    assert(entries_map(t) =~= entries_map(s).insert(endpoint@, status)) by {
                        assert forall|k: Seq<char>| #[trigger]
                            entries_map(t).contains_key(k) == entries_map(s).insert(
                                endpoint@,
                                status,
                            ).contains_key(k) by {
                            if entries_map(s).contains_key(k) {
                                let i = choose|i: int| 0 <= i < s.len() && (#[trigger] s[i]).0@ == k;
                                assert(t[i].0@ == k);
                            }
                            if entries_map(t).contains_key(k) {
                                let i = choose|i: int| 0 <= i < t.len() && (#[trigger] t[i]).0@ == k;
                                assert(s[i].0@ == k);
                            }
                            assert(t[j as int].0@ == endpoint@);
                        }
                        assert forall|k: Seq<char>| #[trigger]
                            entries_map(t).contains_key(k) implies entries_map(t)[k] == entries_map(
                                s,
                            ).insert(endpoint@, status)[k] by {
                            let i = choose|i: int| 0 <= i < t.len() && (#[trigger] t[i]).0@ == k;
                            if i != j {
                                assert(s[i] == t[i]);
                            }
                        }
                    }
                }
            },
            None => {
                entries.push((endpoint, status));
                let ghost t = entries@;
                assert(t.drop_last() =~= s);
                assert(keys_distinct(t)) by {
                    assert forall|a: int, b: int|
                        0 <= a < t.len() && 0 <= b < t.len() && a != b implies (#[trigger] t[a]).0@
                        != (#[trigger] t[b]).0@ by {
                        if a < s.len() {
                            assert(t[a] == s[a]);
                        }
                        if b < s.len() {
                            assert(t[b] == s[b]);
                        }
                    }
                }
            },
        }
        self.entries = entries;
    }

    /// The status recorded for `endpoint`, if any.
    pub fn get(&self, endpoint: &str) -> (r: Option<u16>)
        ensures
            r == lookup(self@, endpoint@),
    {
        proof {
            use_type_invariant(self);
            lemma_entries_map(self.entries@);
        }
        let key = String::from_str(endpoint);
        for i in 0..self.entries.len()
            invariant
                key@ == endpoint@,
                forall|k: int| 0 <= k < i ==> (#[trigger] self.entries@[k]).0@ != endpoint@,
        {
            if self.entries[i].0 == key {
                proof {
                    use_type_invariant(self);
                    lemma_entries_map(self.entries@);
                    assert(self.entries@[i as int].0@ == endpoint@);
                }
                return Some(self.entries[i].1);
            }
        }
        None
    }

    /// Whether no endpoint is recorded.
    pub fn is_empty(&self) -> (r: bool)
        ensures
            r == (self@ =~= Map::<Seq<char>, u16>::empty()),
    {
        proof {
            use_type_invariant(self);
            lemma_entries_map(self.entries@);
            if self.entries@.len() > 0 {
                assert(self@.contains_key(self.entries@[0].0@));
            }
        }
        self.entries.len() == 0
    }
}

/// Probe `j` keeps its endpoint.
pub open spec fn kept(outcomes: Seq<ProbeOutcome>, force_all: bool, j: int) -> bool {
    probe_result(outcomes[j], force_all) is Some
}

/// `table` records exactly the endpoints whose probe, among the first `n`,
/// kept them: an answer below 400, or anything when `force_all` is set.  Each
/// is recorded with the status of its last probe that kept it.
pub open spec fn availability_of(
    table: Map<Seq<char>, u16>,
    endpoints: Seq<String>,
    outcomes: Seq<ProbeOutcome>,
    force_all: bool,
    n: int,
) -> bool {
    &&& forall|k: Seq<char>|
        #[trigger] table.contains_key(k) <==> exists|j: int|
            0 <= j < n && kept(outcomes, force_all, j) && (#[trigger] endpoints[j])@ == k
    &&& forall|k: Seq<char>|
        #[trigger] table.contains_key(k) ==> exists|j: int|
            0 <= j < n && (#[trigger] endpoints[j])@ == k && probe_result(outcomes[j], force_all)
                == Some(table[k]) && forall|m: int|
                j < m < n && (#[trigger] endpoints[m])@ == k ==> !kept(outcomes, force_all, m)
}

/// With `force_all`, every probed endpoint is available; without it, an
/// endpoint is available exactly when one of its probes answered below 400.
pub proof fn lemma_availability_keys(
    table: Map<Seq<char>, u16>,
    endpoints: Seq<String>,
    outcomes: Seq<ProbeOutcome>,
    force_all: bool,
    n: int,
)
    requires
        availability_of(table, endpoints, outcomes, force_all, n),
        0 <= n <= endpoints.len(),
        n <= outcomes.len(),
    ensures
        force_all ==> forall|j: int| 0 <= j < n ==> table.contains_key(#[trigger] endpoints[j]@),
        !force_all ==> forall|k: Seq<char>|
            #[trigger] table.contains_key(k) <==> exists|j: int|
                0 <= j < n && (#[trigger] endpoints[j])@ == k && (outcomes[j] matches ProbeOutcome::Status(s) && s < 400),
{
    if force_all {
        assert forall|j: int| 0 <= j < n implies table.contains_key(#[trigger] endpoints[j]@) by {
            assert(kept(outcomes, force_all, j));
        }
    } else {
        assert forall|k: Seq<char>|
            #[trigger] table.contains_key(k) <==> exists|j: int|
                0 <= j < n && (#[trigger] endpoints[j])@ == k && (outcomes[j] matches ProbeOutcome::Status(s) && s < 400) by {
            if table.contains_key(k) {
                let j = choose|j: int|
                    0 <= j < n && kept(outcomes, force_all, j) && (#[trigger] endpoints[j])@ == k;
                assert(0 <= j < n && endpoints[j]@ == k && (outcomes[j] matches ProbeOutcome::Status(s) && s < 400));
            }
            if exists|j: int|
                0 <= j < n && (#[trigger] endpoints[j])@ == k && (outcomes[j] matches ProbeOutcome::Status(s) && s < 400) {
                let j = choose|j: int|
                    0 <= j < n && (#[trigger] endpoints[j])@ == k && (outcomes[j] matches ProbeOutcome::Status(s) && s < 400);
                assert(kept(outcomes, force_all, j));
            }
        }
    }
}

/// Collects the endpoints that remain available after probing each of them.
pub fn available_endpoints(
    endpoints: &Vec<String>,
    outcomes: &Vec<ProbeOutcome>,
    force_all: bool,
) -> (r: EndpointTable)
    requires
        endpoints@.len() == outcomes@.len(),
    ensures
        availability_of(r@, endpoints@, outcomes@, force_all, endpoints@.len() as int),
{
    let mut table = EndpointTable::new();
    let ghost es = endpoints@;
    let ghost os = outcomes@;
    for i in 0..endpoints.len()
        invariant
            es == endpoints@,
            os == outcomes@,
            endpoints@.len() == outcomes@.len(),
            availability_of(table@, es, os, force_all, i as int),
    {
        let ghost before = table@;
        let decision = probe_decision(&outcomes[i], force_all);
        match decision {
            Some(s) => {
                table.insert(endpoints[i].clone(), s);
                proof {
                    let key = es[i as int]@;
                    let after = table@;
                    assert(after == before.insert(key, s));
                    assert forall|k: Seq<char>| #[trigger] after.contains_key(k) <==> exists|j: int|
                        0 <= j < i + 1 && kept(os, force_all, j) && (#[trigger] es[j])@ == k by {
                        if k != key {
                            if after.contains_key(k) {
                                assert(before.contains_key(k));
                                let j = choose|j: int|
                                    0 <= j < i && kept(os, force_all, j) && (#[trigger] es[j])@ == k;
                                assert(0 <= j < i + 1 && kept(os, force_all, j) && es[j]@ == k);
                            }
                            if exists|j: int|
                                0 <= j < i + 1 && kept(os, force_all, j) && (#[trigger] es[j])@ == k {
                                let j = choose|j: int|
                                    0 <= j < i + 1 && kept(os, force_all, j) && (#[trigger] es[j])@
                                        == k;
                                assert(j != i);
                                assert(before.contains_key(k));
                            }
                        } else {
                            assert(0 <= i < i + 1 && kept(os, force_all, i as int) && es[i as int]@
                                == k);
                        }
                    }
                    assert forall|k: Seq<char>| #[trigger] after.contains_key(k) implies exists|j: int|
                        0 <= j < i + 1 && (#[trigger] es[j])@ == k && probe_result(os[j], force_all)
                            == Some(after[k]) && forall|m: int|
                            j < m < i + 1 && (#[trigger] es[m])@ == k ==> !kept(os, force_all, m) by {
                        if k == key {
                            assert(es[i as int]@ == k && probe_result(os[i as int], force_all) == Some(
                                after[k],
                            ));
                        } else {
                            assert(before.contains_key(k));
                            let j = choose|j: int|
                                0 <= j < i && (#[trigger] es[j])@ == k && probe_result(os[j], force_all)
                                    == Some(before[k]) && forall|m: int|
                                    j < m < i && (#[trigger] es[m])@ == k ==> !kept(os, force_all, m);
                            assert forall|m: int| j < m < i + 1 && (#[trigger] es[m])@ == k implies !kept(
                                os,
                                force_all,
                                m,
                            ) by {
                                if m == i {
                                    assert(es[m]@ == key);
                                }
                            }
                        }
                    }
                }
            },
            None => {
                proof {
                    assert(!kept(os, force_all, i as int));
                    assert forall|k: Seq<char>| #[trigger] before.contains_key(k) <==> exists|j: int|
                        0 <= j < i + 1 && kept(os, force_all, j) && (#[trigger] es[j])@ == k by {
                        if before.contains_key(k) {
                            let j = choose|j: int|
                                0 <= j < i && kept(os, force_all, j) && (#[trigger] es[j])@ == k;
                            assert(0 <= j < i + 1 && kept(os, force_all, j) && es[j]@ == k);
                        }
                        if exists|j: int|
                            0 <= j < i + 1 && kept(os, force_all, j) && (#[trigger] es[j])@ == k {
                            let j = choose|j: int|
                                0 <= j < i + 1 && kept(os, force_all, j) && (#[trigger] es[j])@ == k;
                            assert(j != i);
                            assert(0 <= j < i && kept(os, force_all, j) && es[j]@ == k);
                        }
                    }
                    assert forall|k: Seq<char>| #[trigger] before.contains_key(k) implies exists|j: int|
                        0 <= j < i + 1 && (#[trigger] es[j])@ == k && probe_result(os[j], force_all)
                            == Some(before[k]) && forall|m: int|
                            j < m < i + 1 && (#[trigger] es[m])@ == k ==> !kept(os, force_all, m) by {
                        let j = choose|j: int|
                            0 <= j < i && (#[trigger] es[j])@ == k && probe_result(os[j], force_all)
                                == Some(before[k]) && forall|m: int|
                                j < m < i && (#[trigger] es[m])@ == k ==> !kept(os, force_all, m);
                        assert(j < i + 1);
                    }
                }
            },
        }
    }
    table
}

} // verus!
