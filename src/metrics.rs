use vstd::prelude::*;

verus! {

/// Call statistics of one API endpoint. Counters saturate at their maximum.
#[derive(Clone, Copy, Debug, PartialEq, Eq, Structural)]
pub struct ApiMetric {
    pub request_count: usize,
    /// Sum of the response times, in milliseconds.
    pub total_response_time_ms: u64,
    pub min_response_time_ms: u64,
    pub max_response_time_ms: u64,
    pub error_count: usize,
}

/// The statistics of an endpoint that has not been called yet.
pub open spec fn fresh_metric() -> ApiMetric {
    ApiMetric {
        request_count: 0,
        total_response_time_ms: 0,
        min_response_time_ms: u64::MAX,
        max_response_time_ms: 0,
        error_count: 0,
    }
}

pub open spec fn sat_add_usize(a: usize, b: usize) -> usize {
    if a + b > usize::MAX {
        usize::MAX
    } else {
        (a + b) as usize
    }
}

pub open spec fn sat_add_u64(a: u64, b: u64) -> u64 {
    if a + b > u64::MAX {
        u64::MAX
    } else {
        (a + b) as u64
    }
}

/// Milliseconds from `start_ms` to `now_ms`, or zero if the clock reading
/// `now_ms` is the earlier one.
pub open spec fn elapsed_ms(start_ms: u64, now_ms: u64) -> u64 {
    if now_ms >= start_ms {
        (now_ms - start_ms) as u64
    } else {
        0
    }
}

/// The statistics `m` after one more call that took `elapsed` milliseconds
/// and succeeded or not.
pub open spec fn with_call(m: ApiMetric, elapsed: u64, success: bool) -> ApiMetric {
    ApiMetric {
        request_count: sat_add_usize(m.request_count, 1),
        total_response_time_ms: sat_add_u64(m.total_response_time_ms, elapsed),
        min_response_time_ms: if elapsed < m.min_response_time_ms {
            elapsed
        } else {
            m.min_response_time_ms
        },
        max_response_time_ms: if elapsed > m.max_response_time_ms {
            elapsed
        } else {
            m.max_response_time_ms
        },
        error_count: if success {
            m.error_count
        } else {
            sat_add_usize(m.error_count, 1)
        },
    }
}

impl Default for ApiMetric {
    fn default() -> (r: ApiMetric)
        ensures
            r == fresh_metric(),
    {
        ApiMetric {
            request_count: 0,
            total_response_time_ms: 0,
            min_response_time_ms: u64::MAX,
            max_response_time_ms: 0,
            error_count: 0,
        }
    }
}

impl ApiMetric {
    /// Accounts for one more call.
    pub fn record(&mut self, elapsed: u64, success: bool)
        ensures
            *final(self) == with_call(*old(self), elapsed, success),
    {
        self.request_count = self.request_count.saturating_add(1);
        self.total_response_time_ms = self.total_response_time_ms.saturating_add(elapsed);
        if elapsed < self.min_response_time_ms {
            self.min_response_time_ms = elapsed;
        }
        if elapsed > self.max_response_time_ms {
            self.max_response_time_ms = elapsed;
        }
        if !success {
            self.error_count = self.error_count.saturating_add(1);
        }
    }
}

struct MetricEntry {
    endpoint: String,
    metric: ApiMetric,
}

/// The metrics of each endpoint that has been called, in the order of
/// their first call.
struct MetricTable {
    entries: Vec<MetricEntry>,
    model: Ghost<Map<Seq<char>, ApiMetric>>,
}

/// The statistics of the API: open connections and per-endpoint call
/// metrics.
pub struct ApiStats {
    active_connections: usize,
    table: MetricTable,
}

impl ApiStats {
    pub closed spec fn connections(&self) -> usize {
        self.active_connections
    }

    /// The metrics of each endpoint that has been called.
    pub closed spec fn metrics(&self) -> Map<Seq<char>, ApiMetric> {
        self.table.model@
    }

    /// The metrics of `endpoint`, fresh ones if it has never been called.
    pub open spec fn metric_of(&self, endpoint: Seq<char>) -> ApiMetric {
        if self.metrics().contains_key(endpoint) {
            self.metrics()[endpoint]
        } else {
            fresh_metric()
        }
    }

    pub closed spec fn wf(&self) -> bool {
        self.table.wf()
    }

    pub fn new() -> (r: ApiStats)
        ensures
            r.wf(),
            r.connections() == 0,
            r.metrics() == Map::<Seq<char>, ApiMetric>::empty(),
    {
        ApiStats {
            active_connections: 0,
            table: MetricTable { entries: Vec::new(), model: Ghost(Map::empty()) },
        }
    }
}

impl MetricTable {
    spec fn metric_of(&self, endpoint: Seq<char>) -> ApiMetric {
        if self.model@.contains_key(endpoint) {
            self.model@[endpoint]
        } else {
            fresh_metric()
        }
    }

    spec fn key_at(&self, i: int) -> Seq<char> {
        self.entries@[i].endpoint@
    }

    spec fn wf(&self) -> bool {
        &&& forall|i: int, j: int|
            0 <= i < j < self.entries@.len() ==> self.key_at(i) != self.key_at(j)
        &&& forall|i: int|
            0 <= i < self.entries@.len() ==> {
                &&& self.model@.contains_key(#[trigger] self.key_at(i))
                &&& self.model@[self.key_at(i)] == self.entries@[i].metric
            }
        &&& forall|k: Seq<char>| #[trigger]
            self.model@.contains_key(k) ==> exists|i: int|
                0 <= i < self.entries@.len() && self.key_at(i) == k
    }

    fn position(&self, endpoint: &String) -> (r: Option<usize>)
        requires
            self.wf(),
        ensures
            match r {
                Some(i) => i < self.entries@.len() && self.key_at(i as int) == endpoint@,
                None => !self.model@.contains_key(endpoint@),
            },
    {
        let mut i: usize = 0;
        while i < self.entries.len()
            invariant
                self.wf(),
                i <= self.entries@.len(),
                forall|j: int| 0 <= j < i ==> self.key_at(j) != endpoint@,
            decreases self.entries@.len() - i,
        {
            if self.entries[i].endpoint == *endpoint {
                return Some(i);
            }
            i = i + 1;
        }
        None
    }

    /// Accounts for one call of `endpoint`.
    fn record(&mut self, endpoint: &String, elapsed: u64, success: bool)
        requires
            old(self).wf(),
        ensures
            final(self).wf(),
            final(self).model@ == old(self).model@.insert(
                endpoint@,
                with_call(old(self).metric_of(endpoint@), elapsed, success),
            ),
    {
        let ghost new_model = self.model@.insert(
            endpoint@,
            with_call(self.metric_of(endpoint@), elapsed, success),
        );
        match self.position(endpoint) {
            Some(i) => {
                let mut m = self.entries[i].metric;
                m.record(elapsed, success);
                self.entries[i] = MetricEntry { endpoint: endpoint.clone(), metric: m };
                self.model = Ghost(new_model);
                assert(self.key_at(i as int) == old(self).key_at(i as int));
                assert forall|a: int, b: int| 0 <= a < b < self.entries@.len() implies self.key_at(
                    a,
                ) != self.key_at(b) by {
                    assert(old(self).key_at(a) != old(self).key_at(b));
                }
                assert forall|a: int| 0 <= a < self.entries@.len() implies {
                    &&& self.model@.contains_key(#[trigger] self.key_at(a))
                    &&& self.model@[self.key_at(a)] == self.entries@[a].metric
                } by {
                    if a != i {
                        assert(old(self).key_at(a) != old(self).key_at(i as int));
                        assert(old(self).model@.contains_key(old(self).key_at(a)));
                    }
                }
                assert forall|k: Seq<char>| #[trigger] self.model@.contains_key(k) implies exists|
                    j: int,
                | 0 <= j < self.entries@.len() && self.key_at(j) == k by {
                    if k != endpoint@ {
                        let j = choose|j: int|
                            0 <= j < old(self).entries@.len() && old(self).key_at(j) == k;
                        assert(self.key_at(j) == k);
                    } else {
                        assert(self.key_at(i as int) == k);
                    }
                }
            },
            None => {
                let mut m = ApiMetric::default();
                m.record(elapsed, success);
                self.entries.push(MetricEntry { endpoint: endpoint.clone(), metric: m });
                self.model = Ghost(new_model);
                let ghost last = self.entries@.len() - 1;
                assert forall|a: int, b: int| 0 <= a < b < self.entries@.len() implies self.key_at(
                    a,
                ) != self.key_at(b) by {
                    if b < last {
                        assert(old(self).key_at(a) != old(self).key_at(b));
                    } else {
                        assert(self.key_at(b) == endpoint@);
                        assert(old(self).model@.contains_key(old(self).key_at(a)));
                    }
                }
                assert forall|a: int| 0 <= a < self.entries@.len() implies {
                    &&& self.model@.contains_key(#[trigger] self.key_at(a))
                    &&& self.model@[self.key_at(a)] == self.entries@[a].metric
                } by {
                    if a != last {
                        assert(old(self).model@.contains_key(old(self).key_at(a)));
                    }
                }
                assert forall|k: Seq<char>| #[trigger] self.model@.contains_key(k) implies exists|
                    j: int,
                | 0 <= j < self.entries@.len() && self.key_at(j) == k by {
                    if k != endpoint@ {
                        let j = choose|j: int|
                            0 <= j < old(self).entries@.len() && old(self).key_at(j) == k;
                        assert(self.key_at(j) == k);
                    } else {
                        assert(self.key_at(last) == k);
                    }
                }
            },
        }
    }
}

/// Counts one more open connection (saturating).
pub fn increment_connection_count(stats: &mut ApiStats)
    requires
        old(stats).wf(),
    ensures
        final(stats).wf(),
        final(stats).connections() == sat_add_usize(old(stats).connections(), 1),
        final(stats).metrics() == old(stats).metrics(),
{
    stats.active_connections = stats.active_connections.saturating_add(1);
}

/// Counts one connection fewer; the count does not go below zero.
pub fn decrement_connection_count(stats: &mut ApiStats)
    requires
        old(stats).wf(),
    ensures
        final(stats).wf(),
        final(stats).connections() == (if old(stats).connections() == 0 {
            0
        } else {
            old(stats).connections() - 1
        }),
        final(stats).metrics() == old(stats).metrics(),
{
    stats.active_connections = stats.active_connections.saturating_sub(1);
}

pub fn get_connection_count(stats: &ApiStats) -> (r: usize)
    ensures
        r == stats.connections(),
{
    stats.active_connections
}

/// Accounts for one call of `endpoint` that started at clock reading
/// `start_ms` and ended at `now_ms`.
pub fn record_api_metric(stats: &mut ApiStats, endpoint: &str, start_ms: u64, now_ms: u64, success: bool)
    requires
        old(stats).wf(),
    ensures
        final(stats).wf(),
        final(stats).connections() == old(stats).connections(),
        final(stats).metrics() == old(stats).metrics().insert(
            endpoint@,
            with_call(old(stats).metric_of(endpoint@), elapsed_ms(start_ms, now_ms), success),
        ),
{
    let elapsed = now_ms.saturating_sub(start_ms);
    let key = endpoint.to_owned();
    stats.table.record(&key, elapsed, success);
}

/// A snapshot of the metrics of every endpoint that has been called, in the
/// order of their first call.
pub fn get_api_metrics(stats: &ApiStats) -> (r: Vec<(String, ApiMetric)>)
    requires
        stats.wf(),
    ensures
        r@.len() == stats.metrics().dom().len(),
        forall|i: int|
            0 <= i < r@.len() ==> stats.metrics().contains_key(#[trigger] r@[i].0@)
                && stats.metrics()[r@[i].0@] == r@[i].1,
        forall|k: Seq<char>| #[trigger]
            stats.metrics().contains_key(k) ==> exists|i: int| 0 <= i < r@.len() && r@[i].0@ == k,
        forall|i: int, j: int| 0 <= i < j < r@.len() ==> r@[i].0@ != r@[j].0@,
{
    let mut out: Vec<(String, ApiMetric)> = Vec::new();
    let mut i: usize = 0;
    while i < stats.table.entries.len()
        invariant
            stats.table.wf(),
            i <= stats.table.entries@.len(),
            out@.len() == i,
            forall|j: int|
                0 <= j < i ==> #[trigger] out@[j].0@ == stats.table.key_at(j) && out@[j].1
                    == stats.table.entries@[j].metric,
        decreases stats.table.entries@.len() - i,
    {
        let e = &stats.table.entries[i];
        out.push((e.endpoint.clone(), e.metric));
        i = i + 1;
    }
    proof {
        let keys = Seq::new(out@.len(), |j: int| out@[j].0@);
        assert(keys.no_duplicates()) by {
            assert forall|a: int, b: int| 0 <= a < keys.len() && 0 <= b < keys.len() && a != b implies keys[a] != keys[b] by {
                if a < b {
                    assert(stats.table.key_at(a) != stats.table.key_at(b));
                } else {
                    assert(stats.table.key_at(b) != stats.table.key_at(a));
                }
            }
        }
        assert(keys.to_set() =~= stats.metrics().dom()) by {
            assert forall|k: Seq<char>| keys.to_set().contains(k) <==> stats.metrics().dom().contains(k) by {
                if stats.metrics().contains_key(k) {
                    let j = choose|j: int| 0 <= j < stats.table.entries@.len() && stats.table.key_at(j) == k;
                    assert(keys[j] == k);
                }
                if keys.to_set().contains(k) {
                    let j = choose|j: int| 0 <= j < keys.len() && keys[j] == k;
                    assert(stats.table.key_at(j) == k);
                }
            }
        }
        keys.unique_seq_to_set();
        assert forall|k: Seq<char>| #[trigger] stats.metrics().contains_key(k) implies exists|
            i: int,
        | 0 <= i < out@.len() && out@[i].0@ == k by {
            let j = choose|j: int| 0 <= j < stats.table.entries@.len() && stats.table.key_at(j) == k;
            assert(out@[j].0@ == k);
        }
        assert forall|a: int, b: int| 0 <= a < b < out@.len() implies out@[a].0@ != out@[b].0@ by {
            assert(stats.table.key_at(a) != stats.table.key_at(b));
        }
    }
    out
}

/// Requests, errors and response time summed over `metrics`, each sum
/// saturating.
pub open spec fn totals_of(metrics: Seq<(String, ApiMetric)>) -> (usize, usize, u64)
    decreases metrics.len(),
{
    if metrics.len() == 0 {
        (0, 0, 0)
    } else {
        let t = totals_of(metrics.drop_last());
        let m = metrics.last().1;
        (
            sat_add_usize(t.0, m.request_count),
            sat_add_usize(t.1, m.error_count),
            sat_add_u64(t.2, m.total_response_time_ms),
        )
    }
}

/// The total requests, errors and response time of the endpoints in
/// `metrics`, as a health report shows them.
pub fn api_totals(metrics: &Vec<(String, ApiMetric)>) -> (r: (usize, usize, u64))
    ensures
        r == totals_of(metrics@),
{
    let mut requests: usize = 0;
    let mut errors: usize = 0;
    let mut time: u64 = 0;
    let mut i: usize = 0;
    while i < metrics.len()
        invariant
            i <= metrics@.len(),
            (requests, errors, time) == totals_of(metrics@.take(i as int)),
        decreases metrics@.len() - i,
    {
        assert(metrics@.take(i + 1).drop_last() =~= metrics@.take(i as int));
        let m = &metrics[i].1;
        requests = requests.saturating_add(m.request_count);
        errors = errors.saturating_add(m.error_count);
        time = time.saturating_add(m.total_response_time_ms);
        i = i + 1;
    }
    assert(metrics@.take(metrics@.len() as int) =~= metrics@);
    (requests, errors, time)
}

/// Marks the start and the end of an API call.
pub struct ApiMetricsMiddleware;

impl ApiMetricsMiddleware {
    /// Opens a call of `endpoint` at clock reading `now_ms`: counts the
    /// connection and returns the endpoint and the start reading.
    pub fn begin(stats: &mut ApiStats, endpoint: &str, now_ms: u64) -> (r: (String, u64))
        requires
            old(stats).wf(),
        ensures
            final(stats).wf(),
            r.0@ == endpoint@,
            r.1 == now_ms,
            final(stats).connections() == sat_add_usize(old(stats).connections(), 1),
            final(stats).metrics() == old(stats).metrics(),
    {
        let name = endpoint.to_owned();
        increment_connection_count(stats);
        (name, now_ms)
    }

    /// Closes a call opened by [`ApiMetricsMiddleware::begin`]: records its
    /// metrics and releases the connection.
    pub fn end(stats: &mut ApiStats, endpoint: String, start_ms: u64, now_ms: u64, success: bool)
        requires
            old(stats).wf(),
        ensures
            final(stats).wf(),
            final(stats).connections() == (if old(stats).connections() == 0 {
                0
            } else {
                old(stats).connections() - 1
            }),
            final(stats).metrics() == old(stats).metrics().insert(
                endpoint@,
                with_call(old(stats).metric_of(endpoint@), elapsed_ms(start_ms, now_ms), success),
            ),
    {
        record_api_metric(stats, endpoint.as_str(), start_ms, now_ms, success);
        decrement_connection_count(stats);
    }
}

/// The uniform envelope of API answers.
#[derive(Debug)]
pub struct ApiResponse<T> {
    pub success: bool,
    pub data: Option<T>,
    pub error: Option<String>,
    pub code: u16,
    /// Time spent on the request, when its start is known.
    pub response_time_ms: Option<u64>,
}

impl<T> ApiResponse<T> {
    /// A successful answer carrying `data`; the response time is measured
    /// from `start_ms` to `now_ms` when `start_ms` is given.
    pub fn success(data: T, start_ms: Option<u64>, now_ms: u64) -> (r: ApiResponse<T>)
        ensures
            r.success,
            r.data == Some(data),
            r.error is None,
            r.code == 200,
            r.response_time_ms == (match start_ms {
                Some(s) => Some(elapsed_ms(s, now_ms)),
                None => None::<u64>,
            }),
    {
        let response_time_ms = match start_ms {
            Some(s) => Some(now_ms.saturating_sub(s)),
            None => None,
        };
        ApiResponse { success: true, data: Some(data), error: None, code: 200, response_time_ms }
    }

    /// A failed answer with message `msg` and status `code`.
    pub fn error(msg: String, code: u16, start_ms: Option<u64>, now_ms: u64) -> (r: ApiResponse<T>)
        ensures
            !r.success,
            r.data is None,
            r.error matches Some(m) && m@ == msg@,
            r.code == code,
            r.response_time_ms == (match start_ms {
                Some(s) => Some(elapsed_ms(s, now_ms)),
                None => None::<u64>,
            }),
    {
        let response_time_ms = match start_ms {
            Some(s) => Some(now_ms.saturating_sub(s)),
            None => None,
        };
        ApiResponse { success: false, data: None, error: Some(msg), code, response_time_ms }
    }

    /// The HTTP status to answer with: `code`, or 500 when no code was set.
    pub fn status_code(&self) -> (r: u16)
        ensures
            r == (if self.code == 0 {
                500
            } else {
                self.code
            }),
    {
        if self.code == 0 {
            500
        } else {
            self.code
        }
    }
}

} // verus!
