//! Attack detection from four independent signals: connection rate, request
//! rate, traffic volume and a statistical anomaly in traffic samples.

use crate::store::CounterState;
use crate::store::CounterStore;
use crate::store::HISTORY_LIMIT;
use crate::store::next_state;
use crate::store::rolled;
use crate::store::sat_add;
use crate::utils::format_rate_limit_key;
use crate::utils::format_window_key;
use crate::utils::namespaced;
use crate::utils::windowed;
use vstd::prelude::*;

verus! {

/// Thresholds and windows (in seconds) of the four signals.
#[derive(Debug, Clone, Copy)]
pub struct DdosDetectionConfig {
    /// Connections allowed per connection window.
    pub connection_rate_threshold: u32,
    pub connection_rate_window: u32,
    /// Requests allowed per request window.
    pub request_rate_threshold: u32,
    pub request_rate_window: u32,
    /// Bytes allowed per traffic window.
    pub traffic_volume_threshold: u64,
    pub traffic_volume_window: u32,
    /// Largest tolerated z-score of the newest traffic sample, in thousandths
    /// of a standard deviation (3000 is three standard deviations).
    pub anomaly_threshold: u32,
    /// How long an anomaly marker stays set.
    pub anomaly_window: u32,
}

impl Default for DdosDetectionConfig {
    fn default() -> (r: Self)
        ensures
            r.connection_rate_threshold == 100,
            r.connection_rate_window == 60,
            r.request_rate_threshold == 1000,
            r.request_rate_window == 60,
            r.traffic_volume_threshold == 10_000_000,
            r.traffic_volume_window == 60,
            r.anomaly_threshold == 3000,
            r.anomaly_window == 300,
    {
        DdosDetectionConfig {
            connection_rate_threshold: 100,
            connection_rate_window: 60,
            request_rate_threshold: 1000,
            request_rate_window: 60,
            traffic_volume_threshold: 10_000_000,
            traffic_volume_window: 60,
            anomaly_threshold: 3000,
            anomaly_window: 300,
        }
    }
}

/// The signal that flagged an identity.
#[derive(Debug, Clone, Copy, PartialEq, Eq)]
pub enum DetectionSignal {
    ConnectionRate,
    RequestRate,
    TrafficVolume,
    Anomaly,
}

/// Connections counted in the current window.
pub open spec fn connection_key(ip: Seq<char>) -> Seq<char> {
    namespaced("connection_rate"@, ip)
}

/// Requests counted in a window of `window` seconds.
pub open spec fn request_key(ip: Seq<char>, window: u32) -> Seq<char> {
    windowed("request_rate"@, ip, window as nat)
}

/// Bytes summed over a window of `window` seconds.
pub open spec fn traffic_key(ip: Seq<char>, window: u32) -> Seq<char> {
    windowed("traffic_volume"@, ip, window as nat)
}

/// Recent traffic samples, oldest first.
pub open spec fn history_key(ip: Seq<char>) -> Seq<char> {
    namespaced("traffic_history"@, ip)
}

/// The advisory marker that records a detection by `signal`.
pub open spec fn marker_key(signal: DetectionSignal, ip: Seq<char>) -> Seq<char> {
    namespaced(
        match signal {
            DetectionSignal::ConnectionRate => "ddos_connection"@,
            DetectionSignal::RequestRate => "ddos_request"@,
            DetectionSignal::TrafficVolume => "ddos_traffic"@,
            DetectionSignal::Anomaly => "ddos_anomaly"@,
        },
        ip,
    )
}

/// `m` with a marker at `k` set at `now` for `window` seconds, if `fired`.
pub open spec fn with_marker(
    m: Map<Seq<char>, CounterState>,
    fired: bool,
    k: Seq<char>,
    now: u64,
    window: u32,
) -> Map<Seq<char>, CounterState> {
    if fired {
        m.insert(k, (now, sat_add(now, window as u64)))
    } else {
        m
    }
}

/// A request size as a traffic sample, held at `u32::MAX`.
pub open spec fn sample_of(size: u64) -> u32 {
    if size > u32::MAX {
        u32::MAX
    } else {
        size as u32
    }
}

pub open spec fn sum_of(h: Seq<u32>) -> int
    decreases h.len(),
{
    if h.len() == 0 {
        0
    } else {
        sum_of(h.drop_last()) + h.last()
    }
}

pub open spec fn sum_sq_of(h: Seq<u32>) -> int
    decreases h.len(),
{
    if h.len() == 0 {
        0
    } else {
        sum_sq_of(h.drop_last()) + h.last() * h.last()
    }
}

/// n·Σx² − (Σx)², that is n² times the variance of the samples around their
/// mean; zero exactly when all samples are equal.
pub open spec fn spread(h: Seq<u32>) -> int {
    h.len() * sum_sq_of(h) - sum_of(h) * sum_of(h)
}

/// n·x − Σx for the newest sample x: n times its distance from the mean.
pub open spec fn last_deviation(h: Seq<u32>) -> int {
    h.len() * h.last() - sum_of(h)
}

/// Whether the newest sample lies more than `threshold` thousandths of a
/// standard deviation from the mean of the samples. With mean Σx/n and
/// sample variance spread/(n(n−1)), |z| > t/1000 reads, squared and
/// multiplied through by 10⁶·n²·(n−1):
/// 10⁶·(n−1)·deviation² > t²·n·spread.
/// Fewer than two samples, or samples without spread, are never anomalous.
pub open spec fn is_anomalous(h: Seq<u32>, threshold: u32) -> bool {
    &&& h.len() >= 2
    &&& spread(h) > 0
    &&& 1_000_000 * (h.len() - 1) * (last_deviation(h) * last_deviation(h)) > threshold * threshold
        * h.len() * spread(h)
}

proof fn lemma_mul_le(a: int, b: int, c: int, d: int)
    requires
        0 <= a <= c,
        0 <= b <= d,
    ensures
        a * b <= c * d,
{
    assert(a * b <= c * d) by (nonlinear_arith)
        requires
            0 <= a <= c,
            0 <= b <= d,
    ;
}

proof fn lemma_constant_sums(h: Seq<u32>, c: u32)
    requires
        forall|i: int| 0 <= i < h.len() ==> h[i] == c,
    ensures
        sum_of(h) == h.len() * c,
        sum_sq_of(h) == h.len() * (c * c),
    decreases h.len(),
{
    if h.len() > 0 {
        lemma_constant_sums(h.drop_last(), c);
        assert(sum_of(h) == (h.len() - 1) * c + c);
        assert((h.len() - 1) * c + c == h.len() * c) by (nonlinear_arith);
        assert((h.len() - 1) * (c * c) + c * c == h.len() * (c * c)) by (nonlinear_arith);
    }
}

/// Too few samples, or samples that are all equal (zero variance), never
/// make an anomaly: the test then has no standard deviation to divide by,
/// and answers "not anomalous".
pub proof fn lemma_no_anomaly_without_spread(h: Seq<u32>, threshold: u32)
    requires
        h.len() < 2 || forall|i: int, j: int| 0 <= i < h.len() && 0 <= j < h.len() ==> h[i] == h[j],
    ensures
        !is_anomalous(h, threshold),
{
    if h.len() >= 2 {
        let c = h[0];
        assert forall|i: int| 0 <= i < h.len() implies h[i] == c by {}
        lemma_constant_sums(h, c);
        let n = h.len() as int;
        assert(n * (n * (c * c)) - (n * c) * (n * c) == 0) by (nonlinear_arith);
    }
}

/// Decides whether the newest of `h` is anomalous against the others. The
/// test runs in fixed-width integers, exact for a history of at most
/// `HISTORY_LIMIT` samples, the most a store keeps.
pub fn anomaly_in(h: &Vec<u32>, threshold: u32) -> (r: bool)
    requires
        h@.len() <= HISTORY_LIMIT,
    ensures
        r == is_anomalous(h@, threshold),
{
    let n = h.len();
    if n < 2 {
        return false;
    }
    let ghost max: int = u32::MAX as int;
    let mut s: u128 = 0;
    let mut q: u128 = 0;
    let mut i: usize = 0;
    while i < n
        invariant
            n == h@.len(),
            n <= HISTORY_LIMIT,
            max == u32::MAX,
            i <= n,
            s == sum_of(h@.subrange(0, i as int)),
            q == sum_sq_of(h@.subrange(0, i as int)),
            0 <= s <= i * max,
            0 <= q <= i * (max * max),
        decreases n - i,
    {
        let x = h[i] as u128;
        proof {
            assert(h@.subrange(0, i + 1).drop_last() =~= h@.subrange(0, i as int));
            lemma_mul_le(x as int, x as int, max, max);
            assert((i + 1) * max == i * max + max) by (nonlinear_arith);
            assert((i + 1) * (max * max) == i * (max * max) + max * max) by (nonlinear_arith);
        }
        s = s + x;
        q = q + x * x;
        i += 1;
    }
    proof {
        assert(h@.subrange(0, n as int) =~= h@);
        lemma_mul_le(n as int, max * max, HISTORY_LIMIT as int, max * max);
        lemma_mul_le(n as int, max, 64, max);
        lemma_mul_le(n as int, q as int, 64, 64 * (max * max));
        lemma_mul_le(s as int, s as int, 64 * max, 64 * max);
    }
    let n128 = n as u128;
    let nq = n128 * q;
    let ss = s * s;
    if nq <= ss {
        return false;
    }
    let spread_v = nq - ss;
    let last = h[n - 1] as u128;
    proof {
        lemma_mul_le(n as int, last as int, 64, max);
    }
    let nx = n128 * last;
    let d = if nx >= s {
        nx - s
    } else {
        s - nx
    };
    proof {
        lemma_mul_le(d as int, d as int, 64 * max, 64 * max);
        lemma_mul_le((n - 1) as int, (d * d) as int, 63, (64 * max) * (64 * max));
        assert((d * d) as int == last_deviation(h@) * last_deviation(h@)) by (nonlinear_arith)
            requires
                d as int == last_deviation(h@) || d as int == -last_deviation(h@),
        ;
        lemma_mul_le(n as int, spread_v as int, 64, 64 * (64 * (max * max)));
        lemma_mul_le(threshold as int, threshold as int, max, max);
    }
    let lhs = 1_000_000 * ((n128 - 1) * (d * d));
    let t = threshold as u128;
    let tt = t * t;
    proof {
        assert(1_000_000 * ((n - 1) * (d * d)) == 1_000_000 * (n - 1) * (d * d)) by (nonlinear_arith);
        assert(tt * (n * spread_v) == threshold * threshold * n * spread_v) by (nonlinear_arith)
            requires
                tt == threshold * threshold,
        ;
    }
    match tt.checked_mul(n128 * spread_v) {
        Some(rhs) => lhs > rhs,
        None => false,
    }
}

/// Attack detector; all of its state lives in the counter store.
pub struct DdosDetector {
    config: DdosDetectionConfig,
}

impl DdosDetector {
    pub closed spec fn config(&self) -> DdosDetectionConfig {
        self.config
    }

    /// Counters after one connection of `ip` at `now`.
    pub open spec fn connection_counters(
        &self,
        m: Map<Seq<char>, CounterState>,
        ip: Seq<char>,
        now: u64,
    ) -> Map<Seq<char>, CounterState> {
        let c = self.config();
        let next = next_state(m, connection_key(ip), 1, c.connection_rate_window as u64, now);
        with_marker(
            m.insert(connection_key(ip), next),
            next.0 > c.connection_rate_threshold,
            marker_key(DetectionSignal::ConnectionRate, ip),
            now,
            c.connection_rate_window,
        )
    }

    /// Whether one more connection of `ip` at `now` passes the threshold.
    pub open spec fn connection_blocked(&self, m: Map<Seq<char>, CounterState>, ip: Seq<char>, now: u64) -> bool {
        let c = self.config();
        next_state(m, connection_key(ip), 1, c.connection_rate_window as u64, now).0
            > c.connection_rate_threshold
    }

    /// The request count after one more request.
    pub open spec fn next_requests(&self, m: Map<Seq<char>, CounterState>, ip: Seq<char>, now: u64) -> CounterState {
        let c = self.config();
        next_state(m, request_key(ip, c.request_rate_window), 1, c.request_rate_window as u64, now)
    }

    /// The traffic sum after one more request of `size` bytes.
    pub open spec fn next_traffic(
        &self,
        m: Map<Seq<char>, CounterState>,
        ip: Seq<char>,
        size: u64,
        now: u64,
    ) -> CounterState {
        let c = self.config();
        let m1 = m.insert(request_key(ip, c.request_rate_window), self.next_requests(m, ip, now));
        next_state(m1, traffic_key(ip, c.traffic_volume_window), size, c.traffic_volume_window as u64, now)
    }

    /// The signal that one more request of `size` bytes raises, if any.
    pub open spec fn request_signal(
        &self,
        m: Map<Seq<char>, CounterState>,
        ip: Seq<char>,
        size: u64,
        now: u64,
    ) -> Option<DetectionSignal> {
        let c = self.config();
        if self.next_requests(m, ip, now).0 > c.request_rate_threshold {
            Some(DetectionSignal::RequestRate)
        } else if self.next_traffic(m, ip, size, now).0 > c.traffic_volume_threshold {
            Some(DetectionSignal::TrafficVolume)
        } else {
            None
        }
    }

    /// Counters after one request of `size` bytes: both counts grow, and a
    /// marker is set for each threshold passed.
    pub open spec fn request_counters(
        &self,
        m: Map<Seq<char>, CounterState>,
        ip: Seq<char>,
        size: u64,
        now: u64,
    ) -> Map<Seq<char>, CounterState> {
        let c = self.config();
        let rn = self.next_requests(m, ip, now);
        let tn = self.next_traffic(m, ip, size, now);
        let m2 = m.insert(request_key(ip, c.request_rate_window), rn).insert(
            traffic_key(ip, c.traffic_volume_window),
            tn,
        );
        with_marker(
            with_marker(
                m2,
                rn.0 > c.request_rate_threshold,
                marker_key(DetectionSignal::RequestRate, ip),
                now,
                c.request_rate_window,
            ),
            tn.0 > c.traffic_volume_threshold,
            marker_key(DetectionSignal::TrafficVolume, ip),
            now,
            c.traffic_volume_window,
        )
    }

    pub fn new(config: DdosDetectionConfig) -> (r: Self)
        ensures
            r.config() == config,
    {
        DdosDetector { config }
    }

    fn set_marker(&self, store: &mut CounterStore, prefix: &str, ip: &str, window: u32, now: u64)
        requires
            old(store).wf(),
        ensures
            final(store).wf(),
            final(store).counters() == old(store).counters().insert(
                namespaced(prefix@, ip@),
                (now, sat_add(now, window as u64)),
            ),
            final(store).histories() == old(store).histories(),
    {
        let key = format_rate_limit_key(prefix, ip);
        store.set_with_expiry(key.as_str(), now, window as u64, now);
    }

    /// Counts one connection of `ip` at `now`; true (block) when the
    /// connections in the current window pass the threshold.
    pub fn check_connection(&self, store: &mut CounterStore, ip: &str, now: u64) -> (r: bool)
        requires
            old(store).wf(),
        ensures
            final(store).wf(),
            r == self.connection_blocked(old(store).counters(), ip@, now),
            final(store).counters() == self.connection_counters(old(store).counters(), ip@, now),
            final(store).histories() == old(store).histories(),
    {
        let key = format_rate_limit_key("connection_rate", ip);
        let window = self.config.connection_rate_window;
        let count = store.increment_with_window(key.as_str(), 1, window as u64, now);
        let blocked = count > self.config.connection_rate_threshold as u64;
        if blocked {
            self.set_marker(store, "ddos_connection", ip, window, now);
        }
        blocked
    }

    /// Counts one request of `size` bytes from `ip` at `now`, records the
    /// size as a traffic sample, and names the signal whose threshold the
    /// current window passes: request rate first, then traffic volume.
    pub fn inspect_request(&self, store: &mut CounterStore, ip: &str, size: u64, now: u64) -> (r: Option<
        DetectionSignal,
    >)
        requires
            old(store).wf(),
        ensures
            final(store).wf(),
            r == self.request_signal(old(store).counters(), ip@, size, now),
            final(store).counters() == self.request_counters(old(store).counters(), ip@, size, now),
            final(store).histories() == old(store).histories().insert(
                history_key(ip@),
                rolled(old(store).history(history_key(ip@)), sample_of(size)),
            ),
    {
        let c = self.config;
        let request_key = format_window_key("request_rate", ip, c.request_rate_window);
        let requests = store.increment_with_window(
            request_key.as_str(),
            1,
            c.request_rate_window as u64,
            now,
        );
        let traffic_key = format_window_key("traffic_volume", ip, c.traffic_volume_window);
        let traffic = store.increment_with_window(
            traffic_key.as_str(),
            size,
            c.traffic_volume_window as u64,
            now,
        );
        let sample: u32 = if size > u32::MAX as u64 {
            u32::MAX
        } else {
            size as u32
        };
        let history = format_rate_limit_key("traffic_history", ip);
        store.append_sample(history.as_str(), sample);
        let request_hit = requests > c.request_rate_threshold as u64;
        let traffic_hit = traffic > c.traffic_volume_threshold;
        if request_hit {
            self.set_marker(store, "ddos_request", ip, c.request_rate_window, now);
        }
        if traffic_hit {
            self.set_marker(store, "ddos_traffic", ip, c.traffic_volume_window, now);
        }
        if request_hit {
            Some(DetectionSignal::RequestRate)
        } else if traffic_hit {
            Some(DetectionSignal::TrafficVolume)
        } else {
            None
        }
    }

    /// Counts one request as `inspect_request` does; true (block) when the
    /// request rate or the traffic volume passes its threshold.
    pub fn check_request(&self, store: &mut CounterStore, ip: &str, size: u64, now: u64) -> (r: bool)
        requires
            old(store).wf(),
        ensures
            final(store).wf(),
            r == self.request_signal(old(store).counters(), ip@, size, now) is Some,
            final(store).counters() == self.request_counters(old(store).counters(), ip@, size, now),
            final(store).histories() == old(store).histories().insert(
                history_key(ip@),
                rolled(old(store).history(history_key(ip@)), sample_of(size)),
            ),
    {
        self.inspect_request(store, ip, size, now).is_some()
    }

    /// Tests the newest traffic sample of `ip` against the others; true
    /// (block) when it is anomalous, which sets the anomaly marker.
    pub fn detect_anomaly(&self, store: &mut CounterStore, ip: &str, now: u64) -> (r: bool)
        requires
            old(store).wf(),
        ensures
            final(store).wf(),
            r == is_anomalous(old(store).history(history_key(ip@)), self.config().anomaly_threshold),
            old(store).history(history_key(ip@)).len() < 2 ==> !r,
            final(store).counters() == with_marker(
                old(store).counters(),
                r,
                marker_key(DetectionSignal::Anomaly, ip@),
                now,
                self.config().anomaly_window,
            ),
            final(store).histories() == old(store).histories(),
    {
        let key = format_rate_limit_key("traffic_history", ip);
        let history = store.samples(key.as_str());
        proof {
            store.lemma_history_bounded(history_key(ip@));
        }
        let anomalous = anomaly_in(&history, self.config.anomaly_threshold);
        if anomalous {
            self.set_marker(store, "ddos_anomaly", ip, self.config.anomaly_window, now);
        }
        anomalous
    }

    /// Clears every counter, sample and marker that the detector keeps for `ip`.
    pub fn reset_detection(&self, store: &mut CounterStore, ip: &str)
        requires
            old(store).wf(),
        ensures
            final(store).wf(),
            final(store).counters() == old(store).counters().remove(connection_key(ip@)).remove(
                request_key(ip@, self.config().request_rate_window),
            ).remove(traffic_key(ip@, self.config().traffic_volume_window)).remove(
                marker_key(DetectionSignal::ConnectionRate, ip@),
            ).remove(marker_key(DetectionSignal::RequestRate, ip@)).remove(
                marker_key(DetectionSignal::TrafficVolume, ip@),
            ).remove(marker_key(DetectionSignal::Anomaly, ip@)),
            final(store).histories() == old(store).histories().remove(history_key(ip@)),
    {
        let c = self.config;
        let k = format_rate_limit_key("connection_rate", ip);
        store.delete(k.as_str());
        let k = format_window_key("request_rate", ip, c.request_rate_window);
        store.delete(k.as_str());
        let k = format_window_key("traffic_volume", ip, c.traffic_volume_window);
        store.delete(k.as_str());
        let k = format_rate_limit_key("ddos_connection", ip);
        store.delete(k.as_str());
        let k = format_rate_limit_key("ddos_request", ip);
        store.delete(k.as_str());
        let k = format_rate_limit_key("ddos_traffic", ip);
        store.delete(k.as_str());
        let k = format_rate_limit_key("ddos_anomaly", ip);
        store.delete(k.as_str());
        let k = format_rate_limit_key("traffic_history", ip);
        store.clear_history(k.as_str());
    }
}

} // verus!
