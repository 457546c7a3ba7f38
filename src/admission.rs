//! The admission decision: runs the attack detector, the rate limiter and
//! the rule engine, in that order, and combines their verdicts.

use crate::ddos_detector::DdosDetector;
use crate::ddos_detector::DetectionSignal;
use crate::ddos_detector::connection_key;
use crate::ddos_detector::history_key;
use crate::ddos_detector::is_anomalous;
use crate::ddos_detector::marker_key;
use crate::ddos_detector::sample_of;
use crate::ddos_detector::with_marker;
use crate::rate_limiter::RateLimiter;
use crate::rate_limiter::rate_limit_key;
use crate::rate_limiter::remaining_for;
use crate::rule_engine::RuleAction;
use crate::rule_engine::RuleEngine;
use crate::rule_engine::fired_actions;
use crate::rule_engine::score_of;
use crate::store::CounterState;
use crate::store::CounterStore;
use crate::store::next_state;
use crate::store::rolled;
use vstd::prelude::*;

verus! {

/// Why a request or connection was refused.
#[derive(Debug, Clone, Copy, PartialEq, Eq)]
pub enum DenyReason {
    /// The attack detector flagged the source.
    Ddos,
    /// The source used up its quota for the window.
    RateLimit,
    /// A fired rule asked for a block.
    Rule,
}

/// The verdict on one connection.
#[derive(Debug)]
pub struct ConnectionVerdict {
    pub allow: bool,
    pub reason: Option<DenyReason>,
    /// Seconds until the source may try again, when refused.
    pub retry_after: Option<u64>,
}

/// The verdict on one request.
#[derive(Debug)]
pub struct RequestVerdict {
    pub allow: bool,
    pub reason: Option<DenyReason>,
    /// Calls left in the rate-limit window, when the limiter admitted it.
    pub remaining: Option<u32>,
    /// Seconds until the source may try again, when refused by the limiter.
    pub retry_after: Option<u64>,
    /// The actions of the rules that fired, in priority order.
    pub actions: Vec<RuleAction>,
}

/// Whether `a` holds a `Block` action.
pub open spec fn has_block(a: Seq<RuleAction>) -> bool {
    exists|i: int| 0 <= i < a.len() && a[i] is Block
}

/// Finds a `Block` action among `a`.
pub fn contains_block(a: &Vec<RuleAction>) -> (r: bool)
    ensures
        r == has_block(a@),
{
    let mut i: usize = 0;
    while i < a.len()
        invariant
            i <= a@.len(),
            forall|j: int| 0 <= j < i ==> !(a@[j] is Block),
        decreases a@.len() - i,
    {
        if let RuleAction::Block { .. } = &a[i] {
            return true;
        }
        i += 1;
    }
    false
}

/// Counts one connection of `ip`; refused, with the time left in the
/// connection window, when the detector flags it.
pub fn admit_connection(detector: &DdosDetector, store: &mut CounterStore, ip: &str, now: u64) -> (r:
    ConnectionVerdict)
    requires
        old(store).wf(),
    ensures
        final(store).wf(),
        final(store).counters() == detector.connection_counters(old(store).counters(), ip@, now),
        final(store).histories() == old(store).histories(),
        r.allow == !detector.connection_blocked(old(store).counters(), ip@, now),
        r.allow ==> r.reason is None && r.retry_after is None,
        !r.allow ==> r.reason == Some(DenyReason::Ddos) && r.retry_after == Some(
            final(store).ttl(connection_key(ip@), now),
        ),
{
    if detector.check_connection(store, ip, now) {
        let key = crate::utils::format_rate_limit_key("connection_rate", ip);
        let wait = store.time_to_live(key.as_str(), now);
        ConnectionVerdict { allow: false, reason: Some(DenyReason::Ddos), retry_after: Some(wait) }
    } else {
        ConnectionVerdict { allow: true, reason: None, retry_after: None }
    }
}

impl DdosDetector {
    /// Counters after the request's own counting and, when no threshold
    /// tripped, the anomaly test.
    pub open spec fn screened(
        &self,
        m: Map<Seq<char>, CounterState>,
        h: Seq<u32>,
        ip: Seq<char>,
        size: u64,
        now: u64,
    ) -> Map<Seq<char>, CounterState> {
        let m1 = self.request_counters(m, ip, size, now);
        if self.request_signal(m, ip, size, now) is Some {
            m1
        } else {
            with_marker(
                m1,
                is_anomalous(rolled(h, sample_of(size)), self.config().anomaly_threshold),
                marker_key(DetectionSignal::Anomaly, ip),
                now,
                self.config().anomaly_window,
            )
        }
    }

    /// Whether the detector refuses the request: a threshold tripped, or
    /// else the newest sample is anomalous.
    pub open spec fn refuses(
        &self,
        m: Map<Seq<char>, CounterState>,
        h: Seq<u32>,
        ip: Seq<char>,
        size: u64,
        now: u64,
    ) -> bool {
        self.request_signal(m, ip, size, now) is Some || is_anomalous(
            rolled(h, sample_of(size)),
            self.config().anomaly_threshold,
        )
    }
}

/// Decides one request of `ip`: the detector counts it and may refuse it
/// (`Ddos`); else the limiter counts it and may refuse it (`RateLimit`);
/// else the rules are evaluated, and a fired `Block` refuses it (`Rule`).
/// The anomaly test runs only when no threshold tripped, and the limiter
/// and the rules only when the detector let the request through.
pub fn admit_request(
    detector: &DdosDetector,
    limiter: &RateLimiter,
    engine: &RuleEngine,
    store: &mut CounterStore,
    ip: &str,
    size: u64,
    user_agent: &str,
    reputation: Option<u32>,
    now: u64,
) -> (r: RequestVerdict)
    requires
        old(store).wf(),
    ensures
        final(store).wf(),
        final(store).histories() == old(store).histories().insert(
            history_key(ip@),
            rolled(old(store).history(history_key(ip@)), sample_of(size)),
        ),
        ({
            let m0 = old(store).counters();
            let h0 = old(store).history(history_key(ip@));
            let m2 = detector.screened(m0, h0, ip@, size, now);
            let rl = next_state(m2, rate_limit_key(ip@), 1, limiter.window() as u64, now);
            let m3 = m2.insert(rate_limit_key(ip@), rl);
            let fired = fired_actions(engine@, m3, now, ip@, user_agent@, score_of(reputation));
            if detector.refuses(m0, h0, ip@, size, now) {
                &&& final(store).counters() == m2
                &&& !r.allow
                &&& r.reason == Some(DenyReason::Ddos)
                &&& r.remaining is None
                &&& r.retry_after is None
                &&& r.actions@.len() == 0
            } else if rl.0 > limiter.limit() {
                &&& final(store).counters() == m3
                &&& !r.allow
                &&& r.reason == Some(DenyReason::RateLimit)
                &&& r.remaining is None
                &&& r.retry_after == Some(final(store).ttl(rate_limit_key(ip@), now))
                &&& r.actions@.len() == 0
            } else {
                &&& final(store).counters() == m3
                &&& r.actions@ == fired
                &&& r.allow == !has_block(fired)
                &&& r.reason == (if has_block(fired) {
                    Some(DenyReason::Rule)
                } else {
                    None
                })
                &&& r.remaining == Some(
                    remaining_for(final(store).live_value(rate_limit_key(ip@), now), limiter.limit()),
                )
                &&& r.retry_after is None
            }
        }),
{
    if detector.inspect_request(store, ip, size, now).is_some() {
        return RequestVerdict {
            allow: false,
            reason: Some(DenyReason::Ddos),
            remaining: None,
            retry_after: None,
            actions: Vec::new(),
        };
    }
    if detector.detect_anomaly(store, ip, now) {
        return RequestVerdict {
            allow: false,
            reason: Some(DenyReason::Ddos),
            remaining: None,
            retry_after: None,
            actions: Vec::new(),
        };
    }
    if limiter.check_rate_limit(store, ip, now).is_err() {
        let wait = limiter.get_reset_time(store, ip, now);
        return RequestVerdict {
            allow: false,
            reason: Some(DenyReason::RateLimit),
            remaining: None,
            retry_after: Some(wait),
            actions: Vec::new(),
        };
    }
    let remaining = limiter.get_remaining(store, ip, now);
    let actions = engine.evaluate_request(store, ip, size, user_agent, reputation, now);
    let blocked = contains_block(&actions);
    RequestVerdict {
        allow: !blocked,
        reason: if blocked {
            Some(DenyReason::Rule)
        } else {
            None
        },
        remaining: Some(remaining as u32),
        retry_after: None,
        actions,
    }
}

} // verus!
