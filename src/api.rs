//! The request and response records of the service's HTTP surface, and the
//! work behind each endpoint, stripped of transport.

use crate::ddos_detector::DdosDetector;
use crate::ddos_detector::DetectionSignal;
use crate::rate_limiter::RateLimiter;
use crate::rate_limiter::rate_limit_key;
use crate::rate_limiter::rate_limit_verdict;
use crate::rate_limiter::remaining_for;
use crate::rate_limiter::remaining_quota;
use crate::rate_limiter::verdict_for;
use crate::rule_engine::Rule;
use crate::rule_engine::RuleAction;
use crate::rule_engine::RuleCondition;
use crate::rule_engine::RuleEngine;
use crate::rule_engine::clone_actions;
use crate::rule_engine::clone_conditions;
use crate::rule_engine::clone_text;
use crate::rule_engine::placed;
use crate::rule_engine::rule_index;
use crate::rule_engine::same_rule;
use crate::rule_engine::same_rules;
use crate::rule_engine::without;
use crate::store::CounterStore;
use vstd::prelude::*;

verus! {

#[derive(Debug)]
pub struct HealthCheckResponse {
    pub status: String,
    pub version: String,
}

#[derive(Debug)]
pub struct RateLimitRequest {
    pub ip: String,
    pub path: String,
}

#[derive(Debug)]
pub struct RateLimitResponse {
    pub allowed: bool,
    pub remaining: u32,
    /// Seconds until the window resets.
    pub reset: u64,
}

#[derive(Debug)]
pub struct DdosCheckRequest {
    pub ip: String,
    pub request_size: u64,
}

#[derive(Debug)]
pub struct DdosCheckResponse {
    pub is_under_attack: bool,
    /// The signal that flagged the request, when one did.
    pub detection_type: Option<String>,
}

/// A rule as submitted, without an id.
#[derive(Debug)]
pub struct RuleRequest {
    pub name: String,
    pub description: Option<String>,
    pub conditions: Vec<RuleCondition>,
    pub actions: Vec<RuleAction>,
    pub priority: i32,
    pub enabled: bool,
}

/// A rule as reported back.
#[derive(Debug)]
pub struct RuleResponse {
    pub id: String,
    pub name: String,
    pub description: Option<String>,
    pub conditions: Vec<RuleCondition>,
    pub actions: Vec<RuleAction>,
    pub priority: i32,
    pub enabled: bool,
}

/// The rule that a request describes, under `id`.
pub open spec fn rule_from(req: RuleRequest, id: String) -> Rule {
    Rule {
        id,
        name: req.name,
        description: req.description,
        conditions: req.conditions,
        actions: req.actions,
        priority: req.priority,
        enabled: req.enabled,
    }
}

/// `resp` reports `rule` field by field.
pub open spec fn reports(resp: RuleResponse, rule: Rule) -> bool {
    &&& resp.id == rule.id
    &&& resp.name == rule.name
    &&& resp.description == rule.description
    &&& resp.conditions@ == rule.conditions@
    &&& resp.actions@ == rule.actions@
    &&& resp.priority == rule.priority
    &&& resp.enabled == rule.enabled
}

/// The name under which a detection signal is reported.
pub open spec fn signal_name(s: DetectionSignal) -> Seq<char> {
    match s {
        DetectionSignal::ConnectionRate => "connection_rate"@,
        DetectionSignal::RequestRate => "request_rate"@,
        DetectionSignal::TrafficVolume => "traffic_volume"@,
        DetectionSignal::Anomaly => "anomaly"@,
    }
}

/// Names a detection signal.
pub fn signal_label(s: DetectionSignal) -> (r: String)
    ensures
        r@ == signal_name(s),
{
    match s {
        DetectionSignal::ConnectionRate => "connection_rate".to_owned(),
        DetectionSignal::RequestRate => "request_rate".to_owned(),
        DetectionSignal::TrafficVolume => "traffic_volume".to_owned(),
        DetectionSignal::Anomaly => "anomaly".to_owned(),
    }
}

/// Relies on `uuid::Uuid::new_v4`, a fresh random UUID, and on its
/// `Display` form, the hyphenated one of `Hyphenated::LENGTH` (36) characters.
#[verifier::external_body]
fn new_uuid_text() -> (r: String)
    ensures
        r@.len() == 36,
{
    uuid::Uuid::new_v4().to_string()
}

/// The prefix of every generated rule id.
pub open spec fn rule_id_prefix() -> Seq<char> {
    "rule_"@
}

/// `rule_` followed by a fresh UUID.
fn new_rule_id() -> (r: String)
    ensures
        r@.len() == 41,
        r@.subrange(0, 5) == rule_id_prefix(),
{
    let uuid = new_uuid_text();
    let mut id = "rule_".to_owned();
    id.append(uuid.as_str());
    proof {
        reveal_strlit("rule_");
        assert(id@.subrange(0, 5) =~= rule_id_prefix());
    }
    id
}

/// The service is up and runs `version`.
pub fn health_check(version: &str) -> (r: HealthCheckResponse)
    ensures
        r.status@ == "ok"@,
        r.version@ == version@,
{
    HealthCheckResponse { status: "ok".to_owned(), version: version.to_owned() }
}

/// The response to a call that a remote counter store counted: `count` is
/// the window's count after the call, `ttl` the store's time-to-live reply
/// for the window (negative when the key has no expiry or does not exist).
pub fn rate_limit_response(count: u64, ttl: i64, limit: u32) -> (r: RateLimitResponse)
    ensures
        r.allowed == verdict_for(count, limit) is Ok,
        r.remaining == (if r.allowed {
            remaining_for(count, limit)
        } else {
            0
        }),
        r.reset == (if ttl > 0 {
            ttl as u64
        } else {
            0
        }),
{
    let allowed = rate_limit_verdict(count, limit).is_ok();
    let remaining = if allowed {
        remaining_quota(count, limit)
    } else {
        0
    };
    let reset = if ttl > 0 {
        ttl as u64
    } else {
        0
    };
    RateLimitResponse { allowed, remaining, reset }
}

/// Counts one call of `key` and reports the verdict with the quota left and
/// the seconds until the window resets; a refused call has no quota left.
pub fn check_rate_limit(limiter: &RateLimiter, store: &mut CounterStore, key: &str, now: u64) -> (r:
    RateLimitResponse)
    requires
        old(store).wf(),
    ensures
        final(store).wf(),
        final(store).counters() == old(store).counters().insert(
            rate_limit_key(key@),
            limiter.after_call(*old(store), key@, now),
        ),
        final(store).histories() == old(store).histories(),
        r.allowed == limiter.admits(*old(store), key@, now),
        r.remaining == (if r.allowed {
            remaining_for(final(store).live_value(rate_limit_key(key@), now), limiter.limit())
        } else {
            0
        }),
        r.reset == final(store).ttl(rate_limit_key(key@), now),
{
    let verdict = limiter.check_rate_limit(store, key, now);
    let reset = limiter.get_reset_time(store, key, now);
    match verdict {
        Ok(()) => {
            let remaining = limiter.get_remaining(store, key, now);
            RateLimitResponse { allowed: true, remaining: remaining as u32, reset }
        },
        Err(_) => RateLimitResponse { allowed: false, remaining: 0, reset },
    }
}

/// Counts one request and reports whether the request rate or the traffic
/// volume of its source passed a threshold, and which.
pub fn check_ddos(detector: &DdosDetector, store: &mut CounterStore, req: &DdosCheckRequest, now: u64) -> (r:
    DdosCheckResponse)
    requires
        old(store).wf(),
    ensures
        final(store).wf(),
        final(store).counters() == detector.request_counters(
            old(store).counters(),
            req.ip@,
            req.request_size,
            now,
        ),
        r.is_under_attack == detector.request_signal(
            old(store).counters(),
            req.ip@,
            req.request_size,
            now,
        ) is Some,
        match detector.request_signal(old(store).counters(), req.ip@, req.request_size, now) {
            Some(s) => r.detection_type is Some && r.detection_type->0@ == signal_name(s),
            None => r.detection_type is None,
        },
{
    match detector.inspect_request(store, req.ip.as_str(), req.request_size, now) {
        Some(signal) => DdosCheckResponse {
            is_under_attack: true,
            detection_type: Some(signal_label(signal)),
        },
        None => DdosCheckResponse { is_under_attack: false, detection_type: None },
    }
}

fn respond(rule: Rule) -> (r: RuleResponse)
    ensures
        reports(r, rule),
{
    RuleResponse {
        id: rule.id,
        name: rule.name,
        description: rule.description,
        conditions: rule.conditions,
        actions: rule.actions,
        priority: rule.priority,
        enabled: rule.enabled,
    }
}

/// Every rule, by descending priority.
pub fn get_rules(engine: &RuleEngine) -> (r: Vec<RuleResponse>)
    ensures
        r@.len() == engine@.len(),
        forall|i: int| 0 <= i < r@.len() ==> reports(#[trigger] r@[i], engine@[i]),
{
    let rules = engine.get_rules();
    let mut out: Vec<RuleResponse> = Vec::new();
    let mut rest = rules;
    let ghost all = rest@;
    let n = rest.len();
    let mut i: usize = 0;
    while i < n
        invariant
            n == all.len(),
            same_rules(all, engine@),
            i <= n,
            rest@ == all.subrange(i as int, n as int),
            out@.len() == i,
            forall|j: int| 0 <= j < i ==> reports(#[trigger] out@[j], engine@[j]),
        decreases n - i,
    {
        let rule = rest.remove(0);
        proof {
            assert(rule == all[i as int]);
            assert(same_rule(all[i as int], engine@[i as int]));
            assert(rest@ =~= all.subrange(i + 1, n as int));
        }
        out.push(respond(rule));
        i += 1;
    }
    out
}

/// Stores the rule that `req` describes under a freshly generated id,
/// `rule_` followed by a random UUID, and reports it back.
pub fn create_rule(engine: &mut RuleEngine, req: RuleRequest) -> (r: RuleResponse)
    requires
        old(engine).wf(),
    ensures
        final(engine).wf(),
        final(engine)@ == placed(without(old(engine)@, r.id@), rule_from(req, r.id)),
        r.id@.len() == 41,
        r.id@.subrange(0, 5) == rule_id_prefix(),
        r.name == req.name,
        r.description == req.description,
        r.conditions@ == req.conditions@,
        r.actions@ == req.actions@,
        r.priority == req.priority,
        r.enabled == req.enabled,
{
    let id = new_rule_id();
    let response = RuleResponse {
        id: id.clone(),
        name: req.name.clone(),
        description: clone_text(&req.description),
        conditions: clone_conditions(&req.conditions),
        actions: clone_actions(&req.actions),
        priority: req.priority,
        enabled: req.enabled,
    };
    let rule = Rule {
        id,
        name: req.name,
        description: req.description,
        conditions: req.conditions,
        actions: req.actions,
        priority: req.priority,
        enabled: req.enabled,
    };
    engine.add_rule(rule);
    response
}

/// The rule with id `id`, if there is one.
pub fn get_rule(engine: &RuleEngine, id: &str) -> (r: Option<RuleResponse>)
    requires
        engine.wf(),
    ensures
        r is Some <==> rule_index(engine@, id@) >= 0,
        r is Some ==> reports(r->0, engine@[rule_index(engine@, id@)]),
{
    match engine.get_rule(id) {
        Some(rule) => Some(respond(rule)),
        None => None,
    }
}

/// Replaces the rule with id `id` by the one `req` describes; false if
/// there is no such rule.
pub fn update_rule(engine: &mut RuleEngine, id: &str, req: RuleRequest) -> (r: bool)
    requires
        old(engine).wf(),
    ensures
        final(engine).wf(),
        r == (rule_index(old(engine)@, id@) >= 0),
        r ==> final(engine)@ == placed(
            without(old(engine)@, id@),
            rule_from(req, old(engine)@[rule_index(old(engine)@, id@)].id),
        ),
        !r ==> final(engine)@ == old(engine)@,
{
    let rule = Rule {
        id: id.to_owned(),
        name: req.name,
        description: req.description,
        conditions: req.conditions,
        actions: req.actions,
        priority: req.priority,
        enabled: req.enabled,
    };
    engine.update_rule(id, rule)
}

/// Removes the rule with id `id`; false if there is no such rule.
pub fn delete_rule(engine: &mut RuleEngine, id: &str) -> (r: bool)
    requires
        old(engine).wf(),
    ensures
        final(engine).wf(),
        r == (rule_index(old(engine)@, id@) >= 0),
        final(engine)@ == without(old(engine)@, id@),
{
    engine.remove_rule(id)
}

} // verus!
