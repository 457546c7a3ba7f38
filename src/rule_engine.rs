//! Operator-defined rules: a priority-ordered rule set, and its evaluation
//! against live counters and request attributes.

use crate::ddos_detector::request_key;
use crate::ddos_detector::traffic_key;
use crate::models::RuleConfig;
use crate::store::CounterState;
use crate::store::CounterStore;
use crate::store::value_in;
use crate::utils::format_window_key;
use vstd::prelude::*;

verus! {

/// Failures of rule handling.
#[derive(Debug, Clone)]
pub enum RuleEngineError {
    /// A condition could not be evaluated.
    EvaluationError(String),
    /// A stored rule set could not be read back.
    ParsingError(String),
}

/// Comparison operators for rule conditions.
#[derive(Debug, Clone, Copy, PartialEq, Eq)]
pub enum RuleOperator {
    Equals,
    NotEquals,
    GreaterThan,
    LessThan,
    GreaterThanOrEqual,
    LessThanOrEqual,
    Contains,
    NotContains,
    InRange,
    NotInRange,
}

/// The reputation score assumed for an identity whose score is unknown.
pub const NEUTRAL_REPUTATION: u32 = 5;

/// One test that a rule makes on a request.
#[derive(Debug, PartialEq)]
pub enum RuleCondition {
    /// More than `threshold` requests in the identity's `window_seconds` window.
    RequestRate { threshold: u32, window_seconds: u32 },
    /// More than `threshold_bytes` bytes in the identity's `window_seconds` window.
    TrafficVolume { threshold_bytes: u64, window_seconds: u32 },
    /// The user agent contains `pattern`.
    UserAgent { pattern: String },
    /// The identity's reputation score is at least `min_score`.
    IpReputation { min_score: u32 },
}

/// What a fired rule asks for.
#[derive(Debug, PartialEq)]
pub enum RuleAction {
    Block { duration_seconds: u32 },
    RateLimit { requests_per_second: u32 },
    Log { level: String, message: String },
    Notify { channel: String, message: String },
}

/// A rule: when enabled and all of its conditions hold, its actions apply.
#[derive(Debug, PartialEq)]
pub struct Rule {
    pub id: String,
    pub name: String,
    pub description: Option<String>,
    pub conditions: Vec<RuleCondition>,
    pub actions: Vec<RuleAction>,
    /// Higher numbers are evaluated first.
    pub priority: i32,
    pub enabled: bool,
}

/// A copy of an optional text.
pub fn clone_text(s: &Option<String>) -> (r: Option<String>)
    ensures
        r == *s,
{
    match s {
        Some(t) => Some(t.clone()),
        None => None,
    }
}

impl Clone for RuleCondition {
    fn clone(&self) -> (r: Self)
        ensures
            r == *self,
    {
        match self {
            RuleCondition::RequestRate { threshold, window_seconds } => RuleCondition::RequestRate {
                threshold: *threshold,
                window_seconds: *window_seconds,
            },
            RuleCondition::TrafficVolume { threshold_bytes, window_seconds } =>
                RuleCondition::TrafficVolume {
                threshold_bytes: *threshold_bytes,
                window_seconds: *window_seconds,
            },
            RuleCondition::UserAgent { pattern } => RuleCondition::UserAgent { pattern: pattern.clone() },
            RuleCondition::IpReputation { min_score } => RuleCondition::IpReputation {
                min_score: *min_score,
            },
        }
    }
}

impl Clone for RuleAction {
    fn clone(&self) -> (r: Self)
        ensures
            r == *self,
    {
        match self {
            RuleAction::Block { duration_seconds } => RuleAction::Block {
                duration_seconds: *duration_seconds,
            },
            RuleAction::RateLimit { requests_per_second } => RuleAction::RateLimit {
                requests_per_second: *requests_per_second,
            },
            RuleAction::Log { level, message } => RuleAction::Log {
                level: level.clone(),
                message: message.clone(),
            },
            RuleAction::Notify { channel, message } => RuleAction::Notify {
                channel: channel.clone(),
                message: message.clone(),
            },
        }
    }
}

/// A copy of a list of conditions.
pub fn clone_conditions(v: &Vec<RuleCondition>) -> (r: Vec<RuleCondition>)
    ensures
        r@ == v@,
{
    let mut r: Vec<RuleCondition> = Vec::new();
    let mut i: usize = 0;
    while i < v.len()
        invariant
            i <= v@.len(),
            r@ == v@.subrange(0, i as int),
        decreases v@.len() - i,
    {
        r.push(v[i].clone());
        i += 1;
        proof {
            assert(r@ =~= v@.subrange(0, i as int));
        }
    }
    proof {
        assert(r@ =~= v@);
    }
    r
}

/// A copy of a list of actions.
pub fn clone_actions(v: &Vec<RuleAction>) -> (r: Vec<RuleAction>)
    ensures
        r@ == v@,
{
    let mut r: Vec<RuleAction> = Vec::new();
    let mut i: usize = 0;
    while i < v.len()
        invariant
            i <= v@.len(),
            r@ == v@.subrange(0, i as int),
        decreases v@.len() - i,
    {
        r.push(v[i].clone());
        i += 1;
        proof {
            assert(r@ =~= v@.subrange(0, i as int));
        }
    }
    proof {
        assert(r@ =~= v@);
    }
    r
}

/// `a` and `b` agree in every field; conditions and actions as sequences.
pub open spec fn same_rule(a: Rule, b: Rule) -> bool {
    &&& a.id == b.id
    &&& a.name == b.name
    &&& a.description == b.description
    &&& a.conditions@ == b.conditions@
    &&& a.actions@ == b.actions@
    &&& a.priority == b.priority
    &&& a.enabled == b.enabled
}

/// Rule by rule, `a` and `b` agree in every field.
pub open spec fn same_rules(a: Seq<Rule>, b: Seq<Rule>) -> bool {
    a.len() == b.len() && forall|i: int| 0 <= i < a.len() ==> same_rule(#[trigger] a[i], b[i])
}

impl Clone for Rule {
    fn clone(&self) -> (r: Self)
        ensures
            same_rule(r, *self),
    {
        let conditions = clone_conditions(&self.conditions);
        let actions = clone_actions(&self.actions);
        Rule {
            id: self.id.clone(),
            name: self.name.clone(),
            description: clone_text(&self.description),
            conditions,
            actions,
            priority: self.priority,
            enabled: self.enabled,
        }
    }
}

/// No two rules share an id.
pub open spec fn ids_unique(s: Seq<Rule>) -> bool {
    forall|i: int, j: int|
        0 <= i < s.len() && 0 <= j < s.len() && i != j ==> #[trigger] s[i].id@ != #[trigger] s[j].id@
}

/// Rules appear by descending priority.
pub open spec fn priority_ordered(s: Seq<Rule>) -> bool {
    forall|i: int, j: int| 0 <= i < j < s.len() ==> #[trigger] s[i].priority >= #[trigger] s[j].priority
}

/// The position of the rule with id `id`, or -1.
pub open spec fn rule_index(s: Seq<Rule>, id: Seq<char>) -> int {
    if exists|i: int| 0 <= i < s.len() && s[i].id@ == id {
        choose|i: int| 0 <= i < s.len() && s[i].id@ == id
    } else {
        -1
    }
}

/// `s` without the rule whose id is `id`.
pub open spec fn without(s: Seq<Rule>, id: Seq<char>) -> Seq<Rule> {
    if rule_index(s, id) >= 0 {
        s.remove(rule_index(s, id))
    } else {
        s
    }
}

/// How many leading rules of `s` have a priority of at least `p`: where a
/// new rule of priority `p` goes, after every rule it does not outrank.
pub open spec fn slot(s: Seq<Rule>, p: i32) -> nat
    decreases s.len(),
{
    if s.len() == 0 || s[0].priority < p {
        0
    } else {
        1 + slot(s.drop_first(), p)
    }
}

/// `s` with `r` placed by priority, after the rules of equal priority.
pub open spec fn placed(s: Seq<Rule>, r: Rule) -> Seq<Rule> {
    s.insert(slot(s, r.priority) as int, r)
}

/// `r` under the id `id`.
pub open spec fn with_id(r: Rule, id: String) -> Rule {
    Rule {
        id,
        name: r.name,
        description: r.description,
        conditions: r.conditions,
        actions: r.actions,
        priority: r.priority,
        enabled: r.enabled,
    }
}

proof fn lemma_slot(s: Seq<Rule>, p: i32)
    requires
        priority_ordered(s),
    ensures
        slot(s, p) <= s.len(),
        forall|j: int| 0 <= j < slot(s, p) ==> s[j].priority >= p,
        forall|j: int| slot(s, p) <= j < s.len() ==> s[j].priority < p,
    decreases s.len(),
{
    if s.len() > 0 && s[0].priority >= p {
        let t = s.drop_first();
        assert forall|i: int, j: int| 0 <= i < j < t.len() implies #[trigger] t[i].priority
            >= #[trigger] t[j].priority by {
            assert(s[i + 1].priority >= s[j + 1].priority);
        }
        lemma_slot(t, p);
        assert forall|j: int| 0 <= j < slot(s, p) implies s[j].priority >= p by {
            if j > 0 {
                assert(s[j] == t[j - 1]);
            }
        }
        assert forall|j: int| slot(s, p) <= j < s.len() implies s[j].priority < p by {
            assert(s[j] == t[j - 1]);
        }
    } else if s.len() > 0 {
        assert forall|j: int| 0 <= j < s.len() implies s[j].priority < p by {
            if j > 0 {
                assert(s[0].priority >= s[j].priority);
            }
        }
    }
}

proof fn lemma_index_unique(s: Seq<Rule>, id: Seq<char>, i: int)
    requires
        ids_unique(s),
        0 <= i < s.len(),
        s[i].id@ == id,
    ensures
        rule_index(s, id) == i,
{
}

proof fn lemma_placed_wf(s: Seq<Rule>, r: Rule)
    requires
        ids_unique(s),
        priority_ordered(s),
        rule_index(s, r.id@) == -1,
    ensures
        ids_unique(placed(s, r)),
        priority_ordered(placed(s, r)),
{
    lemma_slot(s, r.priority);
    let k = slot(s, r.priority) as int;
    let t = placed(s, r);
    assert forall|j: int| 0 <= j < s.len() implies s[j].id@ != r.id@ by {
        if s[j].id@ == r.id@ {
            assert(exists|i: int| 0 <= i < s.len() && s[i].id@ == r.id@);
        }
    }
    assert forall|a: int, b: int| 0 <= a < t.len() && 0 <= b < t.len() && a != b implies #[trigger] t[a].id@
        != #[trigger] t[b].id@ by {
        let a0 = if a < k { a } else { a - 1 };
        let b0 = if b < k { b } else { b - 1 };
        if a != k && b != k {
            assert(t[a] == s[a0]);
            assert(t[b] == s[b0]);
        } else if a == k {
            assert(t[b] == s[b0]);
        } else {
            assert(t[a] == s[a0]);
        }
    }
    assert forall|a: int, b: int| 0 <= a < b < t.len() implies #[trigger] t[a].priority
        >= #[trigger] t[b].priority by {
        let a0 = if a < k { a } else { a - 1 };
        let b0 = if b < k { b } else { b - 1 };
        if a != k && b != k {
            assert(t[a] == s[a0]);
            assert(t[b] == s[b0]);
        } else if a == k {
            assert(t[b] == s[b0]);
        } else {
            assert(t[a] == s[a0]);
        }
    }
}

proof fn lemma_without_wf(s: Seq<Rule>, id: Seq<char>)
    requires
        ids_unique(s),
        priority_ordered(s),
    ensures
        ids_unique(without(s, id)),
        priority_ordered(without(s, id)),
        rule_index(without(s, id), id) == -1,
{
    let t = without(s, id);
    let k = rule_index(s, id);
    if k >= 0 {
        assert forall|a: int, b: int| 0 <= a < t.len() && 0 <= b < t.len() && a != b implies #[trigger] t[a].id@
            != #[trigger] t[b].id@ by {
            let a0 = if a < k { a } else { a + 1 };
            let b0 = if b < k { b } else { b + 1 };
            assert(t[a] == s[a0]);
            assert(t[b] == s[b0]);
        }
        assert forall|a: int, b: int| 0 <= a < b < t.len() implies #[trigger] t[a].priority
            >= #[trigger] t[b].priority by {
            let a0 = if a < k { a } else { a + 1 };
            let b0 = if b < k { b } else { b + 1 };
            assert(t[a] == s[a0]);
            assert(t[b] == s[b0]);
        }
        assert forall|j: int| 0 <= j < t.len() implies t[j].id@ != id by {
            let j0 = if j < k { j } else { j + 1 };
            assert(t[j] == s[j0]);
            assert(s[k].id@ == id);
        }
    } else {
        assert forall|j: int| 0 <= j < t.len() implies t[j].id@ != id by {
            if t[j].id@ == id {
                assert(exists|i: int| 0 <= i < s.len() && s[i].id@ == id);
            }
        }
    }
}

/// Adding a rule and then looking up its id yields that rule, whatever the
/// rule set held before.
pub proof fn lemma_add_then_get(s: Seq<Rule>, r: Rule)
    requires
        ids_unique(s),
        priority_ordered(s),
    ensures
        rule_index(placed(without(s, r.id@), r), r.id@) >= 0,
        placed(without(s, r.id@), r)[rule_index(placed(without(s, r.id@), r), r.id@)] == r,
{
    lemma_without_wf(s, r.id@);
    let w = without(s, r.id@);
    lemma_placed_wf(w, r);
    lemma_slot(w, r.priority);
    let k = slot(w, r.priority) as int;
    lemma_index_unique(placed(w, r), r.id@, k);
}

/// After a rule is removed, looking up its id yields nothing.
pub proof fn lemma_remove_then_get(s: Seq<Rule>, id: Seq<char>)
    requires
        ids_unique(s),
        priority_ordered(s),
    ensures
        rule_index(without(s, id), id) == -1,
{
    lemma_without_wf(s, id);
}

/// Whether `needle` occurs in `hay` as a contiguous run of characters.
pub open spec fn contains_seq(hay: Seq<char>, needle: Seq<char>) -> bool {
    exists|i: int|
        0 <= i && i + needle.len() <= hay.len() && #[trigger] hay.subrange(i, i + needle.len()) == needle
}

/// Relies on `str::contains` with a `&str` pattern: true iff the pattern
/// occurs in the string as a contiguous run.
#[verifier::external_body]
fn str_contains(hay: &str, needle: &str) -> (r: bool)
    ensures
        r == contains_seq(hay@, needle@),
{
    hay.contains(needle)
}

/// The reputation score evaluated: the one looked up, or the neutral score.
pub open spec fn score_of(reputation: Option<u32>) -> u32 {
    match reputation {
        Some(s) => s,
        None => NEUTRAL_REPUTATION,
    }
}

/// Whether condition `c` holds for a request of `ip` with `user_agent`,
/// against the counters `m` at `now`. Counters are only read.
pub open spec fn condition_holds(
    c: RuleCondition,
    m: Map<Seq<char>, CounterState>,
    now: u64,
    ip: Seq<char>,
    user_agent: Seq<char>,
    score: u32,
) -> bool {
    match c {
        RuleCondition::RequestRate { threshold, window_seconds } => value_in(
            m,
            request_key(ip, window_seconds),
            now,
        ) > threshold,
        RuleCondition::TrafficVolume { threshold_bytes, window_seconds } => value_in(
            m,
            traffic_key(ip, window_seconds),
            now,
        ) > threshold_bytes,
        RuleCondition::UserAgent { pattern } => contains_seq(user_agent, pattern@),
        RuleCondition::IpReputation { min_score } => score >= min_score,
    }
}

/// A rule fires when it is enabled and all of its conditions hold; a rule
/// without conditions fires whenever it is enabled.
pub open spec fn rule_fires(
    r: Rule,
    m: Map<Seq<char>, CounterState>,
    now: u64,
    ip: Seq<char>,
    user_agent: Seq<char>,
    score: u32,
) -> bool {
    &&& r.enabled
    &&& forall|i: int|
        0 <= i < r.conditions@.len() ==> condition_holds(
            #[trigger] r.conditions@[i],
            m,
            now,
            ip,
            user_agent,
            score,
        )
}

/// The actions of the rules of `rules` that fire, rule by rule in order,
/// each rule's actions in its own order.
pub open spec fn fired_actions(
    rules: Seq<Rule>,
    m: Map<Seq<char>, CounterState>,
    now: u64,
    ip: Seq<char>,
    user_agent: Seq<char>,
    score: u32,
) -> Seq<RuleAction>
    decreases rules.len(),
{
    if rules.len() == 0 {
        Seq::empty()
    } else {
        let earlier = fired_actions(rules.drop_last(), m, now, ip, user_agent, score);
        if rule_fires(rules.last(), m, now, ip, user_agent, score) {
            earlier + rules.last().actions@
        } else {
            earlier
        }
    }
}

/// Evaluation depends on the counters only through their live values: two
/// counter states that read the same everywhere give the same actions in the
/// same order. Evaluating a fixed rule set against fixed counters and request
/// attributes therefore always gives one and the same result.
pub proof fn lemma_evaluation_reads_live_values(
    rules: Seq<Rule>,
    m1: Map<Seq<char>, CounterState>,
    now1: u64,
    m2: Map<Seq<char>, CounterState>,
    now2: u64,
    ip: Seq<char>,
    user_agent: Seq<char>,
    score: u32,
)
    requires
        forall|k: Seq<char>| #[trigger] value_in(m1, k, now1) == value_in(m2, k, now2),
    ensures
        fired_actions(rules, m1, now1, ip, user_agent, score) == fired_actions(
            rules,
            m2,
            now2,
            ip,
            user_agent,
            score,
        ),
    decreases rules.len(),
{
    if rules.len() > 0 {
        lemma_evaluation_reads_live_values(rules.drop_last(), m1, now1, m2, now2, ip, user_agent, score);
        assert forall|c: RuleCondition|
            condition_holds(c, m1, now1, ip, user_agent, score) == #[trigger] condition_holds(
                c,
                m2,
                now2,
                ip,
                user_agent,
                score,
            ) by {
            match c {
                RuleCondition::RequestRate { threshold, window_seconds } => {
                    assert(value_in(m1, request_key(ip, window_seconds), now1) == value_in(
                        m2,
                        request_key(ip, window_seconds),
                        now2,
                    ));
                },
                RuleCondition::TrafficVolume { threshold_bytes, window_seconds } => {
                    assert(value_in(m1, traffic_key(ip, window_seconds), now1) == value_in(
                        m2,
                        traffic_key(ip, window_seconds),
                        now2,
                    ));
                },
                _ => {},
            }
        }
        let last = rules.last();
        assert(rule_fires(last, m1, now1, ip, user_agent, score) == rule_fires(
            last,
            m2,
            now2,
            ip,
            user_agent,
            score,
        ));
    }
}

/// The rule set after adding each of `rules` in turn to `s`.
pub open spec fn added_all(s: Seq<Rule>, rules: Seq<Rule>) -> Seq<Rule>
    decreases rules.len(),
{
    if rules.len() == 0 {
        s
    } else {
        let before = added_all(s, rules.drop_last());
        placed(without(before, rules.last().id@), rules.last())
    }
}

/// The enabled rules of `s`, in order.
pub open spec fn enabled_of(s: Seq<Rule>) -> Seq<Rule>
    decreases s.len(),
{
    if s.len() == 0 {
        Seq::empty()
    } else if s.last().enabled {
        enabled_of(s.drop_last()).push(s.last())
    } else {
        enabled_of(s.drop_last())
    }
}

fn condition_met(
    c: &RuleCondition,
    store: &CounterStore,
    ip: &str,
    user_agent: &str,
    score: u32,
    now: u64,
) -> (r: bool)
    requires
        store.wf(),
    ensures
        r == condition_holds(*c, store.counters(), now, ip@, user_agent@, score),
{
    match c {
        RuleCondition::RequestRate { threshold, window_seconds } => {
            let key = format_window_key("request_rate", ip, *window_seconds);
            store.get(key.as_str(), now) > *threshold as u64
        },
        RuleCondition::TrafficVolume { threshold_bytes, window_seconds } => {
            let key = format_window_key("traffic_volume", ip, *window_seconds);
            store.get(key.as_str(), now) > *threshold_bytes
        },
        RuleCondition::UserAgent { pattern } => str_contains(user_agent, pattern.as_str()),
        RuleCondition::IpReputation { min_score } => score >= *min_score,
    }
}

fn rule_met(rule: &Rule, store: &CounterStore, ip: &str, user_agent: &str, score: u32, now: u64) -> (r:
    bool)
    requires
        store.wf(),
    ensures
        r == rule_fires(*rule, store.counters(), now, ip@, user_agent@, score),
{
    if !rule.enabled {
        return false;
    }
    let mut i: usize = 0;
    while i < rule.conditions.len()
        invariant
            store.wf(),
            i <= rule.conditions@.len(),
            forall|j: int|
                0 <= j < i ==> condition_holds(
                    #[trigger] rule.conditions@[j],
                    store.counters(),
                    now,
                    ip@,
                    user_agent@,
                    score,
                ),
        decreases rule.conditions@.len() - i,
    {
        if !condition_met(&rule.conditions[i], store, ip, user_agent, score, now) {
            return false;
        }
        i += 1;
    }
    true
}

/// The rule engine: rules with unique ids, held by descending priority and,
/// within one priority, in the order they were added.
pub struct RuleEngine {
    config: RuleConfig,
    rules: Vec<Rule>,
}

impl View for RuleEngine {
    type V = Seq<Rule>;

    closed spec fn view(&self) -> Seq<Rule> {
        self.rules@
    }
}

impl RuleEngine {
    pub open spec fn wf(&self) -> bool {
        ids_unique(self@) && priority_ordered(self@)
    }

    pub closed spec fn config(&self) -> RuleConfig {
        self.config
    }

    /// An engine with no rules.
    pub fn new(config: RuleConfig) -> (r: Self)
        ensures
            r.wf(),
            r@ == Seq::<Rule>::empty(),
            r.config() == config,
    {
        RuleEngine { config, rules: Vec::new() }
    }

    fn find(&self, id: &String) -> (r: Option<usize>)
        requires
            self.wf(),
        ensures
            match r {
                Some(i) => i < self@.len() && rule_index(self@, id@) == i,
                None => rule_index(self@, id@) == -1,
            },
    {
        let mut i: usize = 0;
        while i < self.rules.len()
            invariant
                self.wf(),
                i <= self.rules@.len(),
                forall|j: int| 0 <= j < i ==> self.rules@[j].id@ != id@,
            decreases self.rules@.len() - i,
        {
            if self.rules[i].id == *id {
                proof {
                    lemma_index_unique(self@, id@, i as int);
                }
                return Some(i);
            }
            i += 1;
        }
        None
    }

    /// Inserts `rule` by priority; its id is not in the set.
    fn place(&mut self, rule: Rule)
        requires
            old(self).wf(),
            rule_index(old(self)@, rule.id@) == -1,
        ensures
            final(self).wf(),
            final(self)@ == placed(old(self)@, rule),
            final(self).config() == old(self).config(),
    {
        proof {
            lemma_slot(self@, rule.priority);
            lemma_placed_wf(self@, rule);
        }
        let mut k: usize = 0;
        while k < self.rules.len() && self.rules[k].priority >= rule.priority
            invariant
                k <= self.rules@.len(),
                forall|j: int| 0 <= j < k ==> self.rules@[j].priority >= rule.priority,
            decreases self.rules@.len() - k,
        {
            k += 1;
        }
        proof {
            let s = slot(self@, rule.priority) as int;
            if (k as int) < s {
                assert(self.rules@[k as int].priority >= rule.priority);
            }
            if (k as int) > s {
                assert(self.rules@[s].priority < rule.priority);
            }
        }
        self.rules.insert(k, rule);
    }

    /// Removes the rule at `i`.
    fn remove_at(&mut self, i: usize, id: Ghost<Seq<char>>)
        requires
            old(self).wf(),
            i < old(self)@.len(),
            rule_index(old(self)@, id@) == i,
        ensures
            final(self).wf(),
            final(self)@ == without(old(self)@, id@),
            final(self).config() == old(self).config(),
    {
        proof {
            lemma_without_wf(self@, id@);
        }
        self.rules.remove(i);
    }

    /// Adds `rule`, replacing a rule with the same id.
    pub fn add_rule(&mut self, rule: Rule)
        requires
            old(self).wf(),
        ensures
            final(self).wf(),
            final(self)@ == placed(without(old(self)@, rule.id@), rule),
            final(self).config() == old(self).config(),
    {
        let id = rule.id.clone();
        if let Some(i) = self.find(&id) {
            self.remove_at(i, Ghost(id@));
        }
        proof {
            lemma_without_wf(old(self)@, id@);
        }
        self.place(rule);
    }

    /// The rule with id `id`, if there is one.
    pub fn get_rule(&self, id: &str) -> (r: Option<Rule>)
        requires
            self.wf(),
        ensures
            r is Some <==> rule_index(self@, id@) >= 0,
            r is Some ==> same_rule(r->0, self@[rule_index(self@, id@)]),
    {
        let k = id.to_owned();
        match self.find(&k) {
            Some(i) => Some(self.rules[i].clone()),
            None => None,
        }
    }

    fn clone_rules(v: &Vec<Rule>) -> (r: Vec<Rule>)
        ensures
            same_rules(r@, v@),
    {
        let mut r: Vec<Rule> = Vec::new();
        let mut i: usize = 0;
        while i < v.len()
            invariant
                i <= v@.len(),
                same_rules(r@, v@.subrange(0, i as int)),
            decreases v@.len() - i,
        {
            r.push(v[i].clone());
            i += 1;
        }
        proof {
            assert(v@.subrange(0, v@.len() as int) =~= v@);
        }
        r
    }

    /// Every rule, by descending priority.
    pub fn get_rules(&self) -> (r: Vec<Rule>)
        ensures
            same_rules(r@, self@),
    {
        Self::clone_rules(&self.rules)
    }

    /// Replaces the rule with id `id` by `updated_rule`, which keeps the id
    /// `id` and takes its place by its own priority. False if there is no
    /// such rule.
    pub fn update_rule(&mut self, id: &str, updated_rule: Rule) -> (r: bool)
        requires
            old(self).wf(),
        ensures
            final(self).wf(),
            r == (rule_index(old(self)@, id@) >= 0),
            r ==> final(self)@ == placed(
                without(old(self)@, id@),
                with_id(updated_rule, old(self)@[rule_index(old(self)@, id@)].id),
            ),
            !r ==> final(self)@ == old(self)@,
            final(self).config() == old(self).config(),
    {
        let k = id.to_owned();
        match self.find(&k) {
            Some(i) => {
                let kept_id = self.rules[i].id.clone();
                let rule = Rule {
                    id: kept_id,
                    name: updated_rule.name,
                    description: updated_rule.description,
                    conditions: updated_rule.conditions,
                    actions: updated_rule.actions,
                    priority: updated_rule.priority,
                    enabled: updated_rule.enabled,
                };
                self.remove_at(i, Ghost(k@));
                proof {
                    lemma_without_wf(old(self)@, k@);
                }
                self.place(rule);
                true
            },
            None => false,
        }
    }

    /// Removes the rule with id `id`. False if there is no such rule.
    pub fn remove_rule(&mut self, id: &str) -> (r: bool)
        requires
            old(self).wf(),
        ensures
            final(self).wf(),
            r == (rule_index(old(self)@, id@) >= 0),
            final(self)@ == without(old(self)@, id@),
            final(self).config() == old(self).config(),
    {
        let k = id.to_owned();
        match self.find(&k) {
            Some(i) => {
                self.remove_at(i, Ghost(k@));
                true
            },
            None => false,
        }
    }

    /// The actions of every enabled rule whose conditions all hold for a
    /// request of `ip` with `user_agent`, by rule priority and, within a
    /// rule, in its own order. Counters are read at `now`, never changed; an
    /// unknown reputation counts as the neutral score.
    pub fn evaluate_request(
        &self,
        store: &CounterStore,
        ip: &str,
        _request_size: u64,
        user_agent: &str,
        reputation: Option<u32>,
        now: u64,
    ) -> (r: Vec<RuleAction>)
        requires
            store.wf(),
        ensures
            r@ == fired_actions(self@, store.counters(), now, ip@, user_agent@, score_of(reputation)),
    {
        let score = match reputation {
            Some(s) => s,
            None => NEUTRAL_REPUTATION,
        };
        let ghost m = store.counters();
        let mut actions: Vec<RuleAction> = Vec::new();
        let mut i: usize = 0;
        while i < self.rules.len()
            invariant
                store.wf(),
                i <= self@.len(),
                self@ == self.rules@,
                m == store.counters(),
                actions@ == fired_actions(self@.subrange(0, i as int), m, now, ip@, user_agent@, score),
            decreases self@.len() - i,
        {
            let rule = &self.rules[i];
            proof {
                assert(self@.subrange(0, i + 1).drop_last() =~= self@.subrange(0, i as int));
                assert(self@.subrange(0, i + 1).last() == *rule);
            }
            if rule_met(rule, store, ip, user_agent, score, now) {
                let ghost base = actions@;
                let mut j: usize = 0;
                while j < rule.actions.len()
                    invariant
                        j <= rule.actions@.len(),
                        actions@ == base + rule.actions@.subrange(0, j as int),
                    decreases rule.actions@.len() - j,
                {
                    actions.push(rule.actions[j].clone());
                    j += 1;
                    proof {
                        assert(actions@ =~= base + rule.actions@.subrange(0, j as int));
                    }
                }
                proof {
                    assert(rule.actions@.subrange(0, j as int) =~= rule.actions@);
                }
            }
            i += 1;
        }
        proof {
            assert(self@.subrange(0, self@.len() as int) =~= self@);
        }
        actions
    }

    /// Replaces the rule set by `rules`, added one after the other.
    pub fn load_rules(&mut self, rules: Vec<Rule>)
        requires
            old(self).wf(),
        ensures
            final(self).wf(),
            final(self)@ == added_all(Seq::empty(), rules@),
            final(self).config() == old(self).config(),
    {
        self.rules = Vec::new();
        let ghost all = rules@;
        let n = rules.len();
        let mut rest = rules;
        let mut i: usize = 0;
        while i < n
            invariant
                self.wf(),
                self.config() == old(self).config(),
                n == all.len(),
                i <= n,
                rest@ == all.subrange(i as int, all.len() as int),
                self@ == added_all(Seq::empty(), all.subrange(0, i as int)),
            decreases n - i,
        {
            let rule = rest.remove(0);
            proof {
                assert(all.subrange(0, i + 1).drop_last() =~= all.subrange(0, i as int));
                assert(rest@ =~= all.subrange(i + 1, all.len() as int));
            }
            self.add_rule(rule);
            i += 1;
        }
        proof {
            assert(all.subrange(0, i as int) =~= all);
        }
    }

    /// The enabled rules, by descending priority.
    pub fn enabled_rules(&self) -> (r: Vec<Rule>)
        ensures
            same_rules(r@, enabled_of(self@)),
    {
        let mut r: Vec<Rule> = Vec::new();
        let mut i: usize = 0;
        while i < self.rules.len()
            invariant
                i <= self@.len(),
                self@ == self.rules@,
                same_rules(r@, enabled_of(self@.subrange(0, i as int))),
            decreases self@.len() - i,
        {
            proof {
                assert(self@.subrange(0, i + 1).drop_last() =~= self@.subrange(0, i as int));
            }
            if self.rules[i].enabled {
                r.push(self.rules[i].clone());
            }
            i += 1;
        }
        proof {
            assert(self@.subrange(0, self@.len() as int) =~= self@);
        }
        r
    }
}

} // verus!
