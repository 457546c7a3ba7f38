use ddos_protection_service::admission::admit_connection;
use ddos_protection_service::admission::admit_request;
use ddos_protection_service::admission::contains_block;
use ddos_protection_service::admission::DenyReason;
use ddos_protection_service::api::create_rule;
use ddos_protection_service::api::delete_rule;
use ddos_protection_service::api::get_rule;
use ddos_protection_service::api::get_rules;
use ddos_protection_service::api::health_check;
use ddos_protection_service::api::update_rule;
use ddos_protection_service::api::RuleRequest;
use ddos_protection_service::ddos_detector::DdosDetectionConfig;
use ddos_protection_service::ddos_detector::DdosDetector;
use ddos_protection_service::models::RateLimitConfig;
use ddos_protection_service::models::RuleConfig;
use ddos_protection_service::rate_limiter::RateLimiter;
use ddos_protection_service::rule_engine::Rule;
use ddos_protection_service::rule_engine::RuleAction;
use ddos_protection_service::rule_engine::RuleCondition;
use ddos_protection_service::rule_engine::RuleEngine;
use ddos_protection_service::store::CounterStore;
use ddos_protection_service::utils::format_window_key;

fn engine() -> RuleEngine {
    RuleEngine::new(RuleConfig { rules_file: None, default_priority: 0, enabled: true })
}

fn rule(id: &str, priority: i32, conditions: Vec<RuleCondition>, actions: Vec<RuleAction>) -> Rule {
    Rule {
        id: id.to_string(),
        name: format!("rule {}", id),
        description: None,
        conditions,
        actions,
        priority,
        enabled: true,
    }
}

fn high_traffic_rule() -> Rule {
    Rule {
        id: "rule1".to_string(),
        name: "High Traffic Rule".to_string(),
        description: Some("Detect high traffic".to_string()),
        conditions: vec![RuleCondition::RequestRate { threshold: 100, window_seconds: 60 }],
        actions: vec![RuleAction::Block { duration_seconds: 300 }],
        priority: 1,
        enabled: true,
    }
}

#[test]
fn test_rule_engine() {
    let mut engine = engine();
    engine.add_rule(high_traffic_rule());

    // the live request counter of the source stands at 150
    let mut store = CounterStore::new();
    let key = format_window_key("request_rate", "127.0.0.1", 60);
    store.set_with_expiry(&key, 150, 60, 0);

    let actions = engine.evaluate_request(&store, "127.0.0.1", 150, "Mozilla/5.0", None, 0);

    // Check that one action was triggered
    assert_eq!(actions.len(), 1);
    assert_eq!(actions[0], RuleAction::Block { duration_seconds: 300 });
}

#[test]
fn request_rate_rule_fires_only_above_threshold() {
    let mut engine = engine();
    engine.add_rule(high_traffic_rule());
    let key = format_window_key("request_rate", "Y", 60);

    let mut busy = CounterStore::new();
    busy.set_with_expiry(&key, 150, 60, 0);
    assert_eq!(
        engine.evaluate_request(&busy, "Y", 0, "", None, 0),
        vec![RuleAction::Block { duration_seconds: 300 }]
    );

    let mut quiet = CounterStore::new();
    quiet.set_with_expiry(&key, 50, 60, 0);
    assert_eq!(engine.evaluate_request(&quiet, "Y", 0, "", None, 0), vec![]);

    // an expired counter reads as zero
    assert_eq!(engine.evaluate_request(&busy, "Y", 0, "", None, 60), vec![]);
}

#[test]
fn detector_counts_feed_rule_conditions() {
    let mut c = DdosDetectionConfig::default();
    c.request_rate_window = 60;
    let detector = DdosDetector::new(c);
    let mut engine = engine();
    engine.add_rule(rule(
        "r",
        1,
        vec![RuleCondition::RequestRate { threshold: 2, window_seconds: 60 }],
        vec![RuleAction::RateLimit { requests_per_second: 1 }],
    ));
    let mut store = CounterStore::new();
    for _ in 0..2 {
        detector.check_request(&mut store, "d", 1, 0);
    }
    assert!(engine.evaluate_request(&store, "d", 1, "", None, 0).is_empty());
    detector.check_request(&mut store, "d", 1, 0);
    assert_eq!(
        engine.evaluate_request(&store, "d", 1, "", None, 0),
        vec![RuleAction::RateLimit { requests_per_second: 1 }]
    );
}

#[test]
fn actions_follow_priority_then_insertion_order() {
    let mut engine = engine();
    engine.add_rule(rule("low", 1, vec![], vec![RuleAction::Block { duration_seconds: 1 }]));
    engine.add_rule(rule("high_a", 5, vec![], vec![RuleAction::Block { duration_seconds: 2 }]));
    engine.add_rule(rule(
        "high_b",
        5,
        vec![],
        vec![
            RuleAction::Block { duration_seconds: 3 },
            RuleAction::Log { level: "warn".to_string(), message: "m".to_string() },
        ],
    ));
    let ids: Vec<String> = engine.get_rules().into_iter().map(|r| r.id).collect();
    assert_eq!(ids, vec!["high_a", "high_b", "low"]);
    let store = CounterStore::new();
    let actions = engine.evaluate_request(&store, "ip", 0, "ua", None, 0);
    assert_eq!(
        actions,
        vec![
            RuleAction::Block { duration_seconds: 2 },
            RuleAction::Block { duration_seconds: 3 },
            RuleAction::Log { level: "warn".to_string(), message: "m".to_string() },
            RuleAction::Block { duration_seconds: 1 },
        ]
    );
}

#[test]
fn repeated_evaluation_gives_the_same_actions() {
    let mut engine = engine();
    engine.add_rule(rule("a", 2, vec![], vec![RuleAction::RateLimit { requests_per_second: 9 }]));
    engine.add_rule(rule(
        "b",
        3,
        vec![RuleCondition::UserAgent { pattern: "bot".to_string() }],
        vec![RuleAction::Notify { channel: "ops".to_string(), message: "bot".to_string() }],
    ));
    let store = CounterStore::new();
    let first = engine.evaluate_request(&store, "ip", 0, "evilbot/1.0", None, 0);
    let second = engine.evaluate_request(&store, "ip", 0, "evilbot/1.0", None, 0);
    assert_eq!(first, second);
    assert_eq!(first.len(), 2);
}

#[test]
fn disabled_rules_and_failed_conditions_do_not_fire() {
    let mut engine = engine();
    let mut off = rule("off", 9, vec![], vec![RuleAction::Block { duration_seconds: 1 }]);
    off.enabled = false;
    engine.add_rule(off);
    engine.add_rule(rule(
        "ua",
        1,
        vec![
            RuleCondition::UserAgent { pattern: "curl".to_string() },
            RuleCondition::IpReputation { min_score: 3 },
        ],
        vec![RuleAction::Block { duration_seconds: 2 }],
    ));
    let store = CounterStore::new();
    assert!(engine.evaluate_request(&store, "i", 0, "Mozilla/5.0", None, 0).is_empty());
    // unknown reputation counts as the neutral score 5
    assert_eq!(engine.evaluate_request(&store, "i", 0, "curl/8.0", None, 0).len(), 1);
    assert_eq!(engine.evaluate_request(&store, "i", 0, "curl/8.0", Some(2), 0).len(), 0);
    assert_eq!(engine.evaluate_request(&store, "i", 0, "curl/8.0", Some(3), 0).len(), 1);
    assert_eq!(engine.enabled_rules().len(), 1);
}

#[test]
fn user_agent_condition_is_a_substring_test() {
    let mut engine = engine();
    engine.add_rule(rule(
        "u",
        0,
        vec![RuleCondition::UserAgent { pattern: "la/5".to_string() }],
        vec![RuleAction::Block { duration_seconds: 1 }],
    ));
    let store = CounterStore::new();
    assert_eq!(engine.evaluate_request(&store, "i", 0, "Mozilla/5.0", None, 0).len(), 1);
    assert_eq!(engine.evaluate_request(&store, "i", 0, "Mozilla/4.0", None, 0).len(), 0);
    assert_eq!(engine.evaluate_request(&store, "i", 0, "la/", None, 0).len(), 0);
}

#[test]
fn traffic_volume_condition_reads_the_byte_counter() {
    let mut engine = engine();
    engine.add_rule(rule(
        "tv",
        0,
        vec![RuleCondition::TrafficVolume { threshold_bytes: 1_000, window_seconds: 30 }],
        vec![RuleAction::Block { duration_seconds: 5 }],
    ));
    let mut store = CounterStore::new();
    let key = format_window_key("traffic_volume", "z", 30);
    store.set_with_expiry(&key, 1_000, 30, 0);
    assert!(engine.evaluate_request(&store, "z", 0, "", None, 0).is_empty());
    store.increment_with_window(&key, 1, 30, 1);
    assert_eq!(engine.evaluate_request(&store, "z", 0, "", None, 1).len(), 1);
}

#[test]
fn add_then_get_round_trip() {
    let mut engine = engine();
    let r = high_traffic_rule();
    engine.add_rule(r.clone());
    assert_eq!(engine.get_rule("rule1"), Some(r.clone()));
    assert!(engine.remove_rule("rule1"));
    assert_eq!(engine.get_rule("rule1"), None);
    assert!(!engine.remove_rule("rule1"));
}

#[test]
fn adding_an_existing_id_replaces_the_rule() {
    let mut engine = engine();
    engine.add_rule(rule("x", 1, vec![], vec![]));
    engine.add_rule(rule("x", 7, vec![], vec![RuleAction::Block { duration_seconds: 4 }]));
    let rules = engine.get_rules();
    assert_eq!(rules.len(), 1);
    assert_eq!(rules[0].priority, 7);
}

#[test]
fn update_keeps_the_id_and_reorders() {
    let mut engine = engine();
    engine.add_rule(rule("a", 5, vec![], vec![]));
    engine.add_rule(rule("b", 3, vec![], vec![]));
    let mut changed = rule("ignored", 9, vec![], vec![]);
    changed.enabled = false;
    assert!(engine.update_rule("b", changed));
    let rules = engine.get_rules();
    assert_eq!(rules[0].id, "b");
    assert_eq!(rules[0].priority, 9);
    assert!(!rules[0].enabled);
    assert_eq!(rules[1].id, "a");
    assert!(!engine.update_rule("missing", rule("c", 0, vec![], vec![])));
    assert_eq!(engine.get_rules().len(), 2);
}

#[test]
fn load_rules_replaces_the_set() {
    let mut engine = engine();
    engine.add_rule(rule("old", 1, vec![], vec![]));
    engine.load_rules(vec![rule("p", 1, vec![], vec![]), rule("q", 2, vec![], vec![]), rule("p", 0, vec![], vec![])]);
    let rules = engine.get_rules();
    assert_eq!(rules.len(), 2);
    assert_eq!(rules[0].id, "q");
    assert_eq!(rules[1].id, "p");
    assert_eq!(rules[1].priority, 0);
}

fn request(name: &str, priority: i32) -> RuleRequest {
    RuleRequest {
        name: name.to_string(),
        description: Some("d".to_string()),
        conditions: vec![RuleCondition::IpReputation { min_score: 1 }],
        actions: vec![RuleAction::Notify { channel: "c".to_string(), message: "m".to_string() }],
        priority,
        enabled: true,
    }
}

#[test]
fn created_rules_get_fresh_ids_and_read_back() {
    let mut engine = engine();
    let a = create_rule(&mut engine, request("first", 1));
    let b = create_rule(&mut engine, request("second", 2));
    assert!(a.id.starts_with("rule_"));
    assert_eq!(a.id.len(), 41);
    assert_eq!(a.id.matches('-').count(), 4);
    assert_ne!(a.id, b.id);
    assert_eq!(a.name, "first");
    assert_eq!(a.priority, 1);
    let got = get_rule(&engine, &a.id).unwrap();
    assert_eq!(got.id, a.id);
    assert_eq!(got.name, "first");
    assert_eq!(got.description.as_deref(), Some("d"));
    assert_eq!(got.conditions, vec![RuleCondition::IpReputation { min_score: 1 }]);
    let all = get_rules(&engine);
    assert_eq!(all.len(), 2);
    assert_eq!(all[0].name, "second");
    assert!(update_rule(&mut engine, &a.id, request("renamed", 3)));
    assert_eq!(get_rule(&engine, &a.id).unwrap().name, "renamed");
    assert!(delete_rule(&mut engine, &a.id));
    assert!(get_rule(&engine, &a.id).is_none());
    assert!(!delete_rule(&mut engine, &a.id));
}

#[test]
fn test_health_check() {
    let resp = health_check("0.1.0");
    assert_eq!(resp.status, "ok");
    assert_eq!(resp.version, "0.1.0");
}

#[test]
fn block_actions_are_found() {
    assert!(!contains_block(&vec![]));
    assert!(contains_block(&vec![
        RuleAction::RateLimit { requests_per_second: 1 },
        RuleAction::Block { duration_seconds: 1 },
    ]));
}

fn parts(limit: u32) -> (DdosDetector, RateLimiter) {
    let mut c = DdosDetectionConfig::default();
    c.request_rate_threshold = 5;
    (
        DdosDetector::new(c),
        RateLimiter::new(RateLimitConfig { default_limit: limit, burst_size: 0, window_seconds: 60 }),
    )
}

#[test]
fn admission_runs_detector_limiter_then_rules() {
    let (detector, limiter) = parts(2);
    let mut engine = engine();
    engine.add_rule(rule(
        "ua",
        0,
        vec![RuleCondition::UserAgent { pattern: "bad".to_string() }],
        vec![RuleAction::Block { duration_seconds: 10 }],
    ));
    let mut store = CounterStore::new();
    let first = admit_request(&detector, &limiter, &engine, &mut store, "p", 10, "good", None, 0);
    assert!(first.allow);
    assert_eq!(first.reason, None);
    assert_eq!(first.remaining, Some(1));
    assert!(first.actions.is_empty());
    let blocked = admit_request(&detector, &limiter, &engine, &mut store, "p", 10, "bad", None, 0);
    assert!(!blocked.allow);
    assert_eq!(blocked.reason, Some(DenyReason::Rule));
    assert_eq!(blocked.actions, vec![RuleAction::Block { duration_seconds: 10 }]);
    let limited = admit_request(&detector, &limiter, &engine, &mut store, "p", 10, "good", None, 15);
    assert!(!limited.allow);
    assert_eq!(limited.reason, Some(DenyReason::RateLimit));
    assert_eq!(limited.retry_after, Some(45));
}

#[test]
fn admission_refuses_flagged_sources() {
    let (detector, limiter) = parts(100);
    let engine = engine();
    let mut store = CounterStore::new();
    for _ in 0..5 {
        assert!(admit_request(&detector, &limiter, &engine, &mut store, "f", 1, "", None, 0).allow);
    }
    let sixth = admit_request(&detector, &limiter, &engine, &mut store, "f", 1, "", None, 0);
    assert!(!sixth.allow);
    assert_eq!(sixth.reason, Some(DenyReason::Ddos));
    let mut c = DdosDetectionConfig::default();
    c.connection_rate_threshold = 1;
    let detector = DdosDetector::new(c);
    assert!(admit_connection(&detector, &mut store, "f", 0).allow);
    let second = admit_connection(&detector, &mut store, "f", 10);
    assert!(!second.allow);
    assert_eq!(second.reason, Some(DenyReason::Ddos));
    assert_eq!(second.retry_after, Some(50));
}
