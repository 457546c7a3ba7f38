use ddos_protection_service::api::check_ddos;
use ddos_protection_service::api::DdosCheckRequest;
use ddos_protection_service::ddos_detector::anomaly_in;
use ddos_protection_service::ddos_detector::DdosDetectionConfig;
use ddos_protection_service::ddos_detector::DdosDetector;
use ddos_protection_service::ddos_detector::DetectionSignal;
use ddos_protection_service::store::CounterStore;

fn config() -> DdosDetectionConfig {
    DdosDetectionConfig {
        connection_rate_threshold: 2,
        connection_rate_window: 60,
        request_rate_threshold: 1000,
        request_rate_window: 60,
        traffic_volume_threshold: 10_000_000,
        traffic_volume_window: 60,
        anomaly_threshold: 3000,
        anomaly_window: 300,
    }
}

#[test]
fn test_connection_detection() {
    let detector = DdosDetector::new(config());
    let mut store = CounterStore::new();
    let now = 50;

    // First connection should be allowed
    assert!(!detector.check_connection(&mut store, "127.0.0.1", now));
    // Second connection should be allowed
    assert!(!detector.check_connection(&mut store, "127.0.0.1", now));
    // Third connection should be blocked
    assert!(detector.check_connection(&mut store, "127.0.0.1", now));
    // Reset should allow new connections
    detector.reset_detection(&mut store, "127.0.0.1");
    assert!(!detector.check_connection(&mut store, "127.0.0.1", now));
}

#[test]
fn connection_threshold_two_scenario() {
    let detector = DdosDetector::new(config());
    let mut store = CounterStore::new();
    assert!(!detector.check_connection(&mut store, "X", 0));
    assert!(!detector.check_connection(&mut store, "X", 1));
    assert!(detector.check_connection(&mut store, "X", 2));
    assert_eq!(store.get("ddos_connection:X", 2), 2);
    detector.reset_detection(&mut store, "X");
    assert_eq!(store.get("ddos_connection:X", 2), 0);
    assert!(!detector.check_connection(&mut store, "X", 3));
}

#[test]
fn default_detection_config() {
    let c = DdosDetectionConfig::default();
    assert_eq!(c.connection_rate_threshold, 100);
    assert_eq!(c.request_rate_threshold, 1000);
    assert_eq!(c.traffic_volume_threshold, 10_000_000);
    assert_eq!(c.anomaly_threshold, 3000);
    assert_eq!(c.anomaly_window, 300);
}

#[test]
fn request_rate_threshold_blocks() {
    let mut c = config();
    c.request_rate_threshold = 2;
    let detector = DdosDetector::new(c);
    let mut store = CounterStore::new();
    assert_eq!(detector.inspect_request(&mut store, "r", 10, 0), None);
    assert_eq!(detector.inspect_request(&mut store, "r", 10, 0), None);
    assert_eq!(detector.inspect_request(&mut store, "r", 10, 0), Some(DetectionSignal::RequestRate));
    assert_eq!(store.get("request_rate:r:60", 0), 3);
    assert_eq!(store.get("ddos_request:r", 0), 0);
    assert_eq!(store.time_to_live("ddos_request:r", 0), 60);
}

#[test]
fn traffic_volume_sums_sizes() {
    let mut c = config();
    c.traffic_volume_threshold = 1_000;
    let detector = DdosDetector::new(c);
    let mut store = CounterStore::new();
    assert!(!detector.check_request(&mut store, "t", 600, 0));
    assert!(detector.check_request(&mut store, "t", 401, 1));
    assert_eq!(store.get("traffic_volume:t:60", 1), 1_001);
    assert_eq!(store.samples("traffic_history:t"), vec![600, 401]);
}

#[test]
fn ddos_check_names_the_signal() {
    let mut c = config();
    c.traffic_volume_threshold = 100;
    let detector = DdosDetector::new(c);
    let mut store = CounterStore::new();
    let req = DdosCheckRequest { ip: "v".to_string(), request_size: 50 };
    let ok = check_ddos(&detector, &mut store, &req, 0);
    assert!(!ok.is_under_attack);
    assert_eq!(ok.detection_type, None);
    let big = DdosCheckRequest { ip: "v".to_string(), request_size: 500 };
    let hit = check_ddos(&detector, &mut store, &big, 0);
    assert!(hit.is_under_attack);
    assert_eq!(hit.detection_type.as_deref(), Some("traffic_volume"));
}

#[test]
fn no_anomaly_with_fewer_than_two_samples() {
    assert!(!anomaly_in(&vec![], 0));
    assert!(!anomaly_in(&vec![1_000_000], 0));
    let detector = DdosDetector::new(config());
    let mut store = CounterStore::new();
    assert!(!detector.detect_anomaly(&mut store, "n", 0));
    detector.check_request(&mut store, "n", 5, 0);
    assert!(!detector.detect_anomaly(&mut store, "n", 0));
}

#[test]
fn no_anomaly_when_all_samples_are_equal() {
    assert!(!anomaly_in(&vec![7, 7, 7, 7], 0));
    assert!(!anomaly_in(&vec![u32::MAX; 64], 0));
    assert!(!anomaly_in(&vec![0, 0], 3000));
}

#[test]
fn spike_is_anomalous() {
    // nine samples of 100 and a spike of 10_000: z is about 2.85
    let mut h = vec![100u32; 9];
    h.push(10_000);
    assert!(anomaly_in(&h, 2_800));
    assert!(!anomaly_in(&h, 2_900));
    // two samples: z of the newer one is always 1/sqrt(2), about 0.707
    assert!(anomaly_in(&vec![1, 2], 700));
    assert!(!anomaly_in(&vec![1, 2], 708));
}

#[test]
fn anomaly_sets_its_marker() {
    let mut c = config();
    c.anomaly_threshold = 2_000;
    let detector = DdosDetector::new(c);
    let mut store = CounterStore::new();
    for _ in 0..9 {
        detector.check_request(&mut store, "s", 100, 0);
    }
    assert!(!detector.detect_anomaly(&mut store, "s", 0));
    detector.check_request(&mut store, "s", 10_000, 0);
    assert!(detector.detect_anomaly(&mut store, "s", 0));
    assert_eq!(store.time_to_live("ddos_anomaly:s", 0), 300);
    detector.reset_detection(&mut store, "s");
    assert!(store.samples("traffic_history:s").is_empty());
    assert_eq!(store.time_to_live("ddos_anomaly:s", 0), 0);
}
