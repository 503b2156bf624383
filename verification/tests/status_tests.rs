use pi_status::net::{IfaStats, NetworkInterface};
use pi_status::pace::PaceMode;
use pi_status::status::{status_json, Engine, RoundInput, Status};

fn no_input() -> RoundInput {
    RoundInput { host: None, temp: None, net: None, cpu: None, ram: None, disk: None, proc: None }
}

fn parse(s: &str) -> serde_json::Value {
    serde_json::from_str(s).expect("the published snapshot must be valid JSON")
}

#[test]
fn all_absent_snapshot_serializes_and_decodes_back() {
    let text = status_json(&Status::empty());
    let v = parse(&text);
    let obj = v.as_object().unwrap();
    assert_eq!(obj.len(), 7);
    for key in ["host", "temp", "net_stats", "cpu_usage", "ram", "disk", "proc"] {
        assert!(obj.get(key).unwrap().is_null());
    }
}

#[test]
fn snapshot_read_is_idempotent() {
    let mut engine = Engine::with_page_size(None);
    assert_eq!(engine.get_current_snapshot_json(), "");
    engine.round(no_input());
    let first = engine.get_current_snapshot_json();
    let second = engine.get_current_snapshot_json();
    assert_eq!(first, second);
}

#[test]
fn one_collector_failure_leaves_the_others_present() {
    let mut engine = Engine::with_page_size(None);
    let mut input = no_input();
    input.cpu = Some("cpu 1 2 3 4 5 6 7 8 9 x\n".to_string());
    input.ram = Some(
        "MemTotal: 100 kB\nMemFree: 10 kB\nMemAvailable: 50 kB\nCached: 5 kB\n".to_string(),
    );
    input.temp = Some("41500\n".to_string());
    engine.round(input);
    let v = parse(&engine.get_current_snapshot_json());
    assert!(v.get("cpu_usage").unwrap().is_null());
    assert_eq!(v["ram"]["total"].as_u64(), Some(102400));
    assert_eq!(v["ram"]["used"].as_u64(), Some(51200));
    assert_eq!(v["temp"].as_f64(), Some(41.5));
    assert!(v.get("host").unwrap().is_null());
}

#[test]
fn cpu_rounds_flow_into_the_published_snapshot() {
    let mut engine = Engine::with_page_size(None);
    let mut input = no_input();
    input.cpu = Some("cpu 10 10 10 10 10 10 10 10 10 10\n".to_string());
    engine.round(input);
    let mut input = no_input();
    input.cpu = Some("cpu 17 10 10 10 10 10 10 10 10 10\n".to_string());
    engine.round(input);
    let v = parse(&engine.get_current_snapshot_json());
    assert_eq!(v["cpu_usage"][0]["user"].as_u64(), Some(7));
    assert_eq!(v["cpu_usage"][0]["nice"].as_u64(), Some(0));
}

#[test]
fn network_samples_flow_into_the_published_snapshot() {
    let mut engine = Engine::with_page_size(None);
    let mut input = no_input();
    input.net = Some(vec![IfaStats::fresh(
        NetworkInterface::new("/sys/class/net/eth0".to_string(), "eth0".to_string()),
        100,
        200,
        0,
    )]);
    engine.round(input);
    let mut input = no_input();
    input.net = Some(vec![IfaStats::fresh(
        NetworkInterface::new("/sys/class/net/eth0".to_string(), "eth0".to_string()),
        150,
        250,
        1000,
    )]);
    engine.round(input);
    let v = parse(&engine.get_current_snapshot_json());
    assert_eq!(v["net_stats"][0]["upload_speed"].as_u64(), Some(51));
    assert_eq!(v["net_stats"][0]["download_speed"].as_u64(), Some(51));
    assert_eq!(v["net_stats"][0]["interface"]["interface_name"].as_str(), Some("eth0"));
    assert_eq!(v["net_stats"][0]["has_updated"].as_bool(), Some(true));
}

#[test]
fn host_names_with_special_characters_survive_the_round_trip() {
    let mut engine = Engine::with_page_size(None);
    let mut input = no_input();
    input.host = Some(("a\"b\\c\nd\u{1}e\t".to_string(), "5.0\n".to_string()));
    engine.round(input);
    let v = parse(&engine.get_current_snapshot_json());
    assert_eq!(v["host"]["hostname"].as_str(), Some("a\"b\\c\nd\u{1}e"));
    assert_eq!(v["host"]["uptime"].as_u64(), Some(5));
}

#[test]
fn negative_temperature_serializes_with_its_fraction() {
    let mut engine = Engine::with_page_size(None);
    let mut input = no_input();
    input.temp = Some("-5250".to_string());
    engine.round(input);
    let v = parse(&engine.get_current_snapshot_json());
    assert_eq!(v["temp"].as_f64(), Some(-5.25));
}

#[test]
fn processes_flow_into_the_published_snapshot() {
    let mut engine = Engine::with_page_size(Some(4096));
    let mut input = no_input();
    let line = "42 (bash) S 1 1 1 1 1 1 1 1 1 1 70 30 1 1 1 1 4 1 777 1 5".to_string();
    input.proc = Some(vec![line]);
    engine.round(input);
    let v = parse(&engine.get_current_snapshot_json());
    assert_eq!(v["proc"][0]["pid"].as_u64(), Some(42));
    assert_eq!(v["proc"][0]["name"].as_str(), Some("bash"));
    assert_eq!(v["proc"][0]["mem"].as_u64(), Some(5 * 4096));
    assert_eq!(v["proc"][0]["cpu_usage"].as_u64(), Some(100));
}

#[test]
fn pacing_follows_the_consumer_counter() {
    let mut engine = Engine::with_page_size(None);
    assert_eq!(engine.pace(), PaceMode::Idle);
    engine.notify_consumer_active();
    assert_eq!(engine.pace(), PaceMode::Active);
    engine.notify_consumer_active();
    engine.notify_consumer_inactive();
    assert_eq!(engine.pace(), PaceMode::Active);
    engine.notify_consumer_inactive();
    assert_eq!(engine.pace(), PaceMode::Idle);
    // an unmatched unsubscribe never wraps the counter around
    engine.notify_consumer_inactive();
    assert_eq!(engine.pace(), PaceMode::Idle);
}
