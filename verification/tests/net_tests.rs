use pi_status::net::{compute_speed, dedup_by_path, IfaStats, NetData, NetworkInterface};

fn iface(name: &str) -> NetworkInterface {
    NetworkInterface::new(format!("/sys/class/net/{}", name), name.to_string())
}

fn sample(name: &str, up: u64, down: u64, ts: u128) -> IfaStats {
    IfaStats::fresh(iface(name), up, down, ts)
}

#[test]
fn bootstrap_interface_reports_zero_speeds() {
    let mut net = NetData::new();
    net.update(&vec![sample("eth0", 100, 200, 0)]);
    assert_eq!(net.stats.len(), 1);
    let s = &net.stats[0];
    assert_eq!(s.upload_speed, 0);
    assert_eq!(s.download_speed, 0);
    assert_eq!(s.upload_total, 100);
    assert_eq!(s.download_total, 200);
    assert!(s.has_updated);
}

#[test]
fn speeds_round_half_up_to_fifty_one() {
    let mut net = NetData::new();
    net.update(&vec![sample("eth0", 100, 200, 0)]);
    net.update(&vec![sample("eth0", 150, 250, 1000)]);
    let s = &net.stats[0];
    // 50 bytes over 1000 ms, times 1024: 51.2 rounds to 51
    assert_eq!(s.upload_speed, 51);
    assert_eq!(s.download_speed, 51);
    assert_eq!(s.upload_total, 150);
    assert_eq!(s.download_total, 250);
    assert_eq!(s.timestamp, 1000);
    assert!(s.has_updated);
}

#[test]
fn exact_half_rounds_up() {
    let a = sample("eth0", 0, 0, 0);
    let b = sample("eth0", 1, 1, 2048);
    // 1 byte over 2048 ms, times 1024: exactly 0.5 rounds up to 1
    let mut net = NetData::new();
    net.update(&vec![a]);
    net.update(&vec![b]);
    assert_eq!(net.stats[0].upload_speed, 1);
}

#[test]
fn compute_speed_alone_matches_the_update_path() {
    let old = sample("eth0", 100, 200, 0);
    let cur = sample("eth0", 150, 250, 1000);
    let out = compute_speed(&cur, &old);
    assert_eq!(out.upload_speed, 51);
    assert_eq!(out.download_speed, 51);
}

#[test]
fn zero_elapsed_time_reports_zero_speed() {
    let mut net = NetData::new();
    net.update(&vec![sample("eth0", 100, 100, 500)]);
    net.update(&vec![sample("eth0", 900, 900, 500)]);
    assert_eq!(net.stats[0].upload_speed, 0);
    assert_eq!(net.stats[0].download_speed, 0);
}

#[test]
fn absent_interface_is_retained_stale() {
    let mut net = NetData::new();
    net.update(&vec![sample("eth0", 100, 200, 0), sample("wlan0", 10, 20, 0)]);
    net.update(&vec![sample("eth0", 150, 250, 1000)]);
    assert_eq!(net.stats.len(), 2);
    let stale = net
        .stats
        .iter()
        .find(|s| s.interface.interface_name == "wlan0")
        .unwrap();
    assert!(!stale.has_updated);
    assert_eq!(stale.upload_total, 10);
    assert_eq!(stale.download_total, 20);
    assert_eq!(stale.upload_speed, 0);
    assert_eq!(stale.download_speed, 0);
    assert_eq!(stale.timestamp, 0);
}

#[test]
fn returning_interface_deltas_across_the_gap() {
    let mut net = NetData::new();
    net.update(&vec![sample("eth0", 100, 100, 0)]);
    net.update(&Vec::new());
    assert!(!net.stats[0].has_updated);
    net.update(&vec![sample("eth0", 1124, 100, 1024)]);
    let s = &net.stats[0];
    // 1024 bytes over 1024 ms, times 1024
    assert_eq!(s.upload_speed, 1024);
    assert!(s.has_updated);
}

#[test]
fn counters_moving_backwards_saturate_to_zero_speed() {
    let mut net = NetData::new();
    net.update(&vec![sample("eth0", 500, 500, 0)]);
    net.update(&vec![sample("eth0", 100, 100, 1000)]);
    assert_eq!(net.stats[0].upload_speed, 0);
    assert_eq!(net.stats[0].download_speed, 0);
}

#[test]
fn duplicate_enumeration_paths_are_dropped() {
    let entries = vec![iface("eth0"), iface("eth0"), iface("wlan0")];
    let unique = dedup_by_path(&entries);
    assert_eq!(unique.len(), 2);
    assert_eq!(unique[0].interface_name, "eth0");
    assert_eq!(unique[1].interface_name, "wlan0");
}
