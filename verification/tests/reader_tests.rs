use pi_status::disk::{fs_data_from_stat, parse_mounts, DiskData, MountEntry};
use pi_status::host::{HostData, HostErr};
use pi_status::ram::{MemRetrievalErr, RamData};
use pi_status::temp::TempData;

#[test]
fn ram_values_scale_to_bytes() {
    let meminfo = "MemTotal:       16000 kB\nMemFree:         4000 kB\nMemAvailable:   10000 kB\nBuffers:          123 kB\nCached:          3000 kB\n";
    let ram = RamData::get(meminfo).unwrap();
    assert_eq!(ram.total, 16000 * 1024);
    assert_eq!(ram.free, 4000 * 1024);
    assert_eq!(ram.available, 10000 * 1024);
    assert_eq!(ram.cached, 3000 * 1024);
    assert_eq!(ram.used, (16000 - 10000) * 1024);
}

#[test]
fn ram_missing_label_is_not_enough_values() {
    let meminfo = "MemTotal: 1 kB\nMemFree: 1 kB\nCached: 1 kB\n";
    assert_eq!(RamData::get(meminfo), Err(MemRetrievalErr::NotEnoughValues));
}

#[test]
fn ram_bad_number_is_malformed() {
    let meminfo = "MemTotal: x kB\nMemFree: 1 kB\nMemAvailable: 1 kB\nCached: 1 kB\n";
    assert_eq!(RamData::get(meminfo), Err(MemRetrievalErr::Malformed));
}

#[test]
fn ram_overflowing_value_is_malformed() {
    let meminfo = "MemTotal: 18446744073709551615 kB\nMemFree: 1 kB\nMemAvailable: 1 kB\nCached: 1 kB\n";
    assert_eq!(RamData::get(meminfo), Err(MemRetrievalErr::Malformed));
}

#[test]
fn host_reads_trimmed_name_and_whole_seconds() {
    let host = HostData::get("raspberry\n", "12345.67 99999.99\n").unwrap();
    assert_eq!(host.hostname, "raspberry");
    assert_eq!(host.uptime, 12345);
}

#[test]
fn host_rejects_a_malformed_uptime() {
    assert!(matches!(
        HostData::get("pi\n", "soon.0\n"),
        Err(HostErr::MalformedUptimeFile)
    ));
}

#[test]
fn temperature_parses_millidegrees() {
    assert_eq!(TempData::get("45234\n").unwrap().millidegrees, 45234);
    assert_eq!(TempData::get("-5250\n").unwrap().millidegrees, -5250);
    assert!(TempData::get("warm\n").is_none());
    assert!(TempData::get("").is_none());
}

#[test]
fn mounts_parse_and_exclude_virtual_trees() {
    let mounts = "sysfs /sys/fs sysfs rw 0 0\n/dev/sda1 / ext4 rw 0 0\nproc /proc proc rw 0 0\ntmpfs /tmp tmpfs rw 0 0\n/dev/sda2 /home ext4 rw 0 0\nshort\n";
    let entries = parse_mounts(mounts);
    assert_eq!(entries.len(), 2);
    assert_eq!(entries[0].filesystem, "/dev/sda1");
    assert_eq!(entries[0].mountpoint, "/");
    assert_eq!(entries[1].mountpoint, "/home");
}

#[test]
fn fs_sizes_multiply_block_counts() {
    let entry = MountEntry { filesystem: "/dev/sda1".to_string(), mountpoint: "/".to_string() };
    let f = fs_data_from_stat(entry, 4096, 1000, 250).unwrap();
    assert_eq!(f.total, 4096 * 1000);
    assert_eq!(f.available, 4096 * 250);
}

#[test]
fn fs_sizes_that_overflow_drop_the_entry() {
    let entry = MountEntry { filesystem: "x".to_string(), mountpoint: "/".to_string() };
    assert!(fs_data_from_stat(entry, u64::MAX, 2, 1).is_none());
}

#[test]
fn disk_probe_of_the_root_filesystem_reports_sizes() {
    let disk = DiskData::get("rootfs / rootfs rw 0 0\n");
    assert_eq!(disk.filesystems.len(), 1);
    assert_eq!(disk.filesystems[0].mountpoint, "/");
    assert!(disk.filesystems[0].total > 0);
}

#[test]
fn disk_reports_one_row_per_probed_line_in_file_order() {
    let disk = DiskData::get("first / a 0 0\nsecond / b 0 0\n");
    assert_eq!(disk.filesystems.len(), 2);
    assert_eq!(disk.filesystems[0].filesystem, "first");
    assert_eq!(disk.filesystems[1].filesystem, "second");
}
