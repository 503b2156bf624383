use pi_status::cpu::{parse_cpu_rows, CpuErr, CpuUsage};

fn row(label: &str, base: u64) -> String {
    format!(
        "{} {} {} {} {} {} {} {} {} {} {}",
        label,
        base,
        base + 1,
        base + 2,
        base + 3,
        base + 4,
        base + 5,
        base + 6,
        base + 7,
        base + 8,
        base + 9
    )
}

#[test]
fn first_round_reports_raw_counters() {
    let text = format!("{}\n{}\nintr 0 0 0 0 0 0 0 0 0 0\n", row("cpu", 100), row("cpu0", 50));
    let mut cpu = CpuUsage::new();
    assert!(cpu.update(&text).is_ok());
    assert_eq!(cpu.usage.len(), 2);
    assert_eq!(cpu.usage[0].user, 100);
    assert_eq!(cpu.usage[0].guest_nice, 109);
    assert_eq!(cpu.usage[1].user, 50);
    assert_eq!(cpu.usage[1].idle, 53);
}

#[test]
fn second_round_reports_exact_deltas() {
    let round1 = format!("{}\n{}\n", row("cpu", 1000), row("cpu0", 2000));
    let mut bumped1 = String::new();
    let mut bumped2 = String::new();
    // every field of the first row moves by 10, of the second by 5
    bumped1.push_str("cpu");
    bumped2.push_str("cpu0");
    for i in 0..10u64 {
        bumped1.push_str(&format!(" {}", 1000 + i + 10));
        bumped2.push_str(&format!(" {}", 2000 + i + 5));
    }
    let round2 = format!("{}\n{}\n", bumped1, bumped2);

    let mut cpu = CpuUsage::new();
    assert!(cpu.update(&round1).is_ok());
    assert!(cpu.update(&round2).is_ok());
    assert_eq!(cpu.usage.len(), 2);
    let first = &cpu.usage[0];
    assert_eq!(
        (first.user, first.nice, first.system, first.idle, first.iowait),
        (10, 10, 10, 10, 10)
    );
    assert_eq!(
        (first.irq, first.softirq, first.steal, first.guest, first.guest_nice),
        (10, 10, 10, 10, 10)
    );
    let second = &cpu.usage[1];
    assert_eq!((second.user, second.idle, second.guest_nice), (5, 5, 5));
}

#[test]
fn changed_core_count_fails_and_keeps_last_usage() {
    let round1 = format!("{}\n{}\n", row("cpu", 10), row("cpu0", 20));
    let round2 = format!("{}\n{}\n{}\n", row("cpu", 30), row("cpu0", 40), row("cpu1", 50));
    let mut cpu = CpuUsage::new();
    assert!(cpu.update(&round1).is_ok());
    let before: Vec<u64> = cpu.usage.iter().map(|c| c.user).collect();
    let r = cpu.update(&round2);
    assert_eq!(r, Err(CpuErr::CoresChanged));
    let after: Vec<u64> = cpu.usage.iter().map(|c| c.user).collect();
    assert_eq!(before, after);
}

#[test]
fn fewer_rows_also_fail() {
    let round1 = format!("{}\n{}\n", row("cpu", 10), row("cpu0", 20));
    let round2 = format!("{}\n", row("cpu", 30));
    let mut cpu = CpuUsage::new();
    assert!(cpu.update(&round1).is_ok());
    assert_eq!(cpu.update(&round2), Err(CpuErr::CoresChanged));
}

#[test]
fn malformed_counter_field_fails() {
    let text = "cpu 1 2 3 4 5 6 7 8 9 x\n";
    let mut cpu = CpuUsage::new();
    assert_eq!(cpu.update(text), Err(CpuErr::Malformed));
    assert!(cpu.usage.is_empty());
}

#[test]
fn parsing_stops_at_first_non_row_line() {
    let text = format!("{}\nctxt 12345\n{}\n", row("cpu", 7), row("cpu0", 9));
    let rows = parse_cpu_rows(&text).unwrap();
    assert_eq!(rows.len(), 1);
    assert_eq!(rows[0].user, 7);
}

#[test]
fn interrupt_row_stops_parsing_even_with_eleven_fields() {
    let text = format!("{}\nintr 1 2 3 4 5 6 7 8 9 10\n", row("cpu", 7));
    let rows = parse_cpu_rows(&text).unwrap();
    assert_eq!(rows.len(), 1);
}

#[test]
fn counter_moving_backwards_saturates_to_zero() {
    let round1 = format!("{}\n", row("cpu", 100));
    let round2 = format!("{}\n", row("cpu", 40));
    let mut cpu = CpuUsage::new();
    assert!(cpu.update(&round1).is_ok());
    assert!(cpu.update(&round2).is_ok());
    assert_eq!(cpu.usage[0].user, 0);
}
