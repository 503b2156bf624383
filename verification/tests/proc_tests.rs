use pi_status::proc::{is_pid_dir_name, resolve_page_size, validate_pid_dir, ProcDataRetrievalErr,
    ProcessData};

/// Builds one status line with the given fields at their proper offsets,
/// shifted by the number of fields the name occupies.
fn stat_line(pid: u64, name: &str, utime: u64, stime: u64, threads: u64, start: u64, rss: u64)
    -> String {
    let name_field = format!("({})", name);
    let name_tokens: Vec<&str> = name_field.split(' ').collect();
    let si = 1 + name_tokens.len();
    let total = 22 + si;
    let mut toks: Vec<String> = Vec::new();
    toks.push(pid.to_string());
    for t in &name_tokens {
        toks.push(t.to_string());
    }
    toks.push("S".to_string());
    while toks.len() < total {
        toks.push("1".to_string());
    }
    toks[11 + si] = utime.to_string();
    toks[12 + si] = stime.to_string();
    toks[17 + si] = threads.to_string();
    toks[19 + si] = start.to_string();
    toks[21 + si] = rss.to_string();
    toks.join(" ")
}

#[test]
fn plain_name_fields_at_expected_offsets() {
    let mut data = ProcessData::with_page_size(Some(4096));
    let lines = vec![stat_line(42, "bash", 70, 30, 4, 777, 5)];
    data.update(&lines);
    assert_eq!(data.processes.len(), 1);
    let p = &data.processes[0];
    assert_eq!(p.pid, 42);
    assert_eq!(p.name, "bash");
    assert_eq!(p.threads, 4);
    assert_eq!(p.start_time, 777);
    assert_eq!(p.mem, Some(5 * 4096));
    assert_eq!(p.cpu_usage, 100);
}

#[test]
fn name_with_embedded_space_shifts_later_fields() {
    let mut data = ProcessData::with_page_size(Some(4096));
    let lines = vec![stat_line(7, "my process", 11, 9, 3, 555, 2)];
    data.update(&lines);
    assert_eq!(data.processes.len(), 1);
    let p = &data.processes[0];
    assert_eq!(p.name, "my process");
    assert_eq!(p.threads, 3);
    assert_eq!(p.start_time, 555);
    assert_eq!(p.mem, Some(2 * 4096));
    assert_eq!(p.cpu_usage, 20);
}

#[test]
fn name_with_short_word_still_parses() {
    let mut data = ProcessData::with_page_size(None);
    let lines = vec![stat_line(8, "my 1 proc", 5, 5, 2, 444, 1)];
    data.update(&lines);
    assert_eq!(data.processes.len(), 1);
    assert_eq!(data.processes[0].name, "my 1 proc");
    assert_eq!(data.processes[0].threads, 2);
}

#[test]
fn continuing_process_reports_tick_delta() {
    let mut data = ProcessData::with_page_size(None);
    data.update(&vec![stat_line(10, "a", 30, 20, 1, 100, 1)]);
    assert_eq!(data.processes[0].cpu_usage, 50);
    data.update(&vec![stat_line(10, "a", 55, 25, 1, 100, 1)]);
    assert_eq!(data.processes[0].cpu_usage, 30);
}

#[test]
fn reused_pid_with_new_start_time_is_a_new_identity() {
    let mut data = ProcessData::with_page_size(None);
    data.update(&vec![stat_line(10, "old", 40, 10, 1, 100, 1)]);
    assert_eq!(data.processes[0].cpu_usage, 50);
    // same pid, different start time: bootstrap, not a delta against the
    // old process's 50 ticks
    data.update(&vec![stat_line(10, "new", 20, 10, 1, 200, 1)]);
    assert_eq!(data.processes[0].cpu_usage, 30);
}

#[test]
fn stale_basis_entry_expires_after_replacement_round() {
    let mut data = ProcessData::with_page_size(None);
    data.update(&vec![stat_line(10, "a", 30, 0, 1, 100, 1)]);
    // the process is gone for one round; the fresh basis replaces the map
    data.update(&Vec::new());
    assert!(data.processes.is_empty());
    // it comes back under the same key: bootstrap again
    data.update(&vec![stat_line(10, "a", 35, 0, 1, 100, 1)]);
    assert_eq!(data.processes[0].cpu_usage, 35);
}

#[test]
fn malformed_line_discards_that_process_only() {
    let mut data = ProcessData::with_page_size(None);
    let lines = vec![
        "not a stat line".to_string(),
        stat_line(3, "ok", 1, 1, 1, 9, 1),
        "12 missing-paren S 1".to_string(),
    ];
    data.update(&lines);
    assert_eq!(data.processes.len(), 1);
    assert_eq!(data.processes[0].pid, 3);
}

#[test]
fn mem_is_absent_without_a_page_size() {
    let mut data = ProcessData::with_page_size(None);
    data.update(&vec![stat_line(1, "x", 1, 1, 1, 1, 1000)]);
    assert_eq!(data.processes[0].mem, None);
}

#[test]
fn pid_dir_names_are_digit_runs() {
    assert!(is_pid_dir_name("1234"));
    assert!(is_pid_dir_name("1"));
    assert!(!is_pid_dir_name(""));
    assert!(!is_pid_dir_name("12a4"));
    assert!(!is_pid_dir_name("self"));
    assert_eq!(validate_pid_dir("99"), Ok(()));
    assert_eq!(validate_pid_dir("acpi"), Err(ProcDataRetrievalErr::NotPidDir));
}

#[test]
fn page_size_resolves_on_this_machine() {
    let ps = resolve_page_size().unwrap();
    assert!(ps > 0);
}
