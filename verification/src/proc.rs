//! Per-process table delta sampler: parses one status line per process and
//! turns cumulative CPU ticks into per-round deltas, keyed by process id
//! and start time so that a recycled pid is never mistaken for a
//! continuing process.

use vstd::prelude::*;

use crate::cpu::sub_or_zero;
use crate::text::{
    all_digits, spec_parses_u64, spec_tokens, spec_u64_val, split_tokens, parse_u64, SepClass,
};

verus! {

/// One row of the process table: deltas for CPU, raw values for the rest.
pub struct Process {
    pub pid: u64,
    pub name: String,
    /// Resident memory in bytes; absent when the page size could not be
    /// resolved at startup.
    pub mem: Option<u64>,
    pub threads: u16,
    /// CPU ticks since the previous sample of this process, or the raw
    /// cumulative ticks on its first sample.
    pub cpu_usage: u64,
    pub start_time: u64,
}

/// The mathematical value of a `Process` row.
pub struct ProcessV {
    pub pid: u64,
    pub name: Seq<char>,
    pub mem: Option<u64>,
    pub threads: u16,
    pub cpu_usage: u64,
    pub start_time: u64,
}

impl View for Process {
    type V = ProcessV;

    open spec fn view(&self) -> ProcessV {
        ProcessV {
            pid: self.pid,
            name: self.name@,
            mem: self.mem,
            threads: self.threads,
            cpu_usage: self.cpu_usage,
            start_time: self.start_time,
        }
    }
}

impl DeepView for Process {
    type V = ProcessV;

    open spec fn deep_view(&self) -> ProcessV {
        self.view()
    }
}

impl Process {
    pub fn duplicate(&self) -> (r: Self)
        ensures
            r@ == self@,
    {
        Process {
            pid: self.pid,
            name: self.name.clone(),
            mem: self.mem,
            threads: self.threads,
            cpu_usage: self.cpu_usage,
            start_time: self.start_time,
        }
    }
}

/// One entry of the delta basis: the cumulative CPU ticks a process had
/// when it was last sampled, keyed by pid and start time.
#[derive(Clone, Copy, PartialEq, Eq, Structural, Debug)]
pub struct TickEntry {
    pub pid: u64,
    pub start_time: u64,
    pub ticks: u64,
}

/// The basis entry for a given identity key; when a key was stored twice,
/// the later entry counts.
pub open spec fn basis_lookup(s: Seq<TickEntry>, pid: u64, start_time: u64) -> Option<u64>
    decreases s.len(),
{
    if s.len() == 0 {
        None
    } else if s.last().pid == pid && s.last().start_time == start_time {
        Some(s.last().ticks)
    } else {
        basis_lookup(s.drop_last(), pid, start_time)
    }
}

/// Why a process directory is rejected.
#[derive(Clone, Copy, PartialEq, Eq, Structural, Debug)]
pub enum ProcDataRetrievalErr {
    /// The directory is not named by a process id.
    NotPidDir,
}

/// Why the page size could not be resolved at startup.
#[derive(Clone, Copy, PartialEq, Eq, Structural, Debug)]
pub enum ProcDataCreationErr {
    /// The kernel reported no page size.
    PageSizeEmpty,
    /// The page size query failed with this errno.
    PageSizeErr(i32),
}

/// Whether a directory name is a process id: one or more decimal digits.
pub fn is_pid_dir_name(name: &str) -> (r: bool)
    ensures
        r == (name@.len() > 0 && all_digits(name@)),
{
    let n = name.unicode_len();
    if n == 0 {
        return false;
    }
    let mut i: usize = 0;
    while i < n
        invariant
            i <= n,
            n == name@.len(),
            forall|j: int| 0 <= j < i ==> crate::text::is_digit(#[trigger] name@[j]),
        decreases n - i,
    {
        let u = name.get_char(i) as u32;
        if u < 48 || u > 57 {
            return false;
        }
        i = i + 1;
    }
    true
}

/// Accepts exactly the directories whose name is a process id.
pub fn validate_pid_dir(name: &str) -> (r: Result<(), ProcDataRetrievalErr>)
    ensures
        r == Ok::<(), ProcDataRetrievalErr>(()) <==> (name@.len() > 0 && all_digits(name@)),
        (r matches Err(e) ==> e == ProcDataRetrievalErr::NotPidDir),
{
    if is_pid_dir_name(name) {
        Ok(())
    } else {
        Err(ProcDataRetrievalErr::NotPidDir)
    }
}

/// Whether a field is a single process-state code.
pub open spec fn is_state_token(t: Seq<char>) -> bool {
    t.len() == 1 && (t[0] == 'R' || t[0] == 'S' || t[0] == 'D' || t[0] == 'Z' || t[0] == 'T'
        || t[0] == 't' || t[0] == 'W' || t[0] == 'X' || t[0] == 'x' || t[0] == 'K' || t[0] == 'P'
        || t[0] == 'I')
}

/// The index of the first state-code field at or after `j`: the name scan
/// appends every field before it to the name. `toks.len()` when none.
pub open spec fn scan_state_index(toks: Seq<Seq<char>>, j: int) -> int
    decreases toks.len() - j,
{
    if j < 0 || j >= toks.len() || is_state_token(toks[j]) {
        j
    } else {
        scan_state_index(toks, j + 1)
    }
}

/// The fields of a name, joined by single spaces.
pub open spec fn join_space(ts: Seq<Seq<char>>) -> Seq<char>
    decreases ts.len(),
{
    if ts.len() == 0 {
        Seq::empty()
    } else if ts.len() == 1 {
        ts[0]
    } else {
        join_space(ts.drop_last()) + seq![' '] + ts.last()
    }
}

/// A joined name with its leading `(` removed, and its last character
/// after that, the `)`, removed too.
pub open spec fn strip_name(s: Seq<char>) -> Seq<char> {
    let t = s.drop_first();
    if t.len() > 0 {
        t.drop_last()
    } else {
        t
    }
}

/// The raw fields one status line denotes, before any delta is applied.
pub struct StatFieldsV {
    pub pid: u64,
    pub name: Seq<char>,
    pub threads: u16,
    pub rss_pages: u64,
    pub start_time: u64,
    /// user plus system CPU ticks, cumulative.
    pub total_ticks: u64,
}

/// The state index of a status line: where its state-code field stands
/// once the name fields before it are accounted for.
pub open spec fn spec_state_index(toks: Seq<Seq<char>>) -> int {
    if toks[1].last() == ')' {
        2
    } else {
        scan_state_index(toks, 2)
    }
}

/// What one status line denotes; `None` when any field of it is malformed,
/// which discards that single process without aborting the round.
pub open spec fn spec_parse_stat(line: Seq<char>) -> Option<StatFieldsV> {
    let toks = spec_tokens(line, SepClass::Whitespace);
    if toks.len() < 2 || !spec_parses_u64(toks[0]) || toks[1].len() == 0 || toks[1][0] != '(' {
        None
    } else {
        let si = spec_state_index(toks);
        if si >= toks.len() || toks.len() <= 21 + si {
            None
        } else {
            let name = strip_name(join_space(toks.subrange(1, si)));
            if !spec_parses_u64(toks[17 + si]) || spec_u64_val(toks[17 + si]) > u16::MAX as nat
                || !spec_parses_u64(toks[21 + si]) || !spec_parses_u64(toks[19 + si])
                || !spec_parses_u64(toks[11 + si]) || !spec_parses_u64(toks[12 + si])
                || spec_u64_val(toks[11 + si]) + spec_u64_val(toks[12 + si]) > u64::MAX {
                None
            } else {
                Some(
                    StatFieldsV {
                        pid: spec_u64_val(toks[0]) as u64,
                        name,
                        threads: spec_u64_val(toks[17 + si]) as u16,
                        rss_pages: spec_u64_val(toks[21 + si]) as u64,
                        start_time: spec_u64_val(toks[19 + si]) as u64,
                        total_ticks: (spec_u64_val(toks[11 + si]) + spec_u64_val(
                            toks[12 + si],
                        )) as u64,
                    },
                )
            }
        }
    }
}

fn is_state_token_exec(t: &String) -> (r: bool)
    ensures
        r == is_state_token(t@),
{
    let s = t.as_str();
    if s.unicode_len() != 1 {
        return false;
    }
    let c = s.get_char(0);
    c == 'R' || c == 'S' || c == 'D' || c == 'Z' || c == 'T' || c == 't' || c == 'W' || c == 'X'
        || c == 'x' || c == 'K' || c == 'P' || c == 'I'
}

/// Reads the raw fields of one status line; `None` when it is malformed.
pub fn parse_stat_line(line: &str) -> (r: Option<StatFields>)
    ensures
        r is Some <==> spec_parse_stat(line@) is Some,
        (r matches Some(f) ==> spec_parse_stat(line@) == Some(f@)),
{
    let toks = split_tokens(line, SepClass::Whitespace);
    let ghost dv = spec_tokens(line@, SepClass::Whitespace);
    proof {
        assert(toks@.len() == dv.len());
        assert(forall|i: int| 0 <= i < toks@.len() ==> (#[trigger] toks@[i])@ == dv[i]);
    }
    let n = toks.len();
    if n < 2 {
        return None;
    }
    let pid = match parse_u64(toks[0].as_str()) {
        None => {
            return None;
        },
        Some(p) => p,
    };
    let name0 = toks[1].as_str();
    let name0_len = name0.unicode_len();
    if name0_len == 0 || name0.get_char(0) != '(' {
        return None;
    }
    // The name scan: fields up to the state code belong to the name.
    let si: usize;
    if name0.get_char(name0_len - 1) == ')' {
        si = 2;
    } else {
        let mut j: usize = 2;
        while j < n && !is_state_token_exec(&toks[j])
            invariant
                2 <= j <= n,
                n == toks@.len(),
                toks@.len() == dv.len(),
                forall|i: int| 0 <= i < toks@.len() ==> (#[trigger] toks@[i])@ == dv[i],
                scan_state_index(dv, 2) == scan_state_index(dv, j as int),
            decreases n - j,
        {
            j = j + 1;
        }
        si = j;
    }
    proof {
        assert(si == spec_state_index(dv));
    }
    if si >= n || n - si <= 21 {
        return None;
    }
    // Join the name fields and strip the surrounding parentheses.
    let mut name = String::new();
    name.append(toks[1].as_str());
    let mut j: usize = 2;
    proof {
        assert(dv.subrange(1, 2) =~= seq![dv[1]]);
        assert(name@ =~= join_space(dv.subrange(1, 2)));
    }
    while j < si
        invariant
            2 <= j <= si || (si == 2 && j == 2),
            si < n,
            n == toks@.len(),
            toks@.len() == dv.len(),
            forall|i: int| 0 <= i < toks@.len() ==> (#[trigger] toks@[i])@ == dv[i],
            name@ == join_space(dv.subrange(1, j as int)),
        decreases si - j,
    {
        name.append(" ");
        name.append(toks[j].as_str());
        proof {
            reveal_strlit(" ");
            assert(" "@ =~= seq![' ']);
            assert(dv.subrange(1, j + 1).drop_last() =~= dv.subrange(1, j as int));
            assert(dv.subrange(1, j + 1).last() == dv[j as int]);
            assert(name@ =~= join_space(dv.subrange(1, j + 1)));
        }
        j = j + 1;
    }
    let name_len = name.as_str().unicode_len();
    let stripped_end = if name_len >= 2 {
        name_len - 1
    } else {
        1
    };
    let stripped = String::from_str(name.as_str().substring_char(1, stripped_end));
    proof {
        assert(name@.len() >= 1);
        assert(stripped@ =~= strip_name(name@));
    }
    let threads64 = match parse_u64(toks[17 + si].as_str()) {
        None => {
            return None;
        },
        Some(v) => v,
    };
    if threads64 > 65535 {
        return None;
    }
    let rss_pages = match parse_u64(toks[21 + si].as_str()) {
        None => {
            return None;
        },
        Some(v) => v,
    };
    let start_time = match parse_u64(toks[19 + si].as_str()) {
        None => {
            return None;
        },
        Some(v) => v,
    };
    let utime = match parse_u64(toks[11 + si].as_str()) {
        None => {
            return None;
        },
        Some(v) => v,
    };
    let stime = match parse_u64(toks[12 + si].as_str()) {
        None => {
            return None;
        },
        Some(v) => v,
    };
    let total_ticks = match utime.checked_add(stime) {
        None => {
            return None;
        },
        Some(v) => v,
    };
    Some(
        StatFields {
            pid,
            name: stripped,
            threads: threads64 as u16,
            rss_pages,
            start_time,
            total_ticks,
        },
    )
}

/// The raw fields of one status line.
pub struct StatFields {
    pub pid: u64,
    pub name: String,
    pub threads: u16,
    pub rss_pages: u64,
    pub start_time: u64,
    pub total_ticks: u64,
}

impl View for StatFields {
    type V = StatFieldsV;

    open spec fn view(&self) -> StatFieldsV {
        StatFieldsV {
            pid: self.pid,
            name: self.name@,
            threads: self.threads,
            rss_pages: self.rss_pages,
            start_time: self.start_time,
            total_ticks: self.total_ticks,
        }
    }
}

/// The row and new basis entry the parsed fields yield, given the page
/// size and the previous round's basis. `None` when the memory figure
/// overflows, which discards that single process.
pub open spec fn spec_process_record(
    f: StatFieldsV,
    page_size: Option<u64>,
    basis: Seq<TickEntry>,
) -> Option<(ProcessV, TickEntry)> {
    let mem_ok = match page_size {
        None => true,
        Some(ps) => f.rss_pages * ps <= u64::MAX,
    };
    if !mem_ok {
        None
    } else {
        let mem = match page_size {
            None => None,
            Some(ps) => Some((f.rss_pages * ps) as u64),
        };
        let ticks = match basis_lookup(basis, f.pid, f.start_time) {
            Some(old) => sub_or_zero(f.total_ticks, old),
            None => f.total_ticks,
        };
        Some(
            (
                ProcessV {
                    pid: f.pid,
                    name: f.name,
                    mem,
                    threads: f.threads,
                    cpu_usage: ticks,
                    start_time: f.start_time,
                },
                TickEntry { pid: f.pid, start_time: f.start_time, ticks: f.total_ticks },
            ),
        )
    }
}

/// What one status line contributes to a round.
pub open spec fn spec_parse_process(
    line: Seq<char>,
    page_size: Option<u64>,
    basis: Seq<TickEntry>,
) -> Option<(ProcessV, TickEntry)> {
    match spec_parse_stat(line) {
        None => None,
        Some(f) => spec_process_record(f, page_size, basis),
    }
}

/// What a whole round over the given status lines yields: the table rows
/// and the fresh basis, in line order, malformed lines discarded. Every
/// delta is taken against the previous round's basis alone.
pub open spec fn spec_proc_round(
    lines: Seq<Seq<char>>,
    page_size: Option<u64>,
    basis: Seq<TickEntry>,
) -> (Seq<ProcessV>, Seq<TickEntry>)
    decreases lines.len(),
{
    if lines.len() == 0 {
        (Seq::empty(), Seq::empty())
    } else {
        let prev = spec_proc_round(lines.drop_last(), page_size, basis);
        match spec_parse_process(lines.last(), page_size, basis) {
            None => prev,
            Some(pt) => (prev.0.push(pt.0), prev.1.push(pt.1)),
        }
    }
}

fn basis_lookup_exec(basis: &Vec<TickEntry>, pid: u64, start_time: u64) -> (r: Option<u64>)
    ensures
        r == basis_lookup(basis@, pid, start_time),
{
    let n = basis.len();
    let mut found: Option<u64> = None;
    let mut i: usize = 0;
    proof {
        assert(basis@.take(0) =~= Seq::<TickEntry>::empty());
    }
    while i < n
        invariant
            i <= n,
            n == basis@.len(),
            found == basis_lookup(basis@.take(i as int), pid, start_time),
        decreases n - i,
    {
        let e = basis[i];
        proof {
            assert(basis@.take(i + 1).drop_last() =~= basis@.take(i as int));
            assert(basis@.take(i + 1).last() == basis@[i as int]);
        }
        if e.pid == pid && e.start_time == start_time {
            found = Some(e.ticks);
        }
        i = i + 1;
    }
    proof {
        assert(basis@.take(n as int) =~= basis@);
    }
    found
}

/// One status line's row and basis entry, or `None` when the line is
/// malformed.
pub fn parse_process_line(line: &str, page_size: Option<u64>, basis: &Vec<TickEntry>) -> (r:
    Option<(Process, TickEntry)>)
    ensures
        (match spec_parse_process(line@, page_size, basis@) {
            None => r is None,
            Some(pt) => r matches Some(x) && x.0@ == pt.0 && x.1 == pt.1,
        }),
{
    let f = match parse_stat_line(line) {
        None => {
            return None;
        },
        Some(f) => f,
    };
    let mem: Option<u64> = match page_size {
        None => None,
        Some(ps) => match f.rss_pages.checked_mul(ps) {
            None => {
                return None;
            },
            Some(m) => Some(m),
        },
    };
    let ticks = match basis_lookup_exec(basis, f.pid, f.start_time) {
        Some(old) => if f.total_ticks >= old {
            f.total_ticks - old
        } else {
            0
        },
        None => f.total_ticks,
    };
    Some(
        (
            Process {
                pid: f.pid,
                name: f.name,
                mem,
                threads: f.threads,
                cpu_usage: ticks,
                start_time: f.start_time,
            },
            TickEntry { pid: f.pid, start_time: f.start_time, ticks: f.total_ticks },
        ),
    )
}

/// Relies on nix::unistd::sysconf with the page-size variable: the page
/// size in bytes when the kernel reports one, `Ok(None)` when it reports
/// none, or the raw errno when the query fails. The result depends on the
/// machine, so nothing is stated of it.
#[verifier::external_body]
fn sysconf_page_size() -> (r: Result<Option<i64>, i32>) {
    match nix::unistd::sysconf(nix::unistd::SysconfVar::PAGE_SIZE) {
        Ok(v) => Ok(v),
        Err(e) => Err(e as i32),
    }
}

/// Asks the kernel for the memory page size, once, at startup.
pub fn resolve_page_size() -> (r: Result<u64, ProcDataCreationErr>)
    ensures
        (r matches Ok(ps) ==> ps > 0),
{
    match sysconf_page_size() {
        Ok(Some(ps)) => {
            if ps > 0 {
                Ok(ps as u64)
            } else {
                Err(ProcDataCreationErr::PageSizeEmpty)
            }
        },
        Ok(None) => Err(ProcDataCreationErr::PageSizeEmpty),
        Err(e) => Err(ProcDataCreationErr::PageSizeErr(e)),
    }
}

/// The process table delta sampler: `processes` is what the latest round
/// reported, the basis maps each (pid, start time) key to the cumulative
/// ticks stored for it.
pub struct ProcessData {
    pub processes: Vec<Process>,
    old_processes_map: Vec<TickEntry>,
    page_size: Option<u64>,
}

impl ProcessData {
    /// What the latest round reported.
    pub closed spec fn table(&self) -> Seq<ProcessV> {
        self.processes.deep_view()
    }

    /// The stored basis the next round takes its deltas against.
    pub closed spec fn basis(&self) -> Seq<TickEntry> {
        self.old_processes_map@
    }

    /// The page size resolved at construction; absent when the kernel
    /// would not report one, in which case memory figures stay absent for
    /// the life of the sampler.
    pub closed spec fn resolved_page_size(&self) -> Option<u64> {
        self.page_size
    }

    /// A fresh sampler; the page size is asked of the kernel once, here,
    /// and is positive when it resolved at all.
    pub fn new() -> (r: Self)
        ensures
            r.table() == Seq::<ProcessV>::empty(),
            r.basis() == Seq::<TickEntry>::empty(),
            (r.resolved_page_size() matches Some(ps) ==> ps > 0),
    {
        let page_size = match resolve_page_size() {
            Ok(ps) => Some(ps),
            Err(_) => None,
        };
        ProcessData { processes: Vec::new(), old_processes_map: Vec::new(), page_size }
    }

    /// A sampler with a given page size, for callers that resolved it
    /// themselves.
    pub fn with_page_size(page_size: Option<u64>) -> (r: Self)
        ensures
            r.table() == Seq::<ProcessV>::empty(),
            r.basis() == Seq::<TickEntry>::empty(),
            r.resolved_page_size() == page_size,
    {
        ProcessData { processes: Vec::new(), old_processes_map: Vec::new(), page_size }
    }

    /// A copy of what the latest round reported.
    pub fn table_snapshot(&self) -> (r: Vec<Process>)
        ensures
            r.deep_view() == self.table(),
    {
        let mut r: Vec<Process> = Vec::new();
        let n = self.processes.len();
        let mut i: usize = 0;
        proof {
            assert(r.deep_view() =~= self.processes.deep_view().take(0));
        }
        while i < n
            invariant
                i <= n,
                n == self.processes@.len(),
                r.deep_view() == self.processes.deep_view().take(i as int),
            decreases n - i,
        {
            let ghost before = r.deep_view();
            let e = self.processes[i].duplicate();
            r.push(e);
            proof {
                assert(r.deep_view() =~= before.push(e@));
                assert(before.push(e@) =~= self.processes.deep_view().take(i + 1));
            }
            i = i + 1;
        }
        proof {
            assert(self.processes.deep_view().take(n as int) =~= self.processes.deep_view());
        }
        r
    }

    /// One sampling round over the given status lines, one line per
    /// process. A malformed line discards that process alone. At the end
    /// the fresh basis replaces the old one atomically; it was never
    /// consulted for the round's own deltas.
    pub fn update(&mut self, stat_lines: &Vec<String>)
        ensures
            final(self).resolved_page_size() == old(self).resolved_page_size(),
            final(self).table() == spec_proc_round(
                stat_lines.deep_view(),
                old(self).resolved_page_size(),
                old(self).basis(),
            ).0,
            final(self).basis() == spec_proc_round(
                stat_lines.deep_view(),
                old(self).resolved_page_size(),
                old(self).basis(),
            ).1,
    {
        let ghost dv = stat_lines.deep_view();
        let mut procs: Vec<Process> = Vec::new();
        let mut new_map: Vec<TickEntry> = Vec::new();
        let n = stat_lines.len();
        let mut i: usize = 0;
        proof {
            assert(dv.take(0) =~= Seq::<Seq<char>>::empty());
            assert(procs.deep_view() =~= Seq::<ProcessV>::empty());
        }
        while i < n
            invariant
                i <= n,
                n == stat_lines@.len(),
                dv == stat_lines.deep_view(),
                dv.len() == n,
                self == old(self),
                procs.deep_view() == spec_proc_round(
                    dv.take(i as int),
                    self.page_size,
                    self.old_processes_map@,
                ).0,
                new_map@ == spec_proc_round(
                    dv.take(i as int),
                    self.page_size,
                    self.old_processes_map@,
                ).1,
            decreases n - i,
        {
            proof {
                assert(dv.take(i + 1).drop_last() =~= dv.take(i as int));
                assert(dv.take(i + 1).last() == dv[i as int]);
                assert(dv[i as int] == stat_lines@[i as int]@);
            }
            let ghost prev_procs = procs.deep_view();
            match parse_process_line(
                stat_lines[i].as_str(),
                self.page_size,
                &self.old_processes_map,
            ) {
                None => {
                },
                Some(pt) => {
                    let (p, t) = pt;
                    procs.push(p);
                    new_map.push(t);
                    proof {
                        assert(procs.deep_view() =~= prev_procs.push(p@));
                    }
                },
            }
            i = i + 1;
        }
        proof {
            assert(dv.take(n as int) =~= dv);
        }
        self.processes = procs;
        self.old_processes_map = new_map;
    }
}

/// A basis entry under another identity key never serves a lookup: in
/// particular, a pid recycled with a new start time is a new identity.
pub proof fn lemma_basis_other_key_ignored(basis: Seq<TickEntry>, e: TickEntry, pid: u64, st: u64)
    requires
        e.pid != pid || e.start_time != st,
    ensures
        basis_lookup(basis.push(e), pid, st) == basis_lookup(basis, pid, st),
{
    assert(basis.push(e).last() == e);
    assert(basis.push(e).drop_last() =~= basis);
}

/// A process whose identity key has no basis entry reports its raw
/// cumulative ticks (bootstrap), never a delta against another process's
/// basis.
pub proof fn lemma_pid_reuse_is_bootstrap(
    f: StatFieldsV,
    page_size: Option<u64>,
    basis: Seq<TickEntry>,
)
    requires
        basis_lookup(basis, f.pid, f.start_time) is None,
    ensures
        (spec_process_record(f, page_size, basis) matches Some(pt) ==> pt.0.cpu_usage
            == f.total_ticks),
{
}

/// On the first-ever round the basis is empty, so every process reports
/// its raw cumulative ticks: a bootstrap can never report a negative
/// delta.
pub proof fn lemma_first_round_is_bootstrap(
    line: Seq<char>,
    page_size: Option<u64>,
    basis: Seq<TickEntry>,
)
    requires
        basis.len() == 0,
    ensures
        (spec_parse_process(line, page_size, basis) matches Some(pt) ==> pt.0.cpu_usage
            == pt.1.ticks),
{
}

} // verus!
