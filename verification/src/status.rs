//! The aggregated snapshot and the engine around it: every collector's
//! latest result as one record with independently optional fields, its
//! serialized form, and the publish/consume boundary the transport layer
//! reads it through.

use vstd::prelude::*;

use crate::cpu::{core_delta, spec_cpu_rows, CoreUsage, CpuUsage};
use crate::disk::{disk_rows_from_probes, spec_mounts, DiskData, FsData, FsDataV};
use crate::host::{HostData, HostDataV};
use crate::json::{
    dec_nat, dec_u128_string, dec_u64_string, append_json_string, json_array, json_bool,
    json_opt, json_string, join_comma, dec_digit_char,
};
use crate::net::{spec_net_round, IfaStats, IfaStatsV, NetData};
use crate::pace::{next_pace, next_pace_spec, PaceMode};
use crate::proc::{spec_proc_round, Process, ProcessData, ProcessV, TickEntry};
use crate::ram::{spec_ram, RamData};
use crate::temp::TempData;
use crate::text::spec_remove_newlines;
use crate::text::{
    push_char, spec_parses_i64, spec_parses_u64, spec_i64_val, spec_trim_end, spec_u64_val,
};

verus! {

/// The aggregated snapshot: one field per collector, each independently
/// absent when that collector's latest round failed.
pub struct Status {
    pub host: Option<HostData>,
    pub temp: Option<TempData>,
    pub net_stats: Option<Vec<IfaStats>>,
    pub cpu_usage: Option<Vec<CoreUsage>>,
    pub ram: Option<RamData>,
    pub disk: Option<Vec<FsData>>,
    pub proc: Option<Vec<Process>>,
}

/// The mathematical value of a `Status`.
pub struct StatusV {
    pub host: Option<HostDataV>,
    pub temp: Option<TempData>,
    pub net_stats: Option<Seq<IfaStatsV>>,
    pub cpu_usage: Option<Seq<CoreUsage>>,
    pub ram: Option<RamData>,
    pub disk: Option<Seq<FsDataV>>,
    pub proc: Option<Seq<ProcessV>>,
}

impl View for Status {
    type V = StatusV;

    open spec fn view(&self) -> StatusV {
        StatusV {
            host: match self.host {
                None => None,
                Some(h) => Some(h@),
            },
            temp: self.temp,
            net_stats: match self.net_stats {
                None => None,
                Some(v) => Some(v.deep_view()),
            },
            cpu_usage: match self.cpu_usage {
                None => None,
                Some(v) => Some(v@),
            },
            ram: self.ram,
            disk: match self.disk {
                None => None,
                Some(v) => Some(v.deep_view()),
            },
            proc: match self.proc {
                None => None,
                Some(v) => Some(v.deep_view()),
            },
        }
    }
}

impl Status {
    /// The snapshot before any round: every field absent.
    pub open spec fn all_absent(v: StatusV) -> bool {
        v.host is None && v.temp is None && v.net_stats is None && v.cpu_usage is None
            && v.ram is None && v.disk is None && v.proc is None
    }

    pub fn empty() -> (r: Self)
        ensures
            Self::all_absent(r@),
    {
        Status {
            host: None,
            temp: None,
            net_stats: None,
            cpu_usage: None,
            ram: None,
            disk: None,
            proc: None,
        }
    }
}

/// Three zero-padded decimal digits, for the temperature's millidegree
/// fraction.
pub open spec fn pad3(x: int) -> Seq<char> {
    seq![dec_digit_char(x / 100), dec_digit_char((x / 10) % 10), dec_digit_char(x % 10)]
}

/// The temperature as a JSON number of degrees with three decimals.
pub open spec fn json_temp(m: i64) -> Seq<char> {
    if m < 0 {
        seq!['-'] + dec_nat(((-(m as int)) / 1000) as nat) + seq!['.'] + pad3((-(m as int)) % 1000)
    } else {
        dec_nat((m as int / 1000) as nat) + seq!['.'] + pad3(m as int % 1000)
    }
}

/// The JSON object of the host field.
pub open spec fn json_host(h: HostDataV) -> Seq<char> {
    "{\"hostname\":"@ + json_string(h.hostname) + ",\"uptime\":"@ + dec_nat(h.uptime as nat)
        + "}"@
}

/// The JSON object of one CPU row.
pub open spec fn json_core(c: CoreUsage) -> Seq<char> {
    "{\"user\":"@ + dec_nat(c.user as nat) + ",\"nice\":"@ + dec_nat(c.nice as nat)
        + ",\"system\":"@ + dec_nat(c.system as nat) + ",\"idle\":"@ + dec_nat(c.idle as nat)
        + ",\"iowait\":"@ + dec_nat(c.iowait as nat) + ",\"irq\":"@ + dec_nat(c.irq as nat)
        + ",\"softirq\":"@ + dec_nat(c.softirq as nat) + ",\"steal\":"@ + dec_nat(c.steal as nat)
        + ",\"guest\":"@ + dec_nat(c.guest as nat) + ",\"guest_nice\":"@ + dec_nat(
        c.guest_nice as nat,
    ) + "}"@
}

/// The JSON object of one interface's statistics.
pub open spec fn json_ifa(s: IfaStatsV) -> Seq<char> {
    "{\"interface\":{\"interface_path\":"@ + json_string(s.interface.interface_path)
        + ",\"interface_name\":"@ + json_string(s.interface.interface_name)
        + "},\"upload_total\":"@ + dec_nat(s.upload_total as nat) + ",\"download_total\":"@
        + dec_nat(s.download_total as nat) + ",\"upload_speed\":"@ + dec_nat(
        s.upload_speed as nat,
    ) + ",\"download_speed\":"@ + dec_nat(s.download_speed as nat) + ",\"timestamp\":"@ + dec_nat(
        s.timestamp as nat,
    ) + ",\"has_updated\":"@ + json_bool(s.has_updated) + "}"@
}

/// The JSON object of the memory field.
pub open spec fn json_ram(r: RamData) -> Seq<char> {
    "{\"total\":"@ + dec_nat(r.total as nat) + ",\"used\":"@ + dec_nat(r.used as nat)
        + ",\"available\":"@ + dec_nat(r.available as nat) + ",\"free\":"@ + dec_nat(
        r.free as nat,
    ) + ",\"cached\":"@ + dec_nat(r.cached as nat) + "}"@
}

/// The JSON object of one mounted filesystem.
pub open spec fn json_fs(f: FsDataV) -> Seq<char> {
    "{\"filesystem\":"@ + json_string(f.filesystem) + ",\"mountpoint\":"@ + json_string(
        f.mountpoint,
    ) + ",\"total\":"@ + dec_nat(f.total as nat) + ",\"available\":"@ + dec_nat(
        f.available as nat,
    ) + "}"@
}

/// The JSON object of one process row; its memory is `null` when the page
/// size was never resolved.
pub open spec fn json_process(p: ProcessV) -> Seq<char> {
    "{\"pid\":"@ + dec_nat(p.pid as nat) + ",\"name\":"@ + json_string(p.name) + ",\"mem\":"@
        + json_opt(
        match p.mem {
            None => None,
            Some(m) => Some(dec_nat(m as nat)),
        },
    ) + ",\"threads\":"@ + dec_nat(p.threads as nat) + ",\"cpu_usage\":"@ + dec_nat(
        p.cpu_usage as nat,
    ) + ",\"start_time\":"@ + dec_nat(p.start_time as nat) + "}"@
}

/// The serialized snapshot: every field in declaration order, absent ones
/// as `null`.
pub open spec fn spec_status_json(s: StatusV) -> Seq<char> {
    "{\"host\":"@ + json_opt(
        match s.host {
            None => None,
            Some(h) => Some(json_host(h)),
        },
    ) + ",\"temp\":"@ + json_opt(
        match s.temp {
            None => None,
            Some(t) => Some(json_temp(t.millidegrees)),
        },
    ) + ",\"net_stats\":"@ + json_opt(
        match s.net_stats {
            None => None,
            Some(v) => Some(json_array(v.map_values(|e: IfaStatsV| json_ifa(e)))),
        },
    ) + ",\"cpu_usage\":"@ + json_opt(
        match s.cpu_usage {
            None => None,
            Some(v) => Some(json_array(v.map_values(|c: CoreUsage| json_core(c)))),
        },
    ) + ",\"ram\":"@ + json_opt(
        match s.ram {
            None => None,
            Some(r) => Some(json_ram(r)),
        },
    ) + ",\"disk\":"@ + json_opt(
        match s.disk {
            None => None,
            Some(v) => Some(json_array(v.map_values(|f: FsDataV| json_fs(f)))),
        },
    ) + ",\"proc\":"@ + json_opt(
        match s.proc {
            None => None,
            Some(v) => Some(json_array(v.map_values(|p: ProcessV| json_process(p)))),
        },
    ) + "}"@
}

fn json_temp_string(t: &TempData) -> (r: String)
    ensures
        r@ == json_temp(t.millidegrees),
{
    let m = t.millidegrees;
    let mut out = String::new();
    let mag: u64 = if m < 0 {
        (-(m as i128)) as u64
    } else {
        m as u64
    };
    if m < 0 {
        push_char(&mut out, '-');
    }
    let whole = dec_u64_string(mag / 1000);
    out.append(whole.as_str());
    push_char(&mut out, '.');
    let frac = mag % 1000;
    push_char(&mut out, crate::json::dec_digit_exec((frac / 100) as u8));
    push_char(&mut out, crate::json::dec_digit_exec(((frac / 10) % 10) as u8));
    push_char(&mut out, crate::json::dec_digit_exec((frac % 10) as u8));
    proof {
        if m < 0 {
            assert(mag as int == -(m as int));
            assert(out@ =~= seq!['-'] + dec_nat(((-(m as int)) / 1000) as nat) + seq!['.'] + pad3(
                (-(m as int)) % 1000,
            ));
        } else {
            assert(out@ =~= dec_nat((m as int / 1000) as nat) + seq!['.'] + pad3(m as int % 1000));
        }
    }
    out
}

fn json_host_string(h: &HostData) -> (r: String)
    ensures
        r@ == json_host(h@),
{
    let mut out = String::from_str("{\"hostname\":");
    append_json_string(&mut out, h.hostname.as_str());
    out.append(",\"uptime\":");
    let uptime = dec_u64_string(h.uptime);
    out.append(uptime.as_str());
    out.append("}");
    proof {
        assert(out@ =~= json_host(h@));
    }
    out
}

fn json_core_string(c: &CoreUsage) -> (r: String)
    ensures
        r@ == json_core(*c),
{
    let mut out = String::from_str("{\"user\":");
    let piece = dec_u64_string(c.user);
    out.append(piece.as_str());
    out.append(",\"nice\":");
    let piece = dec_u64_string(c.nice);
    out.append(piece.as_str());
    out.append(",\"system\":");
    let piece = dec_u64_string(c.system);
    out.append(piece.as_str());
    out.append(",\"idle\":");
    let piece = dec_u64_string(c.idle);
    out.append(piece.as_str());
    out.append(",\"iowait\":");
    let piece = dec_u64_string(c.iowait);
    out.append(piece.as_str());
    out.append(",\"irq\":");
    let piece = dec_u64_string(c.irq);
    out.append(piece.as_str());
    out.append(",\"softirq\":");
    let piece = dec_u64_string(c.softirq);
    out.append(piece.as_str());
    out.append(",\"steal\":");
    let piece = dec_u64_string(c.steal);
    out.append(piece.as_str());
    out.append(",\"guest\":");
    let piece = dec_u64_string(c.guest);
    out.append(piece.as_str());
    out.append(",\"guest_nice\":");
    let piece = dec_u64_string(c.guest_nice);
    out.append(piece.as_str());
    out.append("}");
    proof {
        assert(out@ =~= json_core(*c));
    }
    out
}

fn json_ifa_string(s: &IfaStats) -> (r: String)
    ensures
        r@ == json_ifa(s@),
{
    let mut out = String::from_str("{\"interface\":{\"interface_path\":");
    append_json_string(&mut out, s.interface.interface_path.as_str());
    out.append(",\"interface_name\":");
    append_json_string(&mut out, s.interface.interface_name.as_str());
    out.append("},\"upload_total\":");
    let piece = dec_u64_string(s.upload_total);
    out.append(piece.as_str());
    out.append(",\"download_total\":");
    let piece = dec_u64_string(s.download_total);
    out.append(piece.as_str());
    out.append(",\"upload_speed\":");
    let piece = dec_u64_string(s.upload_speed);
    out.append(piece.as_str());
    out.append(",\"download_speed\":");
    let piece = dec_u64_string(s.download_speed);
    out.append(piece.as_str());
    out.append(",\"timestamp\":");
    let piece = dec_u128_string(s.timestamp);
    out.append(piece.as_str());
    out.append(",\"has_updated\":");
    if s.has_updated {
        out.append("true");
    } else {
        out.append("false");
    }
    out.append("}");
    proof {
        assert(out@ =~= json_ifa(s@));
    }
    out
}

fn json_ram_string(r: &RamData) -> (res: String)
    ensures
        res@ == json_ram(*r),
{
    let mut out = String::from_str("{\"total\":");
    let piece = dec_u64_string(r.total);
    out.append(piece.as_str());
    out.append(",\"used\":");
    let piece = dec_u64_string(r.used);
    out.append(piece.as_str());
    out.append(",\"available\":");
    let piece = dec_u64_string(r.available);
    out.append(piece.as_str());
    out.append(",\"free\":");
    let piece = dec_u64_string(r.free);
    out.append(piece.as_str());
    out.append(",\"cached\":");
    let piece = dec_u64_string(r.cached);
    out.append(piece.as_str());
    out.append("}");
    proof {
        assert(out@ =~= json_ram(*r));
    }
    out
}

fn json_fs_string(f: &FsData) -> (r: String)
    ensures
        r@ == json_fs(f@),
{
    let mut out = String::from_str("{\"filesystem\":");
    append_json_string(&mut out, f.filesystem.as_str());
    out.append(",\"mountpoint\":");
    append_json_string(&mut out, f.mountpoint.as_str());
    out.append(",\"total\":");
    let piece = dec_u64_string(f.total);
    out.append(piece.as_str());
    out.append(",\"available\":");
    let piece = dec_u64_string(f.available);
    out.append(piece.as_str());
    out.append("}");
    proof {
        assert(out@ =~= json_fs(f@));
    }
    out
}

fn json_process_string(p: &Process) -> (r: String)
    ensures
        r@ == json_process(p@),
{
    let mut out = String::from_str("{\"pid\":");
    let piece = dec_u64_string(p.pid);
    out.append(piece.as_str());
    out.append(",\"name\":");
    append_json_string(&mut out, p.name.as_str());
    out.append(",\"mem\":");
    match p.mem {
        None => {
            out.append("null");
        },
        Some(m) => {
            let piece = dec_u64_string(m);
            out.append(piece.as_str());
        },
    }
    out.append(",\"threads\":");
    let piece = dec_u64_string(p.threads as u64);
    out.append(piece.as_str());
    out.append(",\"cpu_usage\":");
    let piece = dec_u64_string(p.cpu_usage);
    out.append(piece.as_str());
    out.append(",\"start_time\":");
    let piece = dec_u64_string(p.start_time);
    out.append(piece.as_str());
    out.append("}");
    proof {
        assert(out@ =~= json_process(p@));
    }
    out
}

fn json_cores_array(v: &Vec<CoreUsage>) -> (r: String)
    ensures
        r@ == json_array(v@.map_values(|c: CoreUsage| json_core(c))),
{
    let ghost mapped = v@.map_values(|c: CoreUsage| json_core(c));
    let mut out = String::new();
    push_char(&mut out, '[');
    let n = v.len();
    let mut i: usize = 0;
    proof {
        assert(mapped.take(0) =~= Seq::<Seq<char>>::empty());
        assert(out@ =~= seq!['['] + join_comma(mapped.take(0)));
    }
    while i < n
        invariant
            i <= n,
            n == v@.len(),
            mapped == v@.map_values(|c: CoreUsage| json_core(c)),
            mapped.len() == n,
            out@ == seq!['['] + join_comma(mapped.take(i as int)),
        decreases n - i,
    {
        proof {
            assert(mapped.take(i + 1).drop_last() =~= mapped.take(i as int));
            assert(mapped.take(i + 1).last() == mapped[i as int]);
            assert(mapped[i as int] == json_core(v@[i as int]));
        }
        if i > 0 {
            push_char(&mut out, ',');
        }
        let piece = json_core_string(&v[i]);
        out.append(piece.as_str());
        proof {
            assert(out@ =~= seq!['['] + join_comma(mapped.take(i + 1)));
        }
        i = i + 1;
    }
    push_char(&mut out, ']');
    proof {
        assert(mapped.take(n as int) =~= mapped);
        assert(out@ =~= json_array(mapped));
    }
    out
}

fn json_ifas_array(v: &Vec<IfaStats>) -> (r: String)
    ensures
        r@ == json_array(v.deep_view().map_values(|e: IfaStatsV| json_ifa(e))),
{
    let ghost mapped = v.deep_view().map_values(|e: IfaStatsV| json_ifa(e));
    let mut out = String::new();
    push_char(&mut out, '[');
    let n = v.len();
    let mut i: usize = 0;
    proof {
        assert(mapped.take(0) =~= Seq::<Seq<char>>::empty());
        assert(out@ =~= seq!['['] + join_comma(mapped.take(0)));
    }
    while i < n
        invariant
            i <= n,
            n == v@.len(),
            mapped == v.deep_view().map_values(|e: IfaStatsV| json_ifa(e)),
            mapped.len() == n,
            out@ == seq!['['] + join_comma(mapped.take(i as int)),
        decreases n - i,
    {
        proof {
            assert(mapped.take(i + 1).drop_last() =~= mapped.take(i as int));
            assert(mapped.take(i + 1).last() == mapped[i as int]);
            assert(mapped[i as int] == json_ifa(v@[i as int]@));
        }
        if i > 0 {
            push_char(&mut out, ',');
        }
        let piece = json_ifa_string(&v[i]);
        out.append(piece.as_str());
        proof {
            assert(out@ =~= seq!['['] + join_comma(mapped.take(i + 1)));
        }
        i = i + 1;
    }
    push_char(&mut out, ']');
    proof {
        assert(mapped.take(n as int) =~= mapped);
        assert(out@ =~= json_array(mapped));
    }
    out
}

fn json_fs_array(v: &Vec<FsData>) -> (r: String)
    ensures
        r@ == json_array(v.deep_view().map_values(|f: FsDataV| json_fs(f))),
{
    let ghost mapped = v.deep_view().map_values(|f: FsDataV| json_fs(f));
    let mut out = String::new();
    push_char(&mut out, '[');
    let n = v.len();
    let mut i: usize = 0;
    proof {
        assert(mapped.take(0) =~= Seq::<Seq<char>>::empty());
        assert(out@ =~= seq!['['] + join_comma(mapped.take(0)));
    }
    while i < n
        invariant
            i <= n,
            n == v@.len(),
            mapped == v.deep_view().map_values(|f: FsDataV| json_fs(f)),
            mapped.len() == n,
            out@ == seq!['['] + join_comma(mapped.take(i as int)),
        decreases n - i,
    {
        proof {
            assert(mapped.take(i + 1).drop_last() =~= mapped.take(i as int));
            assert(mapped.take(i + 1).last() == mapped[i as int]);
            assert(mapped[i as int] == json_fs(v@[i as int]@));
        }
        if i > 0 {
            push_char(&mut out, ',');
        }
        let piece = json_fs_string(&v[i]);
        out.append(piece.as_str());
        proof {
            assert(out@ =~= seq!['['] + join_comma(mapped.take(i + 1)));
        }
        i = i + 1;
    }
    push_char(&mut out, ']');
    proof {
        assert(mapped.take(n as int) =~= mapped);
        assert(out@ =~= json_array(mapped));
    }
    out
}

fn json_procs_array(v: &Vec<Process>) -> (r: String)
    ensures
        r@ == json_array(v.deep_view().map_values(|p: ProcessV| json_process(p))),
{
    let ghost mapped = v.deep_view().map_values(|p: ProcessV| json_process(p));
    let mut out = String::new();
    push_char(&mut out, '[');
    let n = v.len();
    let mut i: usize = 0;
    proof {
        assert(mapped.take(0) =~= Seq::<Seq<char>>::empty());
        assert(out@ =~= seq!['['] + join_comma(mapped.take(0)));
    }
    while i < n
        invariant
            i <= n,
            n == v@.len(),
            mapped == v.deep_view().map_values(|p: ProcessV| json_process(p)),
            mapped.len() == n,
            out@ == seq!['['] + join_comma(mapped.take(i as int)),
        decreases n - i,
    {
        proof {
            assert(mapped.take(i + 1).drop_last() =~= mapped.take(i as int));
            assert(mapped.take(i + 1).last() == mapped[i as int]);
            assert(mapped[i as int] == json_process(v@[i as int]@));
        }
        if i > 0 {
            push_char(&mut out, ',');
        }
        let piece = json_process_string(&v[i]);
        out.append(piece.as_str());
        proof {
            assert(out@ =~= seq!['['] + join_comma(mapped.take(i + 1)));
        }
        i = i + 1;
    }
    push_char(&mut out, ']');
    proof {
        assert(mapped.take(n as int) =~= mapped);
        assert(out@ =~= json_array(mapped));
    }
    out
}

/// Serializes a snapshot.
pub fn status_json(s: &Status) -> (r: String)
    ensures
        r@ == spec_status_json(s@),
{
    let mut out = String::from_str("{\"host\":");
    match &s.host {
        None => {
            out.append("null");
        },
        Some(h) => {
            let piece = json_host_string(h);
            out.append(piece.as_str());
        },
    }
    out.append(",\"temp\":");
    match &s.temp {
        None => {
            out.append("null");
        },
        Some(t) => {
            let piece = json_temp_string(t);
            out.append(piece.as_str());
        },
    }
    out.append(",\"net_stats\":");
    match &s.net_stats {
        None => {
            out.append("null");
        },
        Some(v) => {
            let piece = json_ifas_array(v);
            out.append(piece.as_str());
        },
    }
    out.append(",\"cpu_usage\":");
    match &s.cpu_usage {
        None => {
            out.append("null");
        },
        Some(v) => {
            let piece = json_cores_array(v);
            out.append(piece.as_str());
        },
    }
    out.append(",\"ram\":");
    match &s.ram {
        None => {
            out.append("null");
        },
        Some(r) => {
            let piece = json_ram_string(r);
            out.append(piece.as_str());
        },
    }
    out.append(",\"disk\":");
    match &s.disk {
        None => {
            out.append("null");
        },
        Some(v) => {
            let piece = json_fs_array(v);
            out.append(piece.as_str());
        },
    }
    out.append(",\"proc\":");
    match &s.proc {
        None => {
            out.append("null");
        },
        Some(v) => {
            let piece = json_procs_array(v);
            out.append(piece.as_str());
        },
    }
    out.append("}");
    proof {
        assert(out@ =~= spec_status_json(s@));
    }
    out
}

/// What one round hands the engine: each collector's raw reading, absent
/// when its source could not be read at all.
pub struct RoundInput {
    /// The hostname source and the uptime source.
    pub host: Option<(String, String)>,
    pub temp: Option<String>,
    /// Fresh per-interface samples; absent when the enumeration failed.
    pub net: Option<Vec<IfaStats>>,
    pub cpu: Option<String>,
    pub ram: Option<String>,
    pub disk: Option<String>,
    /// One status line per process directory.
    pub proc: Option<Vec<String>>,
}

/// The mathematical value of a `RoundInput`.
pub struct RoundInputV {
    pub host: Option<(Seq<char>, Seq<char>)>,
    pub temp: Option<Seq<char>>,
    pub net: Option<Seq<IfaStatsV>>,
    pub cpu: Option<Seq<char>>,
    pub ram: Option<Seq<char>>,
    pub disk: Option<Seq<char>>,
    pub proc: Option<Seq<Seq<char>>>,
}

impl View for RoundInput {
    type V = RoundInputV;

    open spec fn view(&self) -> RoundInputV {
        RoundInputV {
            host: match self.host {
                None => None,
                Some(t) => Some((t.0@, t.1@)),
            },
            temp: match self.temp {
                None => None,
                Some(t) => Some(t@),
            },
            net: match self.net {
                None => None,
                Some(v) => Some(v.deep_view()),
            },
            cpu: match self.cpu {
                None => None,
                Some(t) => Some(t@),
            },
            ram: match self.ram {
                None => None,
                Some(t) => Some(t@),
            },
            disk: match self.disk {
                None => None,
                Some(t) => Some(t@),
            },
            proc: match self.proc {
                None => None,
                Some(v) => Some(v.deep_view()),
            },
        }
    }
}

/// What the host field holds after a round over the given sources.
pub open spec fn spec_host_field(input: Option<(Seq<char>, Seq<char>)>) -> Option<HostDataV> {
    match input {
        None => None,
        Some(t) => {
            if spec_parses_u64(crate::host::spec_uptime_field(t.1)) {
                Some(
                    HostDataV {
                        hostname: spec_trim_end(t.0),
                        uptime: spec_u64_val(crate::host::spec_uptime_field(t.1)) as u64,
                    },
                )
            } else {
                None
            }
        },
    }
}

/// What the temperature field holds after a round over the given source.
pub open spec fn spec_temp_field(input: Option<Seq<char>>) -> Option<TempData> {
    match input {
        None => None,
        Some(t) => {
            if spec_parses_i64(spec_remove_newlines(t)) {
                Some(TempData { millidegrees: spec_i64_val(spec_remove_newlines(t)) as i64 })
            } else {
                None
            }
        },
    }
}

/// What the memory field holds after a round over the given source.
pub open spec fn spec_ram_field(input: Option<Seq<char>>) -> Option<RamData> {
    match input {
        None => None,
        Some(t) => match spec_ram(t) {
            Ok(r) => Some(r),
            Err(_) => None,
        },
    }
}

/// What the CPU field and the CPU basis hold after a round: the field is
/// absent on a malformed source or a changed core count, and a failed
/// round leaves the basis alone.
pub open spec fn spec_cpu_round_step(input: Option<Seq<char>>, basis: Seq<CoreUsage>) -> (
    Option<Seq<CoreUsage>>,
    Seq<CoreUsage>,
) {
    match input {
        None => (None, basis),
        Some(text) => match spec_cpu_rows(text) {
            Err(_) => (None, basis),
            Ok(rows) => {
                if basis.len() == 0 {
                    (Some(rows), rows)
                } else if rows.len() == basis.len() {
                    (Some(Seq::new(rows.len(), |i: int| core_delta(rows[i], basis[i]))), rows)
                } else {
                    (None, basis)
                }
            },
        },
    }
}

/// What the network field and basis hold after a round.
pub open spec fn spec_net_round_step(
    input: Option<Seq<IfaStatsV>>,
    basis: Seq<IfaStatsV>,
) -> (Option<Seq<IfaStatsV>>, Seq<IfaStatsV>) {
    match input {
        None => (None, basis),
        Some(samples) => {
            let out = spec_net_round(basis, samples);
            (Some(out), out)
        },
    }
}

/// What the process field and basis hold after a round.
pub open spec fn spec_proc_round_step(
    input: Option<Seq<Seq<char>>>,
    page_size: Option<u64>,
    basis: Seq<TickEntry>,
) -> (Option<Seq<ProcessV>>, Seq<TickEntry>) {
    match input {
        None => (None, basis),
        Some(lines) => {
            let (table, fresh) = spec_proc_round(lines, page_size, basis);
            (Some(table), fresh)
        },
    }
}

/// The sampling-and-delta engine: the stateful samplers, the latest
/// snapshot, its published serialized form, and the consumer counter the
/// transport layer drives.
pub struct Engine {
    status: Status,
    cpu_usage: CpuUsage,
    net_data: NetData,
    proc_data: ProcessData,
    published: String,
    active_consumers: u64,
}

impl Engine {
    /// The latest snapshot.
    pub closed spec fn status_view(&self) -> StatusV {
        self.status@
    }

    /// The published serialized snapshot.
    pub closed spec fn published_view(&self) -> Seq<char> {
        self.published@
    }

    /// How many consumers are subscribed.
    pub closed spec fn consumers(&self) -> u64 {
        self.active_consumers
    }

    pub closed spec fn cpu_basis(&self) -> Seq<CoreUsage> {
        self.cpu_usage.basis()
    }

    pub closed spec fn net_basis(&self) -> Seq<IfaStatsV> {
        self.net_data.basis()
    }

    pub closed spec fn proc_basis(&self) -> Seq<TickEntry> {
        self.proc_data.basis()
    }

    /// The page size the process sampler resolved at construction.
    pub closed spec fn page_size(&self) -> Option<u64> {
        self.proc_data.resolved_page_size()
    }

    /// An engine with a given page size, for callers that resolved it
    /// themselves.
    pub fn with_page_size(page_size: Option<u64>) -> (r: Self)
        ensures
            Status::all_absent(r.status_view()),
            r.published_view() == Seq::<char>::empty(),
            r.consumers() == 0,
            r.cpu_basis() == Seq::<CoreUsage>::empty(),
            r.net_basis() == Seq::<IfaStatsV>::empty(),
            r.proc_basis() == Seq::<TickEntry>::empty(),
            r.page_size() == page_size,
    {
        Engine {
            status: Status::empty(),
            cpu_usage: CpuUsage::new(),
            net_data: NetData::new(),
            proc_data: ProcessData::with_page_size(page_size),
            published: String::new(),
            active_consumers: 0,
        }
    }

    /// A fresh engine: empty bases, nothing published yet, no consumers;
    /// the page size is asked of the kernel once, here, and is positive
    /// when it resolved at all.
    pub fn new() -> (r: Self)
        ensures
            Status::all_absent(r.status_view()),
            r.published_view() == Seq::<char>::empty(),
            r.consumers() == 0,
            r.cpu_basis() == Seq::<CoreUsage>::empty(),
            r.net_basis() == Seq::<IfaStatsV>::empty(),
            r.proc_basis() == Seq::<TickEntry>::empty(),
            (r.page_size() matches Some(ps) ==> ps > 0),
    {
        Engine {
            status: Status::empty(),
            cpu_usage: CpuUsage::new(),
            net_data: NetData::new(),
            proc_data: ProcessData::new(),
            published: String::new(),
            active_consumers: 0,
        }
    }

    /// One full round: run every collector on its reading, set each
    /// snapshot field independently — one collector's failure never
    /// touches another's field — then serialize and publish.
    pub fn round(&mut self, input: RoundInput)
        ensures
            final(self).status_view().host == spec_host_field(input@.host),
            final(self).status_view().temp == spec_temp_field(input@.temp),
            final(self).status_view().ram == spec_ram_field(input@.ram),
            final(self).status_view().cpu_usage == spec_cpu_round_step(
                input@.cpu,
                old(self).cpu_basis(),
            ).0,
            final(self).cpu_basis() == spec_cpu_round_step(input@.cpu, old(self).cpu_basis()).1,
            final(self).status_view().net_stats == spec_net_round_step(
                input@.net,
                old(self).net_basis(),
            ).0,
            final(self).net_basis() == spec_net_round_step(input@.net, old(self).net_basis()).1,
            final(self).status_view().proc == spec_proc_round_step(
                input@.proc,
                old(self).page_size(),
                old(self).proc_basis(),
            ).0,
            final(self).proc_basis() == spec_proc_round_step(
                input@.proc,
                old(self).page_size(),
                old(self).proc_basis(),
            ).1,
            (match input@.disk {
                None => final(self).status_view().disk is None,
                Some(text) => final(self).status_view().disk matches Some(rows)
                    && rows.len() <= spec_mounts(text).len() && disk_rows_from_probes(
                    rows,
                    spec_mounts(text),
                ),
            }),
            final(self).page_size() == old(self).page_size(),
            final(self).published_view() == spec_status_json(final(self).status_view()),
            final(self).consumers() == old(self).consumers(),
    {
        self.status.host = match input.host {
            None => None,
            Some(texts) => match HostData::get(texts.0.as_str(), texts.1.as_str()) {
                Ok(h) => Some(h),
                Err(_) => None,
            },
        };
        self.status.temp = match input.temp {
            None => None,
            Some(text) => TempData::get(text.as_str()),
        };
        self.status.net_stats = match input.net {
            None => None,
            Some(samples) => {
                self.net_data.update(&samples);
                Some(self.net_data.stats_snapshot())
            },
        };
        self.status.cpu_usage = match input.cpu {
            None => None,
            Some(text) => match self.cpu_usage.update(text.as_str()) {
                Ok(_) => Some(self.cpu_usage.usage_snapshot()),
                Err(_) => None,
            },
        };
        self.status.ram = match input.ram {
            None => None,
            Some(text) => match RamData::get(text.as_str()) {
                Ok(r) => Some(r),
                Err(_) => None,
            },
        };
        self.status.disk = match input.disk {
            None => None,
            Some(text) => Some(DiskData::get(text.as_str()).filesystems),
        };
        self.status.proc = match input.proc {
            None => None,
            Some(lines) => {
                self.proc_data.update(&lines);
                Some(self.proc_data.table_snapshot())
            },
        };
        self.published = status_json(&self.status);
    }

    /// The most recently published serialized snapshot; empty before the
    /// first round completes. Reading never changes anything, so two reads
    /// without an intervening round return byte-identical output.
    pub fn get_current_snapshot_json(&self) -> (r: String)
        ensures
            r@ == self.published_view(),
    {
        self.published.clone()
    }

    /// A consumer subscribed.
    pub fn notify_consumer_active(&mut self)
        ensures
            final(self).consumers() == (if old(self).consumers() < u64::MAX {
                (old(self).consumers() + 1) as u64
            } else {
                old(self).consumers()
            }),
            final(self).status_view() == old(self).status_view(),
            final(self).published_view() == old(self).published_view(),
            final(self).cpu_basis() == old(self).cpu_basis(),
            final(self).net_basis() == old(self).net_basis(),
            final(self).proc_basis() == old(self).proc_basis(),
            final(self).page_size() == old(self).page_size(),
    {
        if self.active_consumers < u64::MAX {
            self.active_consumers = self.active_consumers + 1;
        }
    }

    /// A consumer unsubscribed.
    pub fn notify_consumer_inactive(&mut self)
        ensures
            final(self).consumers() == (if old(self).consumers() > 0 {
                (old(self).consumers() - 1) as u64
            } else {
                0
            }),
            final(self).status_view() == old(self).status_view(),
            final(self).published_view() == old(self).published_view(),
            final(self).cpu_basis() == old(self).cpu_basis(),
            final(self).net_basis() == old(self).net_basis(),
            final(self).proc_basis() == old(self).proc_basis(),
            final(self).page_size() == old(self).page_size(),
    {
        if self.active_consumers > 0 {
            self.active_consumers = self.active_consumers - 1;
        }
    }

    /// The mode the loop takes into its next tick.
    pub fn pace(&self) -> (mode: PaceMode)
        ensures
            mode == next_pace_spec(self.consumers()),
    {
        next_pace(self.active_consumers)
    }
}

/// A snapshot with every field absent still serializes, to exactly this
/// structurally valid record.
pub proof fn lemma_all_absent_snapshot_json(v: StatusV)
    requires
        Status::all_absent(v),
    ensures
        spec_status_json(v)
            == "{\"host\":null,\"temp\":null,\"net_stats\":null,\"cpu_usage\":null,\"ram\":null,\"disk\":null,\"proc\":null}"@,
{
    reveal_strlit("{\"host\":");
    reveal_strlit(",\"temp\":");
    reveal_strlit(",\"net_stats\":");
    reveal_strlit(",\"cpu_usage\":");
    reveal_strlit(",\"ram\":");
    reveal_strlit(",\"disk\":");
    reveal_strlit(",\"proc\":");
    reveal_strlit("}");
    reveal_strlit("null");
    reveal_strlit(
        "{\"host\":null,\"temp\":null,\"net_stats\":null,\"cpu_usage\":null,\"ram\":null,\"disk\":null,\"proc\":null}",
    );
    assert(spec_status_json(v)
        =~= "{\"host\":null,\"temp\":null,\"net_stats\":null,\"cpu_usage\":null,\"ram\":null,\"disk\":null,\"proc\":null}"@);
}

/// Reading the published snapshot is idempotent: two reads without an
/// intervening round return byte-identical text, since each equals the
/// engine's published value.
pub proof fn lemma_snapshot_read_idempotent(e: &Engine, first: Seq<char>, second: Seq<char>)
    requires
        first == e.published_view(),
        second == e.published_view(),
    ensures
        first == second,
{
}

} // verus!
