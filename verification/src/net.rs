//! Per-interface network delta sampler: turns cumulative byte counters
//! into rounded per-second rates, and retains interfaces that vanish for a
//! round rather than letting them flicker out of the snapshot.

use vstd::prelude::*;

use crate::cpu::sub_or_zero;

verus! {

/// A network interface, identified by its stable path and name.
pub struct NetworkInterface {
    pub interface_path: String,
    pub interface_name: String,
}

/// The mathematical value of a `NetworkInterface`.
pub struct NetworkInterfaceV {
    pub interface_path: Seq<char>,
    pub interface_name: Seq<char>,
}

impl View for NetworkInterface {
    type V = NetworkInterfaceV;

    open spec fn view(&self) -> NetworkInterfaceV {
        NetworkInterfaceV {
            interface_path: self.interface_path@,
            interface_name: self.interface_name@,
        }
    }
}

impl DeepView for NetworkInterface {
    type V = NetworkInterfaceV;

    open spec fn deep_view(&self) -> NetworkInterfaceV {
        self.view()
    }
}

impl NetworkInterface {
    pub fn new(interface_path: String, interface_name: String) -> (r: Self)
        ensures
            r@.interface_path == interface_path@,
            r@.interface_name == interface_name@,
    {
        NetworkInterface { interface_path, interface_name }
    }

    pub fn duplicate(&self) -> (r: Self)
        ensures
            r@ == self@,
    {
        NetworkInterface {
            interface_path: self.interface_path.clone(),
            interface_name: self.interface_name.clone(),
        }
    }
}

/// One interface's statistics: cumulative totals, rounded per-second
/// speeds, the sample timestamp in milliseconds, and whether this round
/// refreshed the entry or retained it stale.
pub struct IfaStats {
    pub interface: NetworkInterface,
    pub upload_total: u64,
    pub download_total: u64,
    pub upload_speed: u64,
    pub download_speed: u64,
    pub timestamp: u128,
    pub has_updated: bool,
}

/// The mathematical value of an `IfaStats`.
pub struct IfaStatsV {
    pub interface: NetworkInterfaceV,
    pub upload_total: u64,
    pub download_total: u64,
    pub upload_speed: u64,
    pub download_speed: u64,
    pub timestamp: u128,
    pub has_updated: bool,
}

impl View for IfaStats {
    type V = IfaStatsV;

    open spec fn view(&self) -> IfaStatsV {
        IfaStatsV {
            interface: self.interface@,
            upload_total: self.upload_total,
            download_total: self.download_total,
            upload_speed: self.upload_speed,
            download_speed: self.download_speed,
            timestamp: self.timestamp,
            has_updated: self.has_updated,
        }
    }
}

impl DeepView for IfaStats {
    type V = IfaStatsV;

    open spec fn deep_view(&self) -> IfaStatsV {
        self.view()
    }
}

impl IfaStats {
    /// A freshly read sample: raw totals, no speeds yet, marked refreshed.
    pub fn fresh(interface: NetworkInterface, upload_total: u64, download_total: u64, timestamp:
        u128) -> (r: Self)
        ensures
            r@ == (IfaStatsV {
                interface: interface@,
                upload_total,
                download_total,
                upload_speed: 0,
                download_speed: 0,
                timestamp,
                has_updated: true,
            }),
    {
        IfaStats {
            interface,
            upload_total,
            download_total,
            upload_speed: 0,
            download_speed: 0,
            timestamp,
            has_updated: true,
        }
    }

    pub fn duplicate(&self) -> (r: Self)
        ensures
            r@ == self@,
    {
        IfaStats {
            interface: self.interface.duplicate(),
            upload_total: self.upload_total,
            download_total: self.download_total,
            upload_speed: self.upload_speed,
            download_speed: self.download_speed,
            timestamp: self.timestamp,
            has_updated: self.has_updated,
        }
    }

    fn stale_copy(&self) -> (r: Self)
        ensures
            r@ == spec_stale(self@),
    {
        IfaStats {
            interface: self.interface.duplicate(),
            upload_total: self.upload_total,
            download_total: self.download_total,
            upload_speed: self.upload_speed,
            download_speed: self.download_speed,
            timestamp: self.timestamp,
            has_updated: false,
        }
    }
}

/// Why a network round failed: the interface enumeration itself was
/// unreadable, so there were no samples at all.
#[derive(Clone, Copy, PartialEq, Eq, Structural, Debug)]
pub enum NetDataUpdateError {
    NoInterfaces,
}

/// Milliseconds between two samples; zero when the clock did not advance.
pub open spec fn elapsed_ms(cur: u128, prev: u128) -> u128 {
    if cur >= prev {
        (cur - prev) as u128
    } else {
        0
    }
}

/// `delta` bytes over `elapsed` milliseconds, times 1024, rounded half-up
/// to the nearest integer; zero when no time elapsed.
pub open spec fn round_rate(delta: u64, elapsed: u128) -> int {
    if elapsed == 0 {
        0
    } else {
        (2048 * delta + elapsed) / (2 * elapsed as int)
    }
}

/// The rate clipped into a counter.
pub open spec fn speed_of(delta: u64, elapsed: u128) -> u64 {
    if round_rate(delta, elapsed) > u64::MAX {
        u64::MAX
    } else {
        round_rate(delta, elapsed) as u64
    }
}

/// The refreshed entry a sample yields against its previous entry: new
/// totals and timestamp, speeds from the counter deltas over the elapsed
/// time, the identity kept from the previous entry.
pub open spec fn spec_compute_speed(current: IfaStatsV, old: IfaStatsV) -> IfaStatsV {
    let elapsed = elapsed_ms(current.timestamp, old.timestamp);
    IfaStatsV {
        interface: old.interface,
        upload_total: current.upload_total,
        download_total: current.download_total,
        upload_speed: speed_of(sub_or_zero(current.upload_total, old.upload_total), elapsed),
        download_speed: speed_of(sub_or_zero(current.download_total, old.download_total), elapsed),
        timestamp: current.timestamp,
        has_updated: current.has_updated,
    }
}

/// A retained entry: everything kept, only the refreshed flag cleared.
pub open spec fn spec_stale(e: IfaStatsV) -> IfaStatsV {
    IfaStatsV {
        interface: e.interface,
        upload_total: e.upload_total,
        download_total: e.download_total,
        upload_speed: e.upload_speed,
        download_speed: e.download_speed,
        timestamp: e.timestamp,
        has_updated: false,
    }
}

/// The entry stored under an interface name; when a name was stored twice,
/// the later entry counts.
pub open spec fn stats_lookup(s: Seq<IfaStatsV>, name: Seq<char>) -> Option<IfaStatsV>
    decreases s.len(),
{
    if s.len() == 0 {
        None
    } else if s.last().interface.interface_name == name {
        Some(s.last())
    } else {
        stats_lookup(s.drop_last(), name)
    }
}

/// What one sample yields: a delta entry when its interface has a previous
/// entry, the bootstrap sample itself when it has none.
pub open spec fn refresh_one(sample: IfaStatsV, prev: Seq<IfaStatsV>) -> IfaStatsV {
    match stats_lookup(prev, sample.interface.interface_name) {
        Some(old) => spec_compute_speed(sample, old),
        None => sample,
    }
}

/// The previous entries whose interface sent no sample this round, kept
/// stale, in their stored order.
pub open spec fn stale_part(prev: Seq<IfaStatsV>, samples: Seq<IfaStatsV>) -> Seq<IfaStatsV>
    decreases prev.len(),
{
    if prev.len() == 0 {
        Seq::empty()
    } else {
        let rest = stale_part(prev.drop_last(), samples);
        if stats_lookup(samples, prev.last().interface.interface_name) is None {
            rest.push(spec_stale(prev.last()))
        } else {
            rest
        }
    }
}

/// A whole round: every sample refreshed against the previous map, then
/// every previous entry that sent no sample, retained stale.
pub open spec fn spec_net_round(prev: Seq<IfaStatsV>, samples: Seq<IfaStatsV>) -> Seq<IfaStatsV> {
    Seq::new(samples.len(), |i: int| refresh_one(samples[i], prev)) + stale_part(prev, samples)
}

fn speed_exec(delta: u64, elapsed: u128) -> (r: u64)
    ensures
        r == speed_of(delta, elapsed),
{
    if elapsed == 0 {
        return 0;
    }
    let n2: u128 = (delta as u128) * 2048;
    if n2 < elapsed {
        proof {
            assert((2048 * delta + elapsed) / (2 * elapsed as int) == 0) by (nonlinear_arith)
                requires
                    0 < elapsed,
                    2048 * delta < elapsed,
            ;
        }
        return 0;
    }
    let q: u128 = (n2 + elapsed) / (2 * elapsed);
    proof {
        assert(q == round_rate(delta, elapsed));
    }
    if q > 18446744073709551615 {
        u64::MAX
    } else {
        q as u64
    }
}

/// The refreshed entry a sample yields against its previous entry.
pub fn compute_speed(current: &IfaStats, old: &IfaStats) -> (r: IfaStats)
    ensures
        r@ == spec_compute_speed(current@, old@),
{
    let elapsed: u128 = if current.timestamp >= old.timestamp {
        current.timestamp - old.timestamp
    } else {
        0
    };
    let up_delta = if current.upload_total >= old.upload_total {
        current.upload_total - old.upload_total
    } else {
        0
    };
    let down_delta = if current.download_total >= old.download_total {
        current.download_total - old.download_total
    } else {
        0
    };
    IfaStats {
        interface: old.interface.duplicate(),
        upload_total: current.upload_total,
        download_total: current.download_total,
        upload_speed: speed_exec(up_delta, elapsed),
        download_speed: speed_exec(down_delta, elapsed),
        timestamp: current.timestamp,
        has_updated: current.has_updated,
    }
}

/// The position of the entry `stats_lookup` denotes.
fn find_last_by_name(v: &Vec<IfaStats>, name: &String) -> (r: Option<usize>)
    ensures
        (match stats_lookup(v.deep_view(), name@) {
            None => r is None,
            Some(e) => r matches Some(k) && k < v@.len() && v@[k as int]@ == e,
        }),
{
    let n = v.len();
    let mut found: Option<usize> = None;
    let mut i: usize = 0;
    proof {
        assert(v.deep_view().take(0) =~= Seq::<IfaStatsV>::empty());
    }
    while i < n
        invariant
            i <= n,
            n == v@.len(),
            v.deep_view().len() == n,
            (match stats_lookup(v.deep_view().take(i as int), name@) {
                None => found is None,
                Some(e) => found matches Some(k) && k < i && v@[k as int]@ == e,
            }),
        decreases n - i,
    {
        proof {
            assert(v.deep_view().take(i + 1).drop_last() =~= v.deep_view().take(i as int));
            assert(v.deep_view().take(i + 1).last() == v@[i as int]@);
        }
        if v[i].interface.interface_name == *name {
            found = Some(i);
        }
        i = i + 1;
    }
    proof {
        assert(v.deep_view().take(n as int) =~= v.deep_view());
    }
    found
}

/// The network delta sampler: `stats` is what the latest round published,
/// the basis is the full map the next round takes its deltas against.
pub struct NetData {
    pub stats: Vec<IfaStats>,
    old_stats: Vec<IfaStats>,
}

impl NetData {
    /// What the latest round published.
    pub closed spec fn published(&self) -> Seq<IfaStatsV> {
        self.stats.deep_view()
    }

    /// The stored per-interface basis.
    pub closed spec fn basis(&self) -> Seq<IfaStatsV> {
        self.old_stats.deep_view()
    }

    pub fn new() -> (r: Self)
        ensures
            r.published() == Seq::<IfaStatsV>::empty(),
            r.basis() == Seq::<IfaStatsV>::empty(),
    {
        let r = NetData { stats: Vec::new(), old_stats: Vec::new() };
        proof {
            assert(r.published() =~= Seq::<IfaStatsV>::empty());
            assert(r.basis() =~= Seq::<IfaStatsV>::empty());
        }
        r
    }

    /// A copy of what the latest round published.
    pub fn stats_snapshot(&self) -> (r: Vec<IfaStats>)
        ensures
            r.deep_view() == self.published(),
    {
        duplicate_stats(&self.stats)
    }

    /// One sampling round over the given fresh samples. Samples of known
    /// interfaces become deltas, new ones bootstrap as they are, and
    /// previous entries without a sample are retained stale; the basis for
    /// the next round is the full published map.
    pub fn update(&mut self, samples: &Vec<IfaStats>)
        ensures
            final(self).published() == spec_net_round(old(self).basis(), samples.deep_view()),
            final(self).basis() == final(self).published(),
    {
        let ghost prev_dv = self.old_stats.deep_view();
        let ghost samples_dv = samples.deep_view();
        let mut out: Vec<IfaStats> = Vec::new();
        let n = samples.len();
        let mut i: usize = 0;
        proof {
            assert(out.deep_view() =~= Seq::new(0nat, |j: int| refresh_one(samples_dv[j], prev_dv)));
        }
        while i < n
            invariant
                i <= n,
                n == samples@.len(),
                samples_dv == samples.deep_view(),
                samples_dv.len() == n,
                self == old(self),
                prev_dv == self.old_stats.deep_view(),
                out.deep_view() == Seq::new(i as nat, |j: int| refresh_one(samples_dv[j], prev_dv)),
            decreases n - i,
        {
            let ghost before = out.deep_view();
            let entry = match find_last_by_name(&self.old_stats, &samples[i].interface.interface_name) {
                Some(k) => compute_speed(&samples[i], &self.old_stats[k]),
                None => samples[i].duplicate(),
            };
            proof {
                assert(samples@[i as int]@ == samples_dv[i as int]);
                assert(entry@ == refresh_one(samples_dv[i as int], prev_dv));
            }
            out.push(entry);
            proof {
                assert(out.deep_view() =~= before.push(entry@));
                assert(before.push(entry@) =~= Seq::new(
                    (i + 1) as nat,
                    |j: int| refresh_one(samples_dv[j], prev_dv),
                ));
            }
            i = i + 1;
        }
        let ghost refreshed = out.deep_view();
        let m = self.old_stats.len();
        let mut k: usize = 0;
        proof {
            assert(prev_dv.take(0) =~= Seq::<IfaStatsV>::empty());
            assert(out.deep_view() =~= refreshed + stale_part(prev_dv.take(0), samples_dv));
        }
        while k < m
            invariant
                k <= m,
                m == self.old_stats@.len(),
                samples_dv == samples.deep_view(),
                self == old(self),
                prev_dv == self.old_stats.deep_view(),
                prev_dv.len() == m,
                refreshed == Seq::new(
                    samples_dv.len(),
                    |j: int| refresh_one(samples_dv[j], prev_dv),
                ),
                out.deep_view() == refreshed + stale_part(prev_dv.take(k as int), samples_dv),
            decreases m - k,
        {
            proof {
                assert(prev_dv.take(k + 1).drop_last() =~= prev_dv.take(k as int));
                assert(prev_dv.take(k + 1).last() == prev_dv[k as int]);
                assert(self.old_stats@[k as int]@ == prev_dv[k as int]);
            }
            let ghost before = out.deep_view();
            match find_last_by_name(samples, &self.old_stats[k].interface.interface_name) {
                Some(_) => {
                },
                None => {
                    let stale = self.old_stats[k].stale_copy();
                    out.push(stale);
                    proof {
                        assert(out.deep_view() =~= before.push(spec_stale(prev_dv[k as int])));
                        assert(before.push(spec_stale(prev_dv[k as int])) =~= refreshed
                            + stale_part(prev_dv.take(k + 1), samples_dv));
                    }
                },
            }
            k = k + 1;
        }
        proof {
            assert(prev_dv.take(m as int) =~= prev_dv);
        }
        let basis = duplicate_stats(&out);
        self.stats = out;
        self.old_stats = basis;
    }
}

/// A field-wise copy of a stats vector.
fn duplicate_stats(v: &Vec<IfaStats>) -> (r: Vec<IfaStats>)
    ensures
        r.deep_view() == v.deep_view(),
{
    let mut r: Vec<IfaStats> = Vec::new();
    let n = v.len();
    let mut i: usize = 0;
    proof {
        assert(r.deep_view() =~= v.deep_view().take(0));
    }
    while i < n
        invariant
            i <= n,
            n == v@.len(),
            r.deep_view() == v.deep_view().take(i as int),
        decreases n - i,
    {
        let ghost before = r.deep_view();
        let e = v[i].duplicate();
        r.push(e);
        proof {
            assert(r.deep_view() =~= before.push(e@));
            assert(before.push(e@) =~= v.deep_view().take(i + 1));
        }
        i = i + 1;
    }
    proof {
        assert(v.deep_view().take(n as int) =~= v.deep_view());
    }
    r
}

/// Whether some entry among the first `i` has this path.
pub open spec fn path_seen(s: Seq<NetworkInterfaceV>, i: int, path: Seq<char>) -> bool {
    exists|j: int| 0 <= j < i && s[j].interface_path == path
}

/// The entries whose path no earlier entry has: the first sighting of each
/// interface wins.
pub open spec fn spec_dedup_by_path(s: Seq<NetworkInterfaceV>) -> Seq<NetworkInterfaceV>
    decreases s.len(),
{
    if s.len() == 0 {
        Seq::empty()
    } else {
        let rest = spec_dedup_by_path(s.drop_last());
        if path_seen(s, s.len() - 1, s.last().interface_path) {
            rest
        } else {
            rest.push(s.last())
        }
    }
}

/// Drops every enumeration entry whose path an earlier entry already has.
pub fn dedup_by_path(entries: &Vec<NetworkInterface>) -> (r: Vec<NetworkInterface>)
    ensures
        r.deep_view() == spec_dedup_by_path(entries.deep_view()),
{
    let ghost dv = entries.deep_view();
    let mut out: Vec<NetworkInterface> = Vec::new();
    let n = entries.len();
    let mut i: usize = 0;
    proof {
        assert(dv.take(0) =~= Seq::<NetworkInterfaceV>::empty());
        assert(out.deep_view() =~= spec_dedup_by_path(dv.take(0)));
    }
    while i < n
        invariant
            i <= n,
            n == entries@.len(),
            dv == entries.deep_view(),
            dv.len() == n,
            out.deep_view() == spec_dedup_by_path(dv.take(i as int)),
        decreases n - i,
    {
        let ghost p = dv[i as int].interface_path;
        let mut seen = false;
        let mut j: usize = 0;
        while j < i
            invariant
                j <= i,
                i < n,
                n == entries@.len(),
                dv == entries.deep_view(),
                dv.len() == n,
                p == dv[i as int].interface_path,
                seen == path_seen(dv, j as int, p),
            decreases i - j,
        {
            if entries[j].interface_path == entries[i].interface_path {
                seen = true;
                proof {
                    assert(dv[j as int].interface_path == p);
                    assert(path_seen(dv, j + 1, p));
                }
            } else {
                proof {
                    assert(path_seen(dv, j + 1, p) == path_seen(dv, j as int, p)) by {
                        if path_seen(dv, j + 1, p) {
                            let w = choose|w: int|
                                0 <= w < j + 1 && (#[trigger] dv[w]).interface_path == p;
                            assert(w < j);
                            assert(path_seen(dv, j as int, p));
                        }
                        if path_seen(dv, j as int, p) {
                            let w = choose|w: int|
                                0 <= w < j && (#[trigger] dv[w]).interface_path == p;
                            assert(0 <= w < j + 1 && dv[w].interface_path == p);
                        }
                    }
                }
            }
            j = j + 1;
        }
        proof {
            assert(dv.take(i + 1).drop_last() =~= dv.take(i as int));
            assert(dv.take(i + 1).last() == dv[i as int]);
            assert(path_seen(dv.take(i + 1), i as int, p) == path_seen(dv, i as int, p)) by {
                if path_seen(dv.take(i + 1), i as int, p) {
                    let w = choose|w: int|
                        0 <= w < i && (#[trigger] dv.take(i + 1)[w]).interface_path == p;
                    assert(dv[w].interface_path == p);
                    assert(path_seen(dv, i as int, p));
                }
                if path_seen(dv, i as int, p) {
                    let w = choose|w: int|
                        0 <= w < i && (#[trigger] dv[w]).interface_path == p;
                    assert(0 <= w < i && dv.take(i + 1)[w].interface_path == p);
                }
            }
        }
        if !seen {
            let ghost before = out.deep_view();
            let e = entries[i].duplicate();
            out.push(e);
            proof {
                assert(out.deep_view() =~= before.push(dv[i as int]));
            }
        }
        i = i + 1;
    }
    proof {
        assert(dv.take(n as int) =~= dv);
    }
    out
}

/// An interface with a previous entry reports, at its sample's position,
/// exactly the delta entry of its sample against that previous entry.
pub proof fn lemma_known_interface_delta(
    prev: Seq<IfaStatsV>,
    samples: Seq<IfaStatsV>,
    i: int,
    old_entry: IfaStatsV,
)
    requires
        0 <= i < samples.len(),
        stats_lookup(prev, samples[i].interface.interface_name) == Some(old_entry),
    ensures
        spec_net_round(prev, samples)[i] == spec_compute_speed(samples[i], old_entry),
{
}

/// An interface new to the basis bootstraps: its entry is the sample
/// itself, a first sample never reports a delta.
pub proof fn lemma_bootstrap_interface(prev: Seq<IfaStatsV>, samples: Seq<IfaStatsV>, i: int)
    requires
        0 <= i < samples.len(),
        stats_lookup(prev, samples[i].interface.interface_name) is None,
    ensures
        spec_net_round(prev, samples)[i] == samples[i],
{
}

proof fn lemma_stale_part_contains(prev: Seq<IfaStatsV>, samples: Seq<IfaStatsV>, k: int)
    requires
        0 <= k < prev.len(),
        stats_lookup(samples, prev[k].interface.interface_name) is None,
    ensures
        stale_part(prev, samples).contains(spec_stale(prev[k])),
    decreases prev.len(),
{
    let rest = stale_part(prev.drop_last(), samples);
    if k == prev.len() - 1 {
        assert(stale_part(prev, samples).last() == spec_stale(prev[k]));
    } else {
        assert(prev.drop_last()[k] == prev[k]);
        lemma_stale_part_contains(prev.drop_last(), samples, k);
        let j = choose|j: int| 0 <= j < rest.len() && rest[j] == spec_stale(prev[k]);
        if stats_lookup(samples, prev.last().interface.interface_name) is None {
            assert(stale_part(prev, samples)[j] == spec_stale(prev[k]));
        } else {
            assert(stale_part(prev, samples)[j] == spec_stale(prev[k]));
        }
    }
}

/// An interface present in the basis but absent from this round's samples
/// is retained in the round's output, refreshed flag cleared and totals,
/// speeds and timestamp unchanged.
pub proof fn lemma_absent_interface_retained(
    prev: Seq<IfaStatsV>,
    samples: Seq<IfaStatsV>,
    k: int,
)
    requires
        0 <= k < prev.len(),
        stats_lookup(samples, prev[k].interface.interface_name) is None,
    ensures
        spec_net_round(prev, samples).contains(spec_stale(prev[k])),
{
    lemma_stale_part_contains(prev, samples, k);
    let j = choose|j: int|
        0 <= j < stale_part(prev, samples).len() && stale_part(prev, samples)[j] == spec_stale(
            prev[k],
        );
    assert(spec_net_round(prev, samples)[samples.len() + j] == spec_stale(prev[k]));
}

} // verus!
