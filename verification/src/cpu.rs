//! CPU usage delta sampler: parses the aggregate CPU counter source and
//! turns cumulative per-core scheduler ticks into per-round deltas.

use vstd::prelude::*;

use crate::text::{
    spec_split_keep, spec_tokens, spec_parses_u64, spec_u64_val, split_keep, split_tokens,
    parse_u64, SepClass,
};

verus! {

/// Scheduler-tick counters of one CPU row. After a bootstrap round these
/// are raw cumulative counters; after any later round, ticks elapsed since
/// the previous sample.
#[derive(Clone, Copy, PartialEq, Eq, Structural, Debug)]
pub struct CoreUsage {
    pub user: u64,
    pub nice: u64,
    pub system: u64,
    pub idle: u64,
    pub iowait: u64,
    pub irq: u64,
    pub softirq: u64,
    pub steal: u64,
    pub guest: u64,
    pub guest_nice: u64,
}

/// Why a CPU round failed.
#[derive(Clone, Copy, PartialEq, Eq, Structural, Debug)]
pub enum CpuErr {
    /// The source reported a different number of CPU rows than the stored
    /// basis: per-core identity by position is no longer meaningful.
    CoresChanged,
    /// A row in CPU shape held a field that is not a decimal counter.
    Malformed,
}

/// `a - b`, or zero when the counter moved backwards.
pub open spec fn sub_or_zero(a: u64, b: u64) -> u64 {
    if a >= b {
        (a - b) as u64
    } else {
        0
    }
}

/// Field-wise counter delta of two rows.
pub open spec fn core_delta(cur: CoreUsage, prev: CoreUsage) -> CoreUsage {
    CoreUsage {
        user: sub_or_zero(cur.user, prev.user),
        nice: sub_or_zero(cur.nice, prev.nice),
        system: sub_or_zero(cur.system, prev.system),
        idle: sub_or_zero(cur.idle, prev.idle),
        iowait: sub_or_zero(cur.iowait, prev.iowait),
        irq: sub_or_zero(cur.irq, prev.irq),
        softirq: sub_or_zero(cur.softirq, prev.softirq),
        steal: sub_or_zero(cur.steal, prev.steal),
        guest: sub_or_zero(cur.guest, prev.guest),
        guest_nice: sub_or_zero(cur.guest_nice, prev.guest_nice),
    }
}

/// Whether a line has the shape of a per-core counter row: a label and ten
/// counter fields, and not the interrupt row, whose label is `intr`.
pub open spec fn row_shape(line: Seq<char>) -> bool {
    let t = spec_tokens(line, SepClass::Space);
    t.len() == 11 && t[0] != "intr"@
}

/// Whether all ten counter fields of a row in CPU shape are decimal.
pub open spec fn row_parses(line: Seq<char>) -> bool {
    let t = spec_tokens(line, SepClass::Space);
    forall|i: int| 1 <= i <= 10 ==> spec_parses_u64(#[trigger] t[i])
}

/// The row a line in CPU shape denotes.
pub open spec fn spec_row(line: Seq<char>) -> CoreUsage {
    let t = spec_tokens(line, SepClass::Space);
    CoreUsage {
        user: spec_u64_val(t[1]) as u64,
        nice: spec_u64_val(t[2]) as u64,
        system: spec_u64_val(t[3]) as u64,
        idle: spec_u64_val(t[4]) as u64,
        iowait: spec_u64_val(t[5]) as u64,
        irq: spec_u64_val(t[6]) as u64,
        softirq: spec_u64_val(t[7]) as u64,
        steal: spec_u64_val(t[8]) as u64,
        guest: spec_u64_val(t[9]) as u64,
        guest_nice: spec_u64_val(t[10]) as u64,
    }
}

/// The rows of the lines from index `i` on, up to the first line not in CPU
/// shape; an error when a row in shape holds a non-decimal field.
pub open spec fn spec_rows(lines: Seq<Seq<char>>, i: int) -> Result<Seq<CoreUsage>, ()>
    decreases lines.len() - i,
{
    if i < 0 || i >= lines.len() || !row_shape(lines[i]) {
        Ok(Seq::empty())
    } else if !row_parses(lines[i]) {
        Err(())
    } else {
        match spec_rows(lines, i + 1) {
            Ok(rest) => Ok(seq![spec_row(lines[i])] + rest),
            Err(e) => Err(e),
        }
    }
}

/// What parsing the whole CPU counter source yields.
pub open spec fn spec_cpu_rows(text: Seq<char>) -> Result<Seq<CoreUsage>, ()> {
    spec_rows(spec_split_keep(text, SepClass::Line), 0)
}

fn sub_or_zero_exec(a: u64, b: u64) -> (r: u64)
    ensures
        r == sub_or_zero(a, b),
{
    if a >= b {
        a - b
    } else {
        0
    }
}

fn core_delta_exec(cur: &CoreUsage, prev: &CoreUsage) -> (r: CoreUsage)
    ensures
        r == core_delta(*cur, *prev),
{
    CoreUsage {
        user: sub_or_zero_exec(cur.user, prev.user),
        nice: sub_or_zero_exec(cur.nice, prev.nice),
        system: sub_or_zero_exec(cur.system, prev.system),
        idle: sub_or_zero_exec(cur.idle, prev.idle),
        iowait: sub_or_zero_exec(cur.iowait, prev.iowait),
        irq: sub_or_zero_exec(cur.irq, prev.irq),
        softirq: sub_or_zero_exec(cur.softirq, prev.softirq),
        steal: sub_or_zero_exec(cur.steal, prev.steal),
        guest: sub_or_zero_exec(cur.guest, prev.guest),
        guest_nice: sub_or_zero_exec(cur.guest_nice, prev.guest_nice),
    }
}

/// Parses one line in CPU shape; `None` when a counter field is not
/// decimal.
fn parse_row(line: &str) -> (r: Option<CoreUsage>)
    requires
        row_shape(line@),
    ensures
        r is Some <==> row_parses(line@),
        (r matches Some(c) ==> c == spec_row(line@)),
{
    let t = split_tokens(line, SepClass::Space);
    proof {
        assert(t@.len() == spec_tokens(line@, SepClass::Space).len());
        assert(forall|i: int|
            0 <= i < t@.len() ==> (#[trigger] t@[i])@ == spec_tokens(line@, SepClass::Space)[i]);
    }
    let user = parse_u64(t[1].as_str());
    let nice = parse_u64(t[2].as_str());
    let system = parse_u64(t[3].as_str());
    let idle = parse_u64(t[4].as_str());
    let iowait = parse_u64(t[5].as_str());
    let irq = parse_u64(t[6].as_str());
    let softirq = parse_u64(t[7].as_str());
    let steal = parse_u64(t[8].as_str());
    let guest = parse_u64(t[9].as_str());
    let guest_nice = parse_u64(t[10].as_str());
    match (user, nice, system, idle, iowait, irq, softirq, steal, guest, guest_nice) {
        (
            Some(user),
            Some(nice),
            Some(system),
            Some(idle),
            Some(iowait),
            Some(irq),
            Some(softirq),
            Some(steal),
            Some(guest),
            Some(guest_nice),
        ) => Some(
            CoreUsage {
                user,
                nice,
                system,
                idle,
                iowait,
                irq,
                softirq,
                steal,
                guest,
                guest_nice,
            },
        ),
        _ => None,
    }
}

/// Parses the CPU counter source into its per-core rows, stopping at the
/// first line that is not in CPU shape.
pub fn parse_cpu_rows(text: &str) -> (r: Result<Vec<CoreUsage>, CpuErr>)
    ensures
        (r matches Ok(v) ==> spec_cpu_rows(text@) == Ok::<Seq<CoreUsage>, ()>(v@)),
        (r matches Err(e) ==> e == CpuErr::Malformed && spec_cpu_rows(text@) is Err),
{
    let lines = split_keep(text, SepClass::Line);
    let ghost dv = spec_split_keep(text@, SepClass::Line);
    proof {
        assert(lines@.len() == dv.len());
        assert(forall|i: int| 0 <= i < lines@.len() ==> (#[trigger] lines@[i])@ == dv[i]);
    }
    let mut rows: Vec<CoreUsage> = Vec::new();
    let n = lines.len();
    let mut i: usize = 0;
    while i < n
        invariant
            i <= n,
            n == lines@.len(),
            dv == spec_split_keep(text@, SepClass::Line),
            lines@.len() == dv.len(),
            forall|j: int| 0 <= j < lines@.len() ==> (#[trigger] lines@[j])@ == dv[j],
            (match spec_rows(dv, i as int) {
                Ok(rest) => spec_rows(dv, 0) == Ok::<Seq<CoreUsage>, ()>(rows@ + rest),
                Err(e) => spec_rows(dv, 0) == Err::<Seq<CoreUsage>, ()>(e),
            }),
        decreases n - i,
    {
        let line = &lines[i];
        let t = split_tokens(line.as_str(), SepClass::Space);
        let intr = String::from_str("intr");
        let shaped = t.len() == 11 && !(t[0] == intr);
        proof {
            assert(t@.len() == spec_tokens(dv[i as int], SepClass::Space).len());
            if t@.len() > 0 {
                assert((t@[0])@ == spec_tokens(dv[i as int], SepClass::Space)[0]);
            }
            assert(shaped == row_shape(dv[i as int]));
        }
        if !shaped {
            proof {
                assert(spec_rows(dv, i as int) == Ok::<Seq<CoreUsage>, ()>(Seq::empty()));
                assert(rows@ + Seq::<CoreUsage>::empty() =~= rows@);
            }
            return Ok(rows);
        }
        match parse_row(line.as_str()) {
            None => {
                return Err(CpuErr::Malformed);
            },
            Some(row) => {
                let ghost prev_rows = rows@;
                rows.push(row);
                proof {
                    assert(row == spec_row(dv[i as int]));
                    match spec_rows(dv, i + 1) {
                        Ok(rest) => {
                            assert(spec_rows(dv, i as int) == Ok::<Seq<CoreUsage>, ()>(
                                seq![spec_row(dv[i as int])] + rest,
                            ));
                            assert(prev_rows + (seq![row] + rest) =~= rows@ + rest);
                        },
                        Err(_) => {},
                    }
                }
            },
        }
        i = i + 1;
    }
    proof {
        assert(spec_rows(dv, i as int) == Ok::<Seq<CoreUsage>, ()>(Seq::empty()));
        assert(rows@ + Seq::<CoreUsage>::empty() =~= rows@);
    }
    Ok(rows)
}

/// The CPU usage delta sampler: `usage` is what the latest successful round
/// reported, `last` the per-core basis the next round subtracts from.
pub struct CpuUsage {
    pub usage: Vec<CoreUsage>,
    last: Vec<CoreUsage>,
}

impl CpuUsage {
    /// The stored per-core basis: the raw counters of the previous
    /// successful round.
    pub closed spec fn basis(&self) -> Seq<CoreUsage> {
        self.last@
    }

    /// What the latest successful round reported.
    pub closed spec fn reported(&self) -> Seq<CoreUsage> {
        self.usage@
    }

    pub fn new() -> (r: Self)
        ensures
            r.reported() == Seq::<CoreUsage>::empty(),
            r.basis() == Seq::<CoreUsage>::empty(),
    {
        CpuUsage { usage: Vec::new(), last: Vec::new() }
    }

    /// A copy of what the latest successful round reported.
    pub fn usage_snapshot(&self) -> (r: Vec<CoreUsage>)
        ensures
            r@ == self.reported(),
    {
        copy_rows(&self.usage)
    }

    /// One sampling round over the counter source text.
    ///
    /// The first-ever round stores and reports the raw cumulative rows
    /// (bootstrap: no delta is possible, and nothing is subtracted, so no
    /// delta can be negative). Every later round reports field-wise deltas
    /// against the basis and replaces the basis with the raw rows. A round
    /// that parses a different number of rows than the basis holds fails
    /// with `CoresChanged`, and a round whose source is malformed fails
    /// with `Malformed`; a failed round changes nothing.
    pub fn update(&mut self, text: &str) -> (r: Result<(), CpuErr>)
        ensures
            (match spec_cpu_rows(text@) {
                Err(_) => {
                    &&& r == Err::<(), CpuErr>(CpuErr::Malformed)
                    &&& final(self).reported() == old(self).reported()
                    &&& final(self).basis() == old(self).basis()
                },
                Ok(rows) => {
                    if old(self).basis().len() == 0 {
                        &&& r == Ok::<(), CpuErr>(())
                        &&& final(self).reported() == rows
                        &&& final(self).basis() == rows
                    } else if rows.len() == old(self).basis().len() {
                        &&& r == Ok::<(), CpuErr>(())
                        &&& final(self).basis() == rows
                        &&& final(self).reported() == Seq::new(
                            rows.len(),
                            |i: int| core_delta(rows[i], old(self).basis()[i]),
                        )
                    } else {
                        &&& r == Err::<(), CpuErr>(CpuErr::CoresChanged)
                        &&& final(self).reported() == old(self).reported()
                        &&& final(self).basis() == old(self).basis()
                    }
                },
            }),
    {
        let rows = match parse_cpu_rows(text) {
            Err(e) => {
                return Err(e);
            },
            Ok(rows) => rows,
        };
        if self.last.len() == 0 {
            let raw = copy_rows(&rows);
            self.last = raw;
            self.usage = rows;
            Ok(())
        } else if rows.len() == self.last.len() {
            let n = rows.len();
            let mut deltas: Vec<CoreUsage> = Vec::new();
            let mut i: usize = 0;
            while i < n
                invariant
                    i <= n,
                    n == rows@.len(),
                    n == self.last@.len(),
                    deltas@.len() == i,
                    forall|j: int|
                        0 <= j < i ==> deltas@[j] == core_delta(rows@[j], self.last@[j]),
                decreases n - i,
            {
                let d = core_delta_exec(&rows[i], &self.last[i]);
                deltas.push(d);
                i = i + 1;
            }
            self.last = rows;
            self.usage = deltas;
            proof {
                assert(self.usage@ =~= Seq::new(
                    self.last@.len(),
                    |i: int| core_delta(self.last@[i], old(self).basis()[i]),
                ));
            }
            Ok(())
        } else {
            Err(CpuErr::CoresChanged)
        }
    }
}

/// A field-wise copy of a row vector.
fn copy_rows(v: &Vec<CoreUsage>) -> (r: Vec<CoreUsage>)
    ensures
        r@ == v@,
{
    let mut r: Vec<CoreUsage> = Vec::new();
    let n = v.len();
    let mut i: usize = 0;
    while i < n
        invariant
            i <= n,
            n == v@.len(),
            r@ == v@.take(i as int),
        decreases n - i,
    {
        r.push(v[i]);
        proof {
            assert(r@ =~= v@.take(i + 1));
        }
        i = i + 1;
    }
    proof {
        assert(v@.take(n as int) =~= v@);
    }
    r
}

} // verus!
