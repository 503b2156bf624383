//! Memory counter reader: a single-shot parser of the memory information
//! source into a typed record, in bytes.

use vstd::prelude::*;

use crate::cpu::sub_or_zero;
use crate::text::{
    spec_split_keep, spec_tokens, spec_parses_u64, spec_u64_val, split_keep, split_tokens,
    parse_u64, SepClass,
};

verus! {

/// Memory figures in bytes.
#[derive(Clone, Copy, PartialEq, Eq, Structural, Debug)]
pub struct RamData {
    pub total: u64,
    pub used: u64,
    pub available: u64,
    pub free: u64,
    pub cached: u64,
}

/// Why the memory source was rejected.
#[derive(Clone, Copy, PartialEq, Eq, Structural, Debug)]
pub enum MemRetrievalErr {
    /// The source did not hold all four expected labelled values.
    NotEnoughValues,
    /// A labelled value was not a decimal count of kibibytes.
    Malformed,
}

/// Whether a line label is one of the four the reader collects.
pub open spec fn is_mem_label(t: Seq<char>) -> bool {
    t == "MemTotal:"@ || t == "MemFree:"@ || t == "MemAvailable:"@ || t == "Cached:"@
}

/// The labelled values in source order, each scaled from kibibytes to
/// bytes; an error when a labelled value is malformed or does not fit.
pub open spec fn spec_mem_values(lines: Seq<Seq<char>>) -> Result<Seq<u64>, ()>
    decreases lines.len(),
{
    if lines.len() == 0 {
        Ok(Seq::empty())
    } else {
        match spec_mem_values(lines.drop_last()) {
            Err(e) => Err(e),
            Ok(vs) => {
                let t = spec_tokens(lines.last(), SepClass::Whitespace);
                if t.len() < 2 || !is_mem_label(t[0]) {
                    Ok(vs)
                } else if !spec_parses_u64(t[1]) || spec_u64_val(t[1]) * 1024 > u64::MAX {
                    Err(())
                } else {
                    Ok(vs.push((spec_u64_val(t[1]) * 1024) as u64))
                }
            },
        }
    }
}

/// What the memory source denotes: total, free, available and cached in
/// source order, with used = total - available.
pub open spec fn spec_ram(text: Seq<char>) -> Result<RamData, MemRetrievalErr> {
    match spec_mem_values(spec_split_keep(text, SepClass::Line)) {
        Err(_) => Err(MemRetrievalErr::Malformed),
        Ok(vs) => {
            if vs.len() != 4 {
                Err(MemRetrievalErr::NotEnoughValues)
            } else {
                Ok(
                    RamData {
                        total: vs[0],
                        used: sub_or_zero(vs[0], vs[2]),
                        available: vs[2],
                        free: vs[1],
                        cached: vs[3],
                    },
                )
            }
        },
    }
}

proof fn lemma_mem_err_extends(lines: Seq<Seq<char>>, k: int)
    requires
        0 <= k <= lines.len(),
        spec_mem_values(lines.take(k)) is Err,
    ensures
        spec_mem_values(lines) is Err,
    decreases lines.len() - k,
{
    if k == lines.len() {
        assert(lines.take(k) =~= lines);
    } else {
        assert(lines.take(k + 1).drop_last() =~= lines.take(k));
        lemma_mem_err_extends(lines, k + 1);
    }
}

impl RamData {
    /// Reads the memory source text.
    pub fn get(meminfo: &str) -> (r: Result<RamData, MemRetrievalErr>)
        ensures
            r == spec_ram(meminfo@),
    {
        let lines = split_keep(meminfo, SepClass::Line);
        let ghost dv = spec_split_keep(meminfo@, SepClass::Line);
        proof {
            assert(lines@.len() == dv.len());
            assert(forall|i: int| 0 <= i < lines@.len() ==> (#[trigger] lines@[i])@ == dv[i]);
        }
        let mut values: Vec<u64> = Vec::new();
        let n = lines.len();
        let mut i: usize = 0;
        proof {
            assert(dv.take(0) =~= Seq::<Seq<char>>::empty());
        }
        while i < n
            invariant
                i <= n,
                n == lines@.len(),
                dv == spec_split_keep(meminfo@, SepClass::Line),
                lines@.len() == dv.len(),
                forall|j: int| 0 <= j < lines@.len() ==> (#[trigger] lines@[j])@ == dv[j],
                spec_mem_values(dv.take(i as int)) == Ok::<Seq<u64>, ()>(values@),
            decreases n - i,
        {
            proof {
                assert(dv.take(i + 1).drop_last() =~= dv.take(i as int));
                assert(dv.take(i + 1).last() == dv[i as int]);
            }
            let t = split_tokens(lines[i].as_str(), SepClass::Whitespace);
            let ghost tv = spec_tokens(dv[i as int], SepClass::Whitespace);
            proof {
                assert(t@.len() == tv.len());
                assert(forall|j: int| 0 <= j < t@.len() ==> (#[trigger] t@[j])@ == tv[j]);
            }
            if t.len() >= 2 {
                let label_total = String::from_str("MemTotal:");
                let label_free = String::from_str("MemFree:");
                let label_available = String::from_str("MemAvailable:");
                let label_cached = String::from_str("Cached:");
                let labelled = t[0] == label_total || t[0] == label_free || t[0]
                    == label_available || t[0] == label_cached;
                proof {
                    assert(labelled == is_mem_label(tv[0]));
                }
                if labelled {
                    let kib = match parse_u64(t[1].as_str()) {
                        None => {
                            proof {
                                assert(spec_mem_values(dv.take(i + 1)) is Err);
                                lemma_mem_err_extends(dv, i + 1);
                            }
                            return Err(MemRetrievalErr::Malformed);
                        },
                        Some(v) => v,
                    };
                    let bytes = match kib.checked_mul(1024) {
                        None => {
                            proof {
                                assert(spec_mem_values(dv.take(i + 1)) is Err);
                                lemma_mem_err_extends(dv, i + 1);
                            }
                            return Err(MemRetrievalErr::Malformed);
                        },
                        Some(v) => v,
                    };
                    let ghost before = values@;
                    values.push(bytes);
                    proof {
                        assert(values@ =~= before.push(bytes));
                    }
                }
            }
            i = i + 1;
        }
        proof {
            assert(dv.take(n as int) =~= dv);
        }
        if values.len() != 4 {
            return Err(MemRetrievalErr::NotEnoughValues);
        }
        Ok(
            RamData {
                total: values[0],
                used: if values[0] >= values[2] {
                    values[0] - values[2]
                } else {
                    0
                },
                available: values[2],
                free: values[1],
                cached: values[3],
            },
        )
    }
}

} // verus!
