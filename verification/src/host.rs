//! Host identity reader: hostname and uptime, each from one text source.

use vstd::prelude::*;

use crate::text::{
    prefix_len, prefix_len_exec, spec_parses_u64, spec_trim_end, spec_u64_val, parse_u64,
    trim_end, SepClass,
};

verus! {

/// Host identity: the machine's name and its uptime in whole seconds.
pub struct HostData {
    pub hostname: String,
    pub uptime: u64,
}

/// The mathematical value of a `HostData`.
pub struct HostDataV {
    pub hostname: Seq<char>,
    pub uptime: u64,
}

impl View for HostData {
    type V = HostDataV;

    open spec fn view(&self) -> HostDataV {
        HostDataV { hostname: self.hostname@, uptime: self.uptime }
    }
}

/// Why the host sources were rejected.
#[derive(Clone, Copy, PartialEq, Eq, Structural, Debug)]
pub enum HostErr {
    /// The uptime source does not start with a decimal count of seconds.
    MalformedUptimeFile,
}

/// The whole seconds of the uptime source: everything before its first
/// decimal point.
pub open spec fn spec_uptime_field(text: Seq<char>) -> Seq<char> {
    text.take(prefix_len(text, SepClass::Dot) as int)
}

impl HostData {
    /// Reads the hostname and uptime source texts. The hostname is the
    /// first source with trailing whitespace removed; the uptime is the
    /// whole-second count before the decimal point of the second source.
    pub fn get(host_text: &str, uptime_text: &str) -> (r: Result<HostData, HostErr>)
        ensures
            (match r {
                Ok(h) => {
                    &&& spec_parses_u64(spec_uptime_field(uptime_text@))
                    &&& h@.hostname == spec_trim_end(host_text@)
                    &&& h@.uptime == spec_u64_val(spec_uptime_field(uptime_text@))
                },
                Err(e) => {
                    &&& e == HostErr::MalformedUptimeFile
                    &&& !spec_parses_u64(spec_uptime_field(uptime_text@))
                },
            }),
    {
        let hostname = trim_end(host_text);
        let k = prefix_len_exec(uptime_text, SepClass::Dot);
        let field = uptime_text.substring_char(0, k);
        match parse_u64(field) {
            None => Err(HostErr::MalformedUptimeFile),
            Some(uptime) => Ok(HostData { hostname, uptime }),
        }
    }
}

} // verus!
