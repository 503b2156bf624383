//! Temperature reader: the thermal source reports millidegrees Celsius as
//! one decimal integer.

use vstd::prelude::*;

use crate::text::{remove_newlines, spec_remove_newlines, spec_parses_i64, spec_i64_val, parse_i64};

verus! {

/// A temperature in millidegrees Celsius.
#[derive(Clone, Copy, PartialEq, Eq, Structural, Debug)]
pub struct TempData {
    pub millidegrees: i64,
}

impl TempData {
    /// Reads the thermal source text: its line breaks removed, the rest is
    /// one decimal count of millidegrees. `None` when it is not.
    pub fn get(text: &str) -> (r: Option<TempData>)
        ensures
            r is Some <==> spec_parses_i64(spec_remove_newlines(text@)),
            (r matches Some(t) ==> t.millidegrees as int == spec_i64_val(
                spec_remove_newlines(text@),
            )),
    {
        let cleaned = remove_newlines(text);
        match parse_i64(cleaned.as_str()) {
            None => None,
            Some(millidegrees) => Some(TempData { millidegrees }),
        }
    }
}

} // verus!
