//! The `generate` command's own output.
use vstd::prelude::*;

use crate::config::types::Config;
use crate::text::{push_str, string_of};

verus! {

/// The timing line, `ready` and the run's duration as written, when timings are
/// shown.
pub fn timing_summary(cfg: &Config, total: &str) -> (r: Option<String>)
    ensures
        match r {
            Some(s) => cfg.show_timing && s@ == "ready "@ + total@,
            None => !cfg.show_timing,
        },
{
    if !cfg.show_timing {
        return None;
    }
    let mut out: Vec<char> = Vec::new();
    push_str(&mut out, "ready ");
    push_str(&mut out, total);
    Some(string_of(out))
}

} // verus!
