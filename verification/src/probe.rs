//! Positional parsing of the external tool's probe output.
//!
//! On success the external tool prints one probe field per line, in a fixed
//! order that is a contract with the tool: identifier, title, file size,
//! approximate file size, duration. The parser reads them positionally and
//! is defensive about malformed output: a missing line becomes an empty
//! field rather than a fault.

use vstd::prelude::*;

use crate::text::{split_on, split_on_exec};

verus! {

/// The probe fields of one download, one per line of the tool's output.
pub struct ProbeInfo {
    /// The media identifier.
    pub id: String,
    /// The media title.
    pub title: String,
    /// The exact file size in bytes, when the tool knows it.
    pub filesize: String,
    /// The approximate file size in bytes, a fallback for `filesize`.
    pub filesize_approx: String,
    /// The human-readable duration.
    pub duration: String,
}

/// Line `k` of the probe output, or empty where the output has no line `k`.
pub open spec fn probe_field(out: Seq<char>, k: int) -> Seq<char> {
    let lines = split_on(out, '\n');
    if 0 <= k < lines.len() {
        lines[k]
    } else {
        Seq::<char>::empty()
    }
}

/// Read the probe fields out of the external tool's standard output,
/// positionally, with a missing line read as an empty field.
pub fn parse_probe(out: &str) -> (info: ProbeInfo)
    ensures
        info.id@ == probe_field(out@, 0),
        info.title@ == probe_field(out@, 1),
        info.filesize@ == probe_field(out@, 2),
        info.filesize_approx@ == probe_field(out@, 3),
        info.duration@ == probe_field(out@, 4),
{
    let lines = split_on_exec(out, '\n');
    ProbeInfo {
        id: line_or_empty(&lines, 0),
        title: line_or_empty(&lines, 1),
        filesize: line_or_empty(&lines, 2),
        filesize_approx: line_or_empty(&lines, 3),
        duration: line_or_empty(&lines, 4),
    }
}

/// Line `k` of the split output, or an empty field past the end.
fn line_or_empty(lines: &Vec<String>, k: usize) -> (l: String)
    ensures
        l@ == (if k < lines@.len() {
            lines.deep_view()[k as int]
        } else {
            Seq::<char>::empty()
        }),
{
    if k < lines.len() {
        lines[k].clone()
    } else {
        String::new()
    }
}

} // verus!
