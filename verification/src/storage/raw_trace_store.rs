//! The lines of a raw trace (JSON Lines) that hold an event.
use vstd::prelude::*;

use crate::text::{chars_of, string_from_chars, trim, trim_chars};

verus! {

broadcast use vstd::seq_lib::group_seq_properties;

/// A non-blank line of a JSON Lines file: its 1-based number and its text
/// without surrounding white space.
#[derive(Debug, Clone, PartialEq)]
pub struct JsonlEntry {
    pub line: usize,
    pub text: String,
}

/// The non-blank lines among the first `n`, numbered from 1 and trimmed.
pub open spec fn entries_upto(lines: Seq<String>, n: int) -> Seq<(nat, Seq<char>)>
    decreases n,
{
    if n <= 0 {
        seq![]
    } else {
        let prev = entries_upto(lines, n - 1);
        if trim(lines[n - 1]@).len() == 0 {
            prev
        } else {
            prev.push((n as nat, trim(lines[n - 1]@)))
        }
    }
}

pub open spec fn entry_views(s: Seq<JsonlEntry>) -> Seq<(nat, Seq<char>)> {
    s.map_values(|e: JsonlEntry| (e.line as nat, e.text@))
}

/// The entries of the lines of a JSON Lines file, blank lines skipped.
pub fn jsonl_entries(lines: &Vec<String>) -> (r: Vec<JsonlEntry>)
    ensures
        entry_views(r@) == entries_upto(lines@, lines@.len() as int),
{
    let mut r: Vec<JsonlEntry> = Vec::new();
    for i in 0..lines.len()
        invariant
            entry_views(r@) == entries_upto(lines@, i as int),
    {
        let ghost before = r@;
        let t = trim_chars(&chars_of(lines[i].as_str()));
        if t.len() > 0 {
            r.push(JsonlEntry { line: i + 1, text: string_from_chars(&t) });
            assert(entry_views(r@) =~= entry_views(before).push(((i + 1) as nat, t@)));
        }
    }
    r
}

} // verus!
