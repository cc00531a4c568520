//! The lines the collector prints on its standard output.
use vstd::prelude::*;

use crate::text::{push_str, string_of};

verus! {

/// A status message of the collector. `detail`, when present, is the JSON
/// text of the message's detail value.
#[derive(Debug, Clone, PartialEq)]
pub enum CollectorStdoutMessage {
    Status { message: String, detail: Option<String> },
}

/// How a collector output line is echoed: a status message with its detail
/// when it has one, any other line as it is; each after `[collector] `.
pub open spec fn collector_line_text(parsed: Option<CollectorStdoutMessage>, line: Seq<char>) -> Seq<
    char,
> {
    match parsed {
        Some(CollectorStdoutMessage::Status { message, detail }) => match detail {
            Some(d) => "[collector] "@ + message@ + " "@ + d@,
            None => "[collector] "@ + message@,
        },
        None => "[collector] "@ + line,
    }
}

/// The echo of a collector output line, given what parsing it gave.
pub fn collector_line_display(parsed: &Option<CollectorStdoutMessage>, line: &str) -> (r: String)
    ensures
        r@ == collector_line_text(*parsed, line@),
{
    let mut r = string_of("[collector] ");
    match parsed {
        Some(CollectorStdoutMessage::Status { message, detail }) => {
            push_str(&mut r, message.as_str());
            match detail {
                Some(d) => {
                    push_str(&mut r, " ");
                    push_str(&mut r, d.as_str());
                },
                None => {},
            }
        },
        None => {
            push_str(&mut r, line);
        },
    }
    r
}

} // verus!
