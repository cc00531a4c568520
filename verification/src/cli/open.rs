//! The command that opens a report with the desktop's default program.
use vstd::prelude::*;

use crate::text::{string_of, views};

verus! {

/// The operating system the program runs on, as far as opening files goes.
#[derive(Debug, Clone, Copy, PartialEq, Eq, Structural)]
pub enum HostOs {
    MacOs,
    Windows,
    Other,
}

/// The program and arguments that open `path`: `open` on macOS, `cmd /C
/// start` on Windows, `xdg-open` elsewhere.
pub open spec fn open_command_spec(os: HostOs, path: Seq<char>) -> (Seq<char>, Seq<Seq<char>>) {
    match os {
        HostOs::MacOs => ("open"@, seq![path]),
        HostOs::Windows => ("cmd"@, seq!["/C"@, "start"@, path]),
        HostOs::Other => ("xdg-open"@, seq![path]),
    }
}

/// The program and arguments that open the report at `path`.
pub fn open_command(os: HostOs, path: &str) -> (r: (String, Vec<String>))
    ensures
        (r.0@, views(r.1@)) == open_command_spec(os, path@),
{
    match os {
        HostOs::MacOs => {
            let args = vec![string_of(path)];
            assert(views(args@) =~= seq![path@]);
            (string_of("open"), args)
        },
        HostOs::Windows => {
            let args = vec![string_of("/C"), string_of("start"), string_of(path)];
            assert(views(args@) =~= seq!["/C"@, "start"@, path@]);
            (string_of("cmd"), args)
        },
        HostOs::Other => {
            let args = vec![string_of(path)];
            assert(views(args@) =~= seq![path@]);
            (string_of("xdg-open"), args)
        },
    }
}

} // verus!
