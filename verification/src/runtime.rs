//! Which runtime the calls of a process run in.

use crate::text::text_eq;
use vstd::prelude::*;

verus! {

/// The kinds of runtime.
#[derive(Debug, Clone, Copy, PartialEq, Eq, Structural)]
pub enum Mode {
    /// One runtime for each PHP thread, driven by that thread while it waits.
    CurrentThread,
    /// One runtime for the process, with threads of its own.
    MultiThread,
}

/// The kind of runtime that the setting `GRPC_PHP_RS_RUNTIME` asks for.
pub open spec fn asked_mode(setting: Option<Seq<char>>) -> Mode {
    match setting {
        Some(value) => if value == "multi-thread"@ || value == "multi_thread"@ || value == "mt"@ {
            Mode::MultiThread
        } else {
            Mode::CurrentThread
        },
        None => Mode::CurrentThread,
    }
}

/// The kind of runtime that a setting asks for.
pub fn mode(setting: Option<&str>) -> (r: Mode)
    ensures
        r == asked_mode(
            match setting {
                Some(value) => Some(value@),
                None => None,
            },
        ),
{
    match setting {
        Some(value) => if text_eq(value, "multi-thread") || text_eq(value, "multi_thread")
            || text_eq(value, "mt") {
            Mode::MultiThread
        } else {
            Mode::CurrentThread
        },
        None => Mode::CurrentThread,
    }
}

/// The process gets a runtime of its own for three spellings of the setting, and
/// for nothing else; without one, or with any other, each thread has its own.
pub proof fn law_setting_decides_the_runtime(setting: Seq<char>)
    ensures
        asked_mode(Some("multi-thread"@)) == Mode::MultiThread,
        asked_mode(Some("multi_thread"@)) == Mode::MultiThread,
        asked_mode(Some("mt"@)) == Mode::MultiThread,
        setting != "multi-thread"@ && setting != "multi_thread"@ && setting != "mt"@ ==> asked_mode(
            Some(setting),
        ) == Mode::CurrentThread,
        asked_mode(None) == Mode::CurrentThread,
{
}

} // verus!
