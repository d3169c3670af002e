//! Verified core of a generator of Play Store listing mockups and of the web
//! server that serves them.
use vstd::prelude::*;
use vstd::string::*;

pub mod text;
pub mod util;
pub mod model;
pub mod markup;
pub mod generate;
pub mod server;
pub mod cli;

use crate::text::{parse_decimal, parse_u64, replace_all, replace_all_text};

verus! {

/// Options that govern the program's debug output.
///  - `debug`: whether debug messages are printed at all
///  - `debug_timestamp`: whether each line of a message starts with the time
#[derive(Debug, Clone, Copy)]
pub struct RuntimeOptions {
    pub debug: bool,
    pub debug_timestamp: bool,
}

/// The prefix of every line of a debug message: the time and a space, when
/// given, then the context in brackets (`DEBUG` without one) and a space.
pub open spec fn debug_prefix(context: Option<Seq<char>>, time: Option<Seq<char>>) -> Seq<char> {
    let stamp = match time {
        Some(t) => t + " "@,
        None => Seq::<char>::empty(),
    };
    let tag = match context {
        Some(c) => "["@ + c + "] "@,
        None => "[DEBUG] "@,
    };
    stamp + tag
}

/// A debug message as printed: every line of `msg` (split at `\n`) after the
/// prefix and followed by a newline.
pub open spec fn debug_text(msg: Seq<char>, context: Option<Seq<char>>, time: Option<Seq<char>>) -> Seq<char> {
    let prefix = debug_prefix(context, time);
    prefix + replace_all(msg, "\n"@, "\n"@ + prefix) + "\n"@
}

/// The text that the program prints for the debug message `msg` about
/// `context`, at `time` when lines carry the time.
pub fn debug_message(msg: &str, context: Option<&str>, time: Option<&str>) -> (m: String)
    ensures
        m@ == debug_text(msg@, context.deep_view(), time.deep_view()),
{
    let stamp = match time {
        Some(t) => String::from_str(t).concat(" "),
        None => String::new(),
    };
    let tag = match context {
        Some(c) => String::from_str("[").concat(c).concat("] "),
        None => String::from_str("[DEBUG] "),
    };
    let prefix = stamp.concat(tag.as_str());
    let separator = String::from_str("\n").concat(prefix.as_str());
    let body = replace_all_text(msg, "\n", separator.as_str());
    prefix.concat(body.as_str()).concat("\n")
}

/// A program version: major, minor and patch numbers.
#[derive(Debug, Clone, Copy, PartialEq, Eq, Structural)]
pub struct ProgramVersion {
    pub major: u64,
    pub minor: u64,
    pub patch: u64,
}

/// The version whose numbers are written `major`, `minor` and `patch`, or
/// `None` when one of them is no decimal number of a `u64`.
pub fn program_version(major: &str, minor: &str, patch: &str) -> (v: Option<ProgramVersion>)
    ensures
        v is Some <==> parse_u64(major@) is Some && parse_u64(minor@) is Some && parse_u64(patch@) is Some,
        v matches Some(v) ==> v.major == parse_u64(major@)->0 && v.minor == parse_u64(minor@)->0
            && v.patch == parse_u64(patch@)->0,
{
    let major = parse_decimal(major)?;
    let minor = parse_decimal(minor)?;
    let patch = parse_decimal(patch)?;
    Some(ProgramVersion { major, minor, patch })
}

} // verus!
