//! Where the diagnostic log lives, when it is rotated, and how a line of it
//! reads. Opening, appending and renaming the file is the caller's part.
use vstd::prelude::*;
use crate::game_log::{join_path, join_path_exec};
use crate::text::{chars_of, concat, string_from, opt_str};

verus! {

/// The folder under `%LOCALAPPDATA%` that holds the diagnostic log.
pub open spec fn log_dir_name() -> Seq<char> {
    "Torch Overlay Diagnostics"@
}

/// The diagnostic log's file name.
pub open spec fn log_file_name() -> Seq<char> {
    "debug.log"@
}

/// A log longer than this many bytes is rotated before the next write.
pub const MAX_LOG_BYTES: u64 = 2097152;

pub open spec fn spec_dir(local_app_data: Option<Seq<char>>) -> Option<Seq<char>> {
    match local_app_data {
        Some(base) => Some(join_path(base, log_dir_name())),
        None => None,
    }
}

pub open spec fn spec_path(local_app_data: Option<Seq<char>>) -> Option<Seq<char>> {
    match spec_dir(local_app_data) {
        Some(d) => Some(join_path(d, log_file_name())),
        None => None,
    }
}

/// The diagnostics folder, given the `LOCALAPPDATA` variable; none without it.
pub fn dir(local_app_data: Option<String>) -> (r: Option<String>)
    ensures
        opt_str(r) == spec_dir(opt_str(local_app_data)),
{
    match local_app_data {
        Some(base) => {
            Some(join_path_exec(base.as_str(), "Torch Overlay Diagnostics"))
        },
        None => None,
    }
}

/// The diagnostic log file, given the `LOCALAPPDATA` variable; none without it.
pub fn path(local_app_data: Option<String>) -> (r: Option<String>)
    ensures
        opt_str(r) == spec_path(opt_str(local_app_data)),
{
    match dir(local_app_data) {
        Some(d) => {
            Some(join_path_exec(d.as_str(), "debug.log"))
        },
        None => None,
    }
}

/// Whether a log of `len` bytes is to be rotated before the next write.
pub fn needs_rotation(len: u64) -> (r: bool)
    ensures
        r == (len > 2 * 1024 * 1024),
{
    len > MAX_LOG_BYTES
}

/// One line of the diagnostic log: the time stamp in brackets, a space, the
/// message.
pub open spec fn spec_log_line(stamp: Seq<char>, message: Seq<char>) -> Seq<char> {
    seq!['['] + stamp + seq![']', ' '] + message
}

/// Formats one line of the diagnostic log.
pub fn log_line(stamp: &str, message: &str) -> (r: String)
    ensures
        r@ == spec_log_line(stamp@, message@),
{
    let open = vec!['['];
    let close = vec![']', ' '];
    let s = chars_of(stamp);
    let m = chars_of(message);
    let a = concat(open.as_slice(), s.as_slice());
    let b = concat(a.as_slice(), close.as_slice());
    let c = concat(b.as_slice(), m.as_slice());
    string_from(c.as_slice())
}

} // verus!
