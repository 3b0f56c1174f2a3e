//! Byte-window arithmetic for the bounded backward read.
//!
//! One invocation reads only the half-open byte range
//! `[window_start(len, cap), len)` of the file, so that a very large log
//! costs at most `cap` bytes of work.

use vstd::prelude::*;

verus! {

/// Default capacity of the tail read window, in bytes.
pub const WINDOW_CAP: usize = 65536;

/// First byte offset of the read window for a file of length `file_len`
/// and a window capacity `cap`: the window covers the last `cap` bytes,
/// or the whole file when it is shorter than that.
pub fn window_start(file_len: u64, cap: u64) -> (start: u64)
    ensures
        file_len > cap ==> start == file_len - cap,
        file_len <= cap ==> start == 0,
        file_len - start <= cap,
        start <= file_len,
{
    if file_len > cap {
        file_len - cap
    } else {
        0
    }
}

} // verus!
