//! The in/out block of the console-log call.

use vstd::prelude::*;

verus! {

/// What the console-log call reads and writes: whether to clear and read
/// the ring buffer, how much may be read, and the text handed back.
pub struct Log {
    pub clear: bool,
    pub read: bool,
    pub read_max: u64,
    pub data: String,
}

} // verus!
