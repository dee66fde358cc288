//! The mount descriptor handed to the unmount call.

use vstd::prelude::*;

verus! {

/// Mirror of the native mount structure: today it carries only a version
/// word.
#[derive(Clone, Copy, Debug, PartialEq, Eq, Structural)]
pub struct Mount {
    pub version: i32,
}

impl Mount {
    /// A descriptor of the given version.
    pub fn new(version: i32) -> (r: Mount)
        ensures
            r.version == version,
    {
        Mount { version }
    }

    /// The version word.
    pub fn version(&self) -> (r: i32)
        ensures
            r == self.version,
    {
        self.version
    }
}

} // verus!
