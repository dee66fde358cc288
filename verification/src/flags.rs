//! Flag words handed to the native creation, cloning and attach calls.
//!
//! Each type wraps the native bit values; combining is bitwise or.  The
//! native side reads the bits, never this layer, so the contracts only pin
//! the values down.

use vstd::prelude::*;

verus! {

/// Flags for container creation.
#[derive(Clone, Copy, Debug, PartialEq, Eq, Structural)]
pub struct CreateFlags {
    pub bits: i32,
}

impl CreateFlags {
    /// No flags.
    pub fn empty() -> (r: CreateFlags)
        ensures
            r.bits == 0,
    {
        CreateFlags { bits: 0 }
    }

    /// Redirect standard input to the zero device and the outputs to the
    /// null device during creation.
    pub fn quiet() -> (r: CreateFlags)
        ensures
            r.bits == 1,
    {
        CreateFlags { bits: 1 }
    }

    /// Number of creation flags the native side knows.
    pub fn maxflags() -> (r: CreateFlags)
        ensures
            r.bits == 2,
    {
        CreateFlags { bits: 2 }
    }

    /// The union of two flag words.
    pub fn union(self, other: CreateFlags) -> (r: CreateFlags)
        ensures
            r.bits == self.bits | other.bits,
    {
        CreateFlags { bits: self.bits | other.bits }
    }

    /// The raw bit word the native call receives.
    pub fn bits(&self) -> (r: i32)
        ensures
            r == self.bits,
    {
        self.bits
    }
}

/// Flags for container cloning.
#[derive(Clone, Copy, Debug, PartialEq, Eq, Structural)]
pub struct CloneFlags {
    pub bits: i32,
}

impl CloneFlags {
    /// No flags.
    pub fn empty() -> (r: CloneFlags)
        ensures
            r.bits == 0,
    {
        CloneFlags { bits: 0 }
    }

    /// Do not edit the rootfs to change the hostname.
    pub fn keepname() -> (r: CloneFlags)
        ensures
            r.bits == 1,
    {
        CloneFlags { bits: 1 }
    }

    /// Do not change the MAC address on network interfaces.
    pub fn keepmacaddr() -> (r: CloneFlags)
        ensures
            r.bits == 2,
    {
        CloneFlags { bits: 2 }
    }

    /// Snapshot the original filesystems.
    pub fn snapshot() -> (r: CloneFlags)
        ensures
            r.bits == 4,
    {
        CloneFlags { bits: 4 }
    }

    /// Use the same block-device type.
    pub fn keepbdevtype() -> (r: CloneFlags)
        ensures
            r.bits == 8,
    {
        CloneFlags { bits: 8 }
    }

    /// Snapshot only if the block device supports it, else copy.
    pub fn maybe_snapshot() -> (r: CloneFlags)
        ensures
            r.bits == 16,
    {
        CloneFlags { bits: 16 }
    }

    /// Number of clone flags the native side knows.
    pub fn maxflags() -> (r: CloneFlags)
        ensures
            r.bits == 32,
    {
        CloneFlags { bits: 32 }
    }

    /// The union of two flag words.
    pub fn union(self, other: CloneFlags) -> (r: CloneFlags)
        ensures
            r.bits == self.bits | other.bits,
    {
        CloneFlags { bits: self.bits | other.bits }
    }

    /// The raw bit word the native call receives.
    pub fn bits(&self) -> (r: i32)
        ensures
            r == self.bits,
    {
        self.bits
    }
}

/// Flags for attaching to a running container.
#[derive(Clone, Copy, Debug, PartialEq, Eq, Structural)]
pub struct AttchFlags {
    pub bits: i32,
}

impl AttchFlags {
    /// No flags.
    pub fn empty() -> (r: AttchFlags)
        ensures
            r.bits == 0,
    {
        AttchFlags { bits: 0 }
    }

    /// Move to the container's cgroup.
    pub fn move_to_cgroup() -> (r: AttchFlags)
        ensures
            r.bits == 0x1,
    {
        AttchFlags { bits: 0x1 }
    }

    /// Drop capabilities not held by the container.
    pub fn drop_capabilities() -> (r: AttchFlags)
        ensures
            r.bits == 0x2,
    {
        AttchFlags { bits: 0x2 }
    }

    /// Set the container's personality.
    pub fn set_personality() -> (r: AttchFlags)
        ensures
            r.bits == 0x4,
    {
        AttchFlags { bits: 0x4 }
    }

    /// Execute under the container's Linux Security Module label.
    pub fn lsm_exec() -> (r: AttchFlags)
        ensures
            r.bits == 0x8,
    {
        AttchFlags { bits: 0x8 }
    }

    /// Remount the proc filesystem.
    pub fn remount_proc_sys() -> (r: AttchFlags)
        ensures
            r.bits == 0x00010000,
    {
        AttchFlags { bits: 0x00010000 }
    }

    /// Apply the security module label immediately.
    pub fn lsm_now() -> (r: AttchFlags)
        ensures
            r.bits == 0x00020000,
    {
        AttchFlags { bits: 0x00020000 }
    }

    /// Forbid new privileges for the attached process.
    pub fn no_new_privs() -> (r: AttchFlags)
        ensures
            r.bits == 0x00040000,
    {
        AttchFlags { bits: 0x00040000 }
    }

    /// Allocate a new terminal for the attached process.
    pub fn terminal() -> (r: AttchFlags)
        ensures
            r.bits == 0x00080000,
    {
        AttchFlags { bits: 0x00080000 }
    }

    /// The mask the native side applies by default.
    pub fn default_mask() -> (r: AttchFlags)
        ensures
            r.bits == 0x0000FFFF,
    {
        AttchFlags { bits: 0x0000FFFF }
    }

    /// The union of two flag words.
    pub fn union(self, other: AttchFlags) -> (r: AttchFlags)
        ensures
            r.bits == self.bits | other.bits,
    {
        AttchFlags { bits: self.bits | other.bits }
    }

    /// The raw bit word the native call receives.
    pub fn bits(&self) -> (r: i32)
        ensures
            r == self.bits,
    {
        self.bits
    }
}

} // verus!
