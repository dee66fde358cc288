//! Options of the attach calls, mirrored as plain values: the native side
//! reads these fields, never this layer.

use vstd::prelude::*;

verus! {

/// The environment policy for an attached process.
#[derive(Clone, Copy, Debug, PartialEq, Eq, Structural)]
pub struct EnvPolicy {
    pub bits: i32,
}

impl EnvPolicy {
    /// Keep the current environment.
    pub fn keep_env() -> (r: EnvPolicy)
        ensures
            r.bits == 0,
    {
        EnvPolicy { bits: 0 }
    }

    /// Start from a cleared environment.
    pub fn clear_env() -> (r: EnvPolicy)
        ensures
            r.bits == 1,
    {
        EnvPolicy { bits: 1 }
    }
}

/// Everything an attach call may be given: flags, namespaces, personality,
/// credentials, descriptors and environment handling.
pub struct Options {
    pub attach_flags: i32,
    pub namespaces: i32,
    pub personality: i64,
    pub initial_cwd: Option<String>,
    pub uid: u32,
    pub gid: u32,
    pub env_policy: EnvPolicy,
    pub extra_env_vars: Vec<String>,
    pub extra_keep_env: Vec<String>,
    pub stdout_fd: i32,
    pub stdin_fd: i32,
    pub stderr_fd: i32,
    pub log_fd: i32,
    pub lsm_label: Option<String>,
    pub groups: Vec<u32>,
}

impl Default for Options {
    /// The defaults the native header documents: the default flag mask,
    /// every namespace, detected personality, unchanged credentials, kept
    /// environment, the standard descriptors, and no log descriptor.
    fn default() -> (r: Options)
        ensures
            r.attach_flags == 0x0000FFFF,
            r.namespaces == -1,
            r.personality == -1,
            r.initial_cwd is None,
            r.uid == u32::MAX,
            r.gid == u32::MAX,
            r.env_policy.bits == 0,
            r.extra_env_vars@.len() == 0,
            r.extra_keep_env@.len() == 0,
            r.stdout_fd == 0,
            r.stdin_fd == 1,
            r.stderr_fd == 2,
            r.log_fd == -9,
            r.lsm_label is None,
            r.groups@.len() == 0,
    {
        Options {
            attach_flags: 0x0000FFFF,
            namespaces: -1,
            personality: -1,
            initial_cwd: None,
            uid: u32::MAX,
            gid: u32::MAX,
            env_policy: EnvPolicy::keep_env(),
            extra_env_vars: Vec::new(),
            extra_keep_env: Vec::new(),
            stdout_fd: 0,
            stdin_fd: 1,
            stderr_fd: 2,
            log_fd: -9,
            lsm_label: None,
            groups: Vec::new(),
        }
    }
}

} // verus!
