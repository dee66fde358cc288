//! Options of the migration entry point, mirrored as plain values: the
//! native side reads these fields, never this layer.

use vstd::prelude::*;

verus! {

/// Everything a migration command may be given: the image directory, the
/// dump/restore knobs and the page-server coordinates.
pub struct Opts {
    pub directory: String,
    pub verbose: bool,
    pub stop: bool,
    pub predump_dir: Option<String>,
    pub pageserver_address: Option<String>,
    pub pageserver_port: Option<String>,
    pub preserves_inodes: bool,
    pub action_script: Option<String>,
    pub disable_skip_in_flight: bool,
    pub ghost_limit: u64,
    pub features_to_check: u64,
}

} // verus!
