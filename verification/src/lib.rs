//! A safety layer for a container-management binding in the style of liblxc.
//!
//! The value of such a binding lives at the foreign boundary: host text must
//! cross it as null-terminated byte buffers, argument vectors as
//! null-terminated pointer arrays, failures as a per-handle error record that
//! is only meaningful when read immediately after the failing call, and the
//! handle itself must be released exactly once.  This crate states and proves
//! that discipline.
//!
//! The native library itself is a black box reached through a fixed set of
//! entry points.  Those entry points are modeled here, in [`native`], as a
//! state machine over the same calling conventions the C interface uses
//! (null-terminated buffers, boolean / integer / string / array return
//! shapes, two-call size queries).  [`Container`] is the safe wrapper over
//! that interface; [`cbuf`] and [`argv`] are the text and argument-vector
//! bridges it marshals through.

use vstd::prelude::*;

mod argv;
pub mod attach;
mod cbuf;
pub mod console;
mod container;
mod error;
mod flags;
mod host;
pub mod log;
pub mod migrate;
mod mount;
mod native;
mod snapshot;
mod store;

pub use argv::{from_foreign_nta, to_foreign_argv, Nta};
pub use cbuf::{from_foreign, to_foreign, CBuf};
pub use container::{BdevSpecs, Container};
pub use error::{Error, ErrorRecord};
pub use flags::{AttchFlags, CloneFlags, CreateFlags};
pub use host::{
    get_global_config_item, get_lxc_path, list_active_containers, list_all_containers,
    list_defined_containers, version, wait_states, Host,
};
pub use log::Log;
pub use mount::Mount;
pub use native::{NativeContainer, ReleaseReport, State};
pub use snapshot::Snapshot;

verus! {

} // verus!
