//! The opaque handle wrapper: exclusive, panic-free access to one native
//! container object.
//!
//! Every operation marshals its arguments through the string and array
//! bridges, calls one modeled native entry point, and projects a failure
//! into an [`Error`] by reading the handle's last-error fields immediately,
//! before any other call can overwrite them.  The contracts say, over the
//! native state, exactly which calls succeed, what each success changes,
//! and which error record each failure leaves behind and returns.
//!
//! Release is explicit: [`Container::put`] consumes the wrapper, drops the
//! one reference it holds, and reports the observability counters, so that
//! "released exactly once, and only error-queried after failures" is not a
//! convention but a theorem.

use crate::argv::{terminated, to_foreign_argv, Nta};
use crate::cbuf::{from_foreign, lemma_encode_null_free, to_foreign, CBuf};
use crate::error::{Error, ErrorRecord};
use crate::native::{
    after_error_read, error_text, fresh_state, name_ok, opt_encoded, path_len_ok, state_name,
    state_wf, with_error, NativeContainer, ReleaseReport, State, ERR_BUSY, ERR_EXISTS,
    ERR_LIMIT, ERR_NOT_FOUND, ERR_NOT_RUNNING, ERR_NOT_FROZEN, ERR_TIMEOUT, ERR_INVALID,
    MAX_ITEM_LEN, MAX_ITEMS, MAX_NAME_LEN, MAX_PATH_LEN, REF_MAX,
};
use vstd::prelude::*;
use vstd::utf8::{decode_utf8, encode_utf8, valid_utf8};

verus! {

broadcast use vstd::utf8::encode_utf8_valid_utf8, vstd::utf8::encode_utf8_decode_utf8;

/// Block-device specification handed to creation, mirrored as plain values:
/// the native side reads these fields, never the wrapper.
pub struct BdevSpecs {
    pub fstype: Option<String>,
    pub fssize: u64,
    pub zfsroot: Option<String>,
    pub vg: Option<String>,
    pub lv: Option<String>,
    pub thinpool: Option<String>,
    pub dir: Option<String>,
    pub rbdname: Option<String>,
    pub rbdpool: Option<String>,
}

/// The handle: one wrapper owns one reference to one native object.
#[derive(Debug)]
pub struct Container {
    inner: NativeContainer,
}

impl View for Container {
    type V = State;

    closed spec fn view(&self) -> State {
        self.inner@
    }
}

/// A failing call's projection: the returned error carries exactly the
/// code and message the call left in the handle's last-error fields, and
/// the only further change to the state is the error read itself.
pub open spec fn foreign_err(e: Error, before: State, after: State, num: i32) -> bool {
    &&& e matches Error::Foreign(rec) && rec.num == num && rec.message@ == error_text(num)
    &&& after == after_error_read(with_error(before, num))
}

/// Encodes one text argument for a foreign call, or reports the encoding
/// error without any foreign call having happened.
fn encode_arg(text: &str) -> (r: Result<CBuf, Error>)
    ensures
        r is Ok <==> !text@.contains('\0'),
        (r matches Ok(c) ==> c@ == encode_utf8(text@) && valid_utf8(c@) && !c@.contains(0u8)),
        (r matches Err(e) ==> e is Encoding),
{
    match to_foreign(text) {
        Ok(c) => {
            proof {
                lemma_encode_null_free(text@);
            }
            Ok(c)
        },
        Err(e) => Err(e),
    }
}

/// Encodes an optional text argument; absence crosses the boundary as the
/// null pointer, never as an empty string.
fn encode_opt(text: Option<&str>) -> (r: Result<Option<CBuf>, Error>)
    ensures
        r is Ok <==> (text matches Some(t) ==> !t@.contains('\0')),
        (r matches Ok(o) ==> match (text, o) {
            (Some(t), Some(c)) => c@ == encode_utf8(t@) && valid_utf8(c@) && !c@.contains(0u8),
            (None, None) => true,
            _ => false,
        }),
        (r matches Err(e) ==> e is Encoding),
{
    match text {
        Some(t) => match encode_arg(t) {
            Ok(c) => Ok(Some(c)),
            Err(e) => Err(e),
        },
        None => Ok(None),
    }
}

/// Builds the argument vector for a variadic foreign call; an empty vector
/// crosses as the null array pointer.
fn encode_argv(items: &Vec<String>) -> (r: Result<Option<Nta>, Error>)
    ensures
        r is Ok <==> (forall|k: int|
            0 <= k < items@.len() ==> !(#[trigger] items@[k])@.contains('\0')),
        (r matches Ok(Some(a)) ==> terminated(a@)),
        (r matches Err(e) ==> e is Encoding),
{
    match to_foreign_argv(items) {
        Ok(o) => {
            proof {
                let slots = crate::argv::argv_slots(items.deep_view());
                let n = items.deep_view().len() as int;
                assert(slots[n] is None);
                crate::argv::lemma_sentinel_at(slots, n);
            }
            Ok(o)
        },
        Err(e) => Err(e),
    }
}

impl Container {
    /// The invariant of every reachable handle.
    pub open spec fn wf(&self) -> bool {
        state_wf(self@)
    }

    /// Constructs the handle for `name`, with the given configuration path
    /// or the native default.  Fails with an encoding error when an
    /// argument cannot cross the boundary, and with a construction error
    /// when the factory returns the invalid handle: an empty or overlong
    /// name, a slash in the name, an overlong path.
    pub fn new(name: &str, config_path: Option<&str>) -> (r: Result<Container, Error>)
        ensures
            r is Ok <==> {
                &&& !name@.contains('\0')
                &&& (config_path matches Some(p) ==> !p@.contains('\0'))
                &&& name_ok(encode_utf8(name@))
                &&& (config_path matches Some(p) ==> path_len_ok(encode_utf8(p@)))
            },
            (r matches Ok(c) ==> c.wf() && c@ == fresh_state(
                encode_utf8(name@),
                opt_encoded(config_path),
            )),
            (name@.contains('\0') || (config_path matches Some(p) && p@.contains('\0'))) ==> (
            r matches Err(e) && e is Encoding),
            (!name@.contains('\0') && (config_path matches Some(p) ==> !p@.contains('\0'))
                && !(name_ok(encode_utf8(name@)) && (config_path matches Some(p)
                ==> path_len_ok(encode_utf8(p@))))) ==> (r matches Err(e)
                && e is Construction),
    {
        let name_c = match encode_arg(name) {
            Ok(c) => c,
            Err(e) => {
                return Err(e);
            },
        };
        let path_c = match encode_opt(config_path) {
            Ok(o) => o,
            Err(e) => {
                return Err(e);
            },
        };
        let path_ref: Option<&CBuf> = match &path_c {
            Some(c) => Some(c),
            None => None,
        };
        match NativeContainer::new(&name_c, path_ref) {
            Some(inner) => Ok(Container { inner }),
            None => Err(Error::Construction),
        }
    }

    /// Reads the handle's last-error fields, immediately shaping them into
    /// the uniform record; the read itself is counted.
    pub fn last_error(&mut self) -> (r: ErrorRecord)
        requires
            old(self).wf(),
        ensures
            final(self).wf(),
            final(self)@ == after_error_read(old(self)@),
            r.num == old(self)@.error_num,
            r.message@ == decode_utf8(old(self)@.error_message),
    {
        let (num, msg) = self.inner.last_error_read();
        let message = match from_foreign(&msg) {
            Ok(s) => s,
            Err(_) => vstd::pervasive::unreached(),
        };
        ErrorRecord { num, message }
    }

    /// The projection every failing call performs: read the last-error
    /// fields before any other call can overwrite them.
    fn project_error(&mut self) -> (e: Error)
        requires
            old(self).wf(),
        ensures
            final(self).wf(),
            final(self)@ == after_error_read(old(self)@),
            (e matches Error::Foreign(rec) && rec.num == old(self)@.error_num && rec.message@
                == decode_utf8(old(self)@.error_message)),
    {
        let rec = self.last_error();
        Error::Foreign(rec)
    }

    /// Human-readable text of the last error, read without the counted
    /// projection: a plain member read on the native side.
    pub fn error_string(&self) -> (r: String)
        requires
            self.wf(),
        ensures
            r@ == decode_utf8(self@.error_message),
    {
        let c = self.inner.error_string();
        match from_foreign(&c) {
            Ok(s) => s,
            Err(_) => vstd::pervasive::unreached(),
        }
    }

    /// Code of the last error: a plain member read.
    pub fn error_num(&self) -> (r: i32)
        ensures
            r == self@.error_num,
    {
        self.inner.error_num()
    }

    /// Whether the container wishes to be daemonized: a plain member read.
    pub fn daemonize(&self) -> (r: bool)
        ensures
            r == self@.daemonize,
    {
        self.inner.daemonize()
    }

    /// The configuration path member.
    pub fn config_path(&self) -> (r: String)
        requires
            self.wf(),
        ensures
            r@ == decode_utf8(self@.config_path),
    {
        let c = self.inner.config_path();
        match from_foreign(&c) {
            Ok(s) => s,
            Err(_) => vstd::pervasive::unreached(),
        }
    }

    /// Whether the container is created on the host.
    pub fn is_defined(&self) -> (r: bool)
        ensures
            r == self@.defined,
    {
        self.inner.is_defined()
    }

    /// The name of the container's current state, as the native side
    /// reports it.
    pub fn state(&self) -> (r: String)
        requires
            self.wf(),
        ensures
            r@ == state_name(self@),
    {
        let c = self.inner.state();
        match from_foreign(&c) {
            Ok(s) => s,
            Err(_) => vstd::pervasive::unreached(),
        }
    }

    /// Whether the container's init process runs.
    pub fn is_running(&self) -> (r: bool)
        ensures
            r == self@.running,
    {
        self.inner.is_running()
    }

    /// Process ID of the init process: a real ID only while running.
    pub fn init_pid(&self) -> (r: i32)
        requires
            self.wf(),
        ensures
            r == self@.init_pid,
            self@.running ==> r >= 1,
            !self@.running ==> r == -1,
    {
        self.inner.init_pid()
    }

    /// Path of the container's configuration file.
    pub fn config_file_name(&self) -> (r: String)
        requires
            self.wf(),
        ensures
            r@ == decode_utf8(self@.config_file),
    {
        let c = self.inner.config_file_name();
        match from_foreign(&c) {
            Ok(s) => s,
            Err(_) => vstd::pervasive::unreached(),
        }
    }

    /// Whether the caller may control the container.
    pub fn may_control(&self) -> (r: bool)
        ensures
            r == true,
    {
        self.inner.may_control()
    }

    /// Freezes the running container.
    pub fn freeze(&mut self) -> (r: Result<(), Error>)
        requires
            old(self).wf(),
        ensures
            final(self).wf(),
            r is Ok <==> (old(self)@.running && !old(self)@.frozen),
            r is Ok ==> final(self)@ == (State { frozen: true, ..old(self)@ }),
            (r matches Err(e) ==> foreign_err(e, old(self)@, final(self)@, ERR_NOT_RUNNING)),
    {
        if self.inner.freeze() {
            Ok(())
        } else {
            Err(self.project_error())
        }
    }

    /// Thaws the frozen container.
    pub fn unfreeze(&mut self) -> (r: Result<(), Error>)
        requires
            old(self).wf(),
        ensures
            final(self).wf(),
            r is Ok <==> old(self)@.frozen,
            r is Ok ==> final(self)@ == (State { frozen: false, ..old(self)@ }),
            (r matches Err(e) ==> foreign_err(e, old(self)@, final(self)@, ERR_NOT_FROZEN)),
    {
        if self.inner.unfreeze() {
            Ok(())
        } else {
            Err(self.project_error())
        }
    }

    /// Starts the created container's init process, handing it the given
    /// argument vector (and, when `use_init` holds, the native init).
    pub fn start(&mut self, use_init: bool, argv: &Vec<String>) -> (r: Result<(), Error>)
        requires
            old(self).wf(),
        ensures
            final(self).wf(),
            r is Ok <==> ((forall|k: int|
                0 <= k < argv@.len() ==> !(#[trigger] argv@[k])@.contains('\0')) && old(
                self,
            )@.defined && !old(self)@.running),
            r is Ok ==> final(self)@ == (State {
                running: true,
                frozen: false,
                init_pid: 1i32,
                ..old(self)@
            }),
            (exists|k: int| 0 <= k < argv@.len() && (#[trigger] argv@[k])@.contains('\0')) ==> (
            r matches Err(e) && e is Encoding && final(self)@ == old(self)@),
            (forall|k: int| 0 <= k < argv@.len() ==> !(#[trigger] argv@[k])@.contains('\0'))
                && !old(self)@.defined ==> (r matches Err(e) && foreign_err(
                e,
                old(self)@,
                final(self)@,
                ERR_NOT_FOUND,
            )),
            (forall|k: int| 0 <= k < argv@.len() ==> !(#[trigger] argv@[k])@.contains('\0'))
                && old(self)@.defined && old(self)@.running ==> (r matches Err(e) && foreign_err(
                e,
                old(self)@,
                final(self)@,
                ERR_BUSY,
            )),
    {
        let argv_c = match encode_argv(argv) {
            Ok(o) => o,
            Err(e) => {
                proof {
                    assert(exists|k: int|
                        0 <= k < argv@.len() && (#[trigger] argv@[k])@.contains('\0'));
                }
                return Err(e);
            },
        };
        let argv_ref: Option<&Nta> = match &argv_c {
            Some(a) => Some(a),
            None => None,
        };
        if self.inner.start(use_init, argv_ref) {
            Ok(())
        } else {
            Err(self.project_error())
        }
    }

    /// Stops the running container.
    pub fn stop(&mut self) -> (r: Result<(), Error>)
        requires
            old(self).wf(),
        ensures
            final(self).wf(),
            r is Ok <==> old(self)@.running,
            r is Ok ==> final(self)@ == (State {
                running: false,
                frozen: false,
                init_pid: -1i32,
                ..old(self)@
            }),
            (r matches Err(e) ==> foreign_err(e, old(self)@, final(self)@, ERR_NOT_RUNNING)),
    {
        if self.inner.stop() {
            Ok(())
        } else {
            Err(self.project_error())
        }
    }

    /// Records whether the container should run detached from the
    /// terminal.
    pub fn want_daemonize(&mut self, state: bool) -> (r: Result<(), Error>)
        requires
            old(self).wf(),
        ensures
            final(self).wf(),
            r is Ok,
            final(self)@ == (State { daemonize: state, ..old(self)@ }),
    {
        if self.inner.want_daemonize(state) {
            Ok(())
        } else {
            Err(self.project_error())
        }
    }

    /// Records whether inherited descriptors should be closed on start.
    pub fn want_close_all_fds(&mut self, state: bool) -> (r: Result<(), Error>)
        requires
            old(self).wf(),
        ensures
            final(self).wf(),
            r is Ok,
            final(self)@ == (State { close_all_fds: state, ..old(self)@ }),
    {
        if self.inner.want_close_all_fds(state) {
            Ok(())
        } else {
            Err(self.project_error())
        }
    }

    /// Waits until the container reaches the named state; in the model the
    /// state changes only under this wrapper's calls, so the wait succeeds
    /// exactly when the state already holds and otherwise reports the
    /// timeout.
    pub fn wait(&mut self, state: &str, timeout: i32) -> (r: Result<(), Error>)
        requires
            old(self).wf(),
        ensures
            final(self).wf(),
            r is Ok <==> (!state@.contains('\0') && encode_utf8(state@) == encode_utf8(
                state_name(old(self)@),
            )),
            r is Ok ==> final(self)@ == old(self)@,
            state@.contains('\0') ==> (r matches Err(e) && e is Encoding && final(self)@ == old(
                self,
            )@),
            !state@.contains('\0') && encode_utf8(state@) != encode_utf8(state_name(old(self)@))
                ==> (r matches Err(e) && foreign_err(e, old(self)@, final(self)@, ERR_TIMEOUT)),
    {
        let state_c = match encode_arg(state) {
            Ok(c) => c,
            Err(e) => {
                return Err(e);
            },
        };
        if self.inner.wait(&state_c, timeout) {
            Ok(())
        } else {
            Err(self.project_error())
        }
    }

    /// Asks the running container to reboot.
    pub fn reboot(&mut self) -> (r: Result<(), Error>)
        requires
            old(self).wf(),
        ensures
            final(self).wf(),
            r is Ok <==> old(self)@.running,
            r is Ok ==> final(self)@ == old(self)@,
            (r matches Err(e) ==> foreign_err(e, old(self)@, final(self)@, ERR_NOT_RUNNING)),
    {
        if self.inner.reboot() {
            Ok(())
        } else {
            Err(self.project_error())
        }
    }

    /// Asks the running container to reboot, with a timeout.
    pub fn reboot2(&mut self, timeout: i32) -> (r: Result<(), Error>)
        requires
            old(self).wf(),
        ensures
            final(self).wf(),
            r is Ok <==> old(self)@.running,
            r is Ok ==> final(self)@ == old(self)@,
            (r matches Err(e) ==> foreign_err(e, old(self)@, final(self)@, ERR_NOT_RUNNING)),
    {
        if self.inner.reboot2(timeout) {
            Ok(())
        } else {
            Err(self.project_error())
        }
    }

    /// Asks the running container to shut down within the timeout.
    pub fn shutdown(&mut self, timeout: i32) -> (r: Result<(), Error>)
        requires
            old(self).wf(),
        ensures
            final(self).wf(),
            r is Ok <==> old(self)@.running,
            r is Ok ==> final(self)@ == (State {
                running: false,
                frozen: false,
                init_pid: -1i32,
                ..old(self)@
            }),
            (r matches Err(e) ==> foreign_err(e, old(self)@, final(self)@, ERR_NOT_RUNNING)),
    {
        if self.inner.shutdown(timeout) {
            Ok(())
        } else {
            Err(self.project_error())
        }
    }

    /// Sets the command response timeout; any value from -1 upward.
    pub fn set_timeout(&mut self, timeout: i32) -> (r: Result<(), Error>)
        requires
            old(self).wf(),
        ensures
            final(self).wf(),
            r is Ok <==> timeout >= -1,
            r is Ok ==> final(self)@ == (State { timeout: timeout, ..old(self)@ }),
            (r matches Err(e) ==> foreign_err(e, old(self)@, final(self)@, ERR_INVALID)),
    {
        if self.inner.set_timeout(timeout) {
            Ok(())
        } else {
            Err(self.project_error())
        }
    }

    /// Loads the given configuration file into the handle.
    pub fn load_config(&mut self, alt_file: &str) -> (r: Result<(), Error>)
        requires
            old(self).wf(),
        ensures
            final(self).wf(),
            r is Ok <==> (!alt_file@.contains('\0') && path_len_ok(encode_utf8(alt_file@))),
            r is Ok ==> final(self)@ == (State {
                config_file: encode_utf8(alt_file@),
                ..old(self)@
            }),
            alt_file@.contains('\0') ==> (r matches Err(e) && e is Encoding && final(self)@
                == old(self)@),
            !alt_file@.contains('\0') && !path_len_ok(encode_utf8(alt_file@)) ==> (
            r matches Err(e) && foreign_err(e, old(self)@, final(self)@, ERR_INVALID)),
    {
        let alt_c = match encode_arg(alt_file) {
            Ok(c) => c,
            Err(e) => {
                return Err(e);
            },
        };
        if self.inner.load_config(&alt_c) {
            Ok(())
        } else {
            Err(self.project_error())
        }
    }

    /// Writes the configuration out to the given file; the handle itself
    /// does not change.
    pub fn save_config(&mut self, alt_file: &str) -> (r: Result<(), Error>)
        requires
            old(self).wf(),
        ensures
            final(self).wf(),
            r is Ok <==> (!alt_file@.contains('\0') && path_len_ok(encode_utf8(alt_file@))),
            r is Ok ==> final(self)@ == old(self)@,
            alt_file@.contains('\0') ==> (r matches Err(e) && e is Encoding && final(self)@
                == old(self)@),
            !alt_file@.contains('\0') && !path_len_ok(encode_utf8(alt_file@)) ==> (
            r matches Err(e) && foreign_err(e, old(self)@, final(self)@, ERR_INVALID)),
    {
        let alt_c = match encode_arg(alt_file) {
            Ok(c) => c,
            Err(e) => {
                return Err(e);
            },
        };
        if self.inner.save_config(&alt_c) {
            Ok(())
        } else {
            Err(self.project_error())
        }
    }

    /// Renames the stopped container.
    pub fn rename(&mut self, newname: &str) -> (r: Result<(), Error>)
        requires
            old(self).wf(),
        ensures
            final(self).wf(),
            r is Ok <==> (!newname@.contains('\0') && old(self)@.defined && !old(self)@.running
                && name_ok(encode_utf8(newname@))),
            r is Ok ==> final(self)@ == (State {
                name: encode_utf8(newname@),
                config_file: crate::native::config_file_bytes(
                    old(self)@.config_path,
                    encode_utf8(newname@),
                ),
                ..old(self)@
            }),
            newname@.contains('\0') ==> (r matches Err(e) && e is Encoding && final(self)@ == old(
                self,
            )@),
            !newname@.contains('\0') && old(self)@.running ==> (r matches Err(e) && foreign_err(
                e,
                old(self)@,
                final(self)@,
                ERR_BUSY,
            )),
            !newname@.contains('\0') && !old(self)@.running && !old(self)@.defined ==> (
            r matches Err(e) && foreign_err(e, old(self)@, final(self)@, ERR_NOT_FOUND)),
            !newname@.contains('\0') && !old(self)@.running && old(self)@.defined && !name_ok(
                encode_utf8(newname@),
            ) ==> (r matches Err(e) && foreign_err(e, old(self)@, final(self)@, ERR_INVALID)),
    {
        let name_c = match encode_arg(newname) {
            Ok(c) => c,
            Err(e) => {
                return Err(e);
            },
        };
        if self.inner.rename(&name_c) {
            Ok(())
        } else {
            Err(self.project_error())
        }
    }

    /// Creates the container on the host from a template.  The template,
    /// flags, block-device specification and template arguments select what
    /// gets built; the observable model state gains only the created mark.
    pub fn create(
        &mut self,
        template: Option<&str>,
        bdevtype: Option<&str>,
        specs: Option<&BdevSpecs>,
        flags: crate::flags::CreateFlags,
        argv: &Vec<String>,
    ) -> (r: Result<(), Error>)
        requires
            old(self).wf(),
        ensures
            final(self).wf(),
            r is Ok <==> {
                &&& (template matches Some(t) ==> !t@.contains('\0'))
                &&& (bdevtype matches Some(b) ==> !b@.contains('\0'))
                &&& (forall|k: int|
                    0 <= k < argv@.len() ==> !(#[trigger] argv@[k])@.contains('\0'))
                &&& !old(self)@.defined
                &&& !old(self)@.running
            },
            r is Ok ==> final(self)@ == (State { defined: true, ..old(self)@ }),
            ((template matches Some(t) && t@.contains('\0')) || (bdevtype matches Some(b)
                && b@.contains('\0')) || (exists|k: int|
                0 <= k < argv@.len() && (#[trigger] argv@[k])@.contains('\0'))) ==> (
            r matches Err(e) && e is Encoding && final(self)@ == old(self)@),
            ((template matches Some(t) ==> !t@.contains('\0')) && (bdevtype matches Some(b)
                ==> !b@.contains('\0')) && (forall|k: int|
                0 <= k < argv@.len() ==> !(#[trigger] argv@[k])@.contains('\0')) && old(
                self,
            )@.running) ==> (r matches Err(e) && foreign_err(
                e,
                old(self)@,
                final(self)@,
                ERR_BUSY,
            )),
            ((template matches Some(t) ==> !t@.contains('\0')) && (bdevtype matches Some(b)
                ==> !b@.contains('\0')) && (forall|k: int|
                0 <= k < argv@.len() ==> !(#[trigger] argv@[k])@.contains('\0')) && !old(
                self,
            )@.running && old(self)@.defined) ==> (r matches Err(e) && foreign_err(
                e,
                old(self)@,
                final(self)@,
                ERR_EXISTS,
            )),
    {
        let template_c = match encode_opt(template) {
            Ok(o) => o,
            Err(e) => {
                return Err(e);
            },
        };
        let bdevtype_c = match encode_opt(bdevtype) {
            Ok(o) => o,
            Err(e) => {
                return Err(e);
            },
        };
        let argv_c = match encode_argv(argv) {
            Ok(o) => o,
            Err(e) => {
                proof {
                    assert(exists|k: int|
                        0 <= k < argv@.len() && (#[trigger] argv@[k])@.contains('\0'));
                }
                return Err(e);
            },
        };
        let template_ref: Option<&CBuf> = match &template_c {
            Some(c) => Some(c),
            None => None,
        };
        let bdevtype_ref: Option<&CBuf> = match &bdevtype_c {
            Some(c) => Some(c),
            None => None,
        };
        let argv_ref: Option<&Nta> = match &argv_c {
            Some(a) => Some(a),
            None => None,
        };
        if self.inner.create(template_ref, bdevtype_ref, flags.bits(), argv_ref) {
            Ok(())
        } else {
            Err(self.project_error())
        }
    }

    /// Deletes the stopped container from the host.
    pub fn destroy(&mut self) -> (r: Result<(), Error>)
        requires
            old(self).wf(),
        ensures
            final(self).wf(),
            r is Ok <==> (old(self)@.defined && !old(self)@.running),
            r is Ok ==> final(self)@ == (State { defined: false, ..old(self)@ }),
            old(self)@.running ==> (r matches Err(e) && foreign_err(
                e,
                old(self)@,
                final(self)@,
                ERR_BUSY,
            )),
            !old(self)@.running && !old(self)@.defined ==> (r matches Err(e) && foreign_err(
                e,
                old(self)@,
                final(self)@,
                ERR_NOT_FOUND,
            )),
    {
        if self.inner.destroy() {
            Ok(())
        } else {
            Err(self.project_error())
        }
    }

    /// Adds one reference to the native object; failure means the modeled
    /// reference limit was hit, reported, not retried.
    pub fn get(&mut self) -> (r: Result<(), Error>)
        requires
            old(self).wf(),
        ensures
            final(self).wf(),
            r is Ok <==> old(self)@.refs < REF_MAX,
            r is Ok ==> final(self)@ == (State {
                refs: (old(self)@.refs + 1) as u64,
                ..old(self)@
            }),
            (r matches Err(e) ==> foreign_err(e, old(self)@, final(self)@, ERR_LIMIT)),
    {
        if self.inner.get_ref() {
            Ok(())
        } else {
            Err(self.project_error())
        }
    }

    /// Releases the one reference this wrapper holds: consumes the handle,
    /// so the release happens exactly once and no call can follow it, and
    /// reports the observability counters.
    pub fn put(self) -> (r: ReleaseReport)
        requires
            self.wf(),
        ensures
            r.releases == crate::native::bump(self@.releases),
            r.error_reads == self@.error_reads,
            r.refs_left == (self@.refs - 1) as u64,
    {
        self.inner.put_ref()
    }
}

/// Copies a value the native side handed back (content bytes, then the
/// terminator) into host text.
fn read_native_text(buf: &Vec<u8>, Ghost(v): Ghost<Seq<u8>>) -> (r: String)
    requires
        buf@ == v + seq![0u8],
        !v.contains(0u8),
        valid_utf8(v),
    ensures
        r@ == decode_utf8(v),
{
    proof {
        assert forall|k: int| 0 <= k < v.len() implies buf@[k] != 0u8 by {
            assert(buf@[k] == v[k]);
            if v[k] == 0u8 {
                assert(v.contains(0u8));
            }
        }
        assert(buf@[v.len() as int] == 0u8);
        crate::cbuf::lemma_first_null_at(buf@, v.len() as int);
    }
    let content = match crate::cbuf::take_until_null(buf) {
        Some(c) => c,
        None => {
            proof {
                assert(buf@[v.len() as int] == 0u8);
                assert(buf@.contains(0u8));
            }
            vstd::pervasive::unreached()
        },
    };
    proof {
        assert(content@ =~= v);
    }
    match crate::cbuf::string_from_utf8(content) {
        Some(s) => s,
        None => vstd::pervasive::unreached(),
    }
}

/// Copies an optional foreign string back into host text.
fn read_opt_text(c: &Option<CBuf>, Ghost(v): Ghost<Option<Seq<u8>>>) -> (r: Option<String>)
    requires
        match (c, v) {
            (Some(b), Some(vb)) => b@ == vb && valid_utf8(vb),
            (None, None) => true,
            _ => false,
        },
    ensures
        (r is Some) == (v is Some),
        (v matches Some(vb) ==> r matches Some(s) && s@ == decode_utf8(vb)),
{
    match c {
        Some(b) => match from_foreign(b) {
            Ok(s) => Some(s),
            Err(_) => vstd::pervasive::unreached(),
        },
        None => None,
    }
}

impl Container {
    /// Sets a configuration item.
    pub fn set_config_item(&mut self, key: &str, value: &str) -> (r: Result<(), Error>)
        requires
            old(self).wf(),
        ensures
            final(self).wf(),
            r is Ok <==> {
                &&& !key@.contains('\0')
                &&& !value@.contains('\0')
                &&& 1 <= encode_utf8(key@).len() <= MAX_ITEM_LEN
                &&& encode_utf8(value@).len() <= MAX_ITEM_LEN
                &&& (crate::store::kv_get(old(self)@.config, encode_utf8(key@)) is Some || old(
                    self,
                )@.config.len() < MAX_ITEMS)
            },
            r is Ok ==> {
                &&& final(self)@ == (State { config: final(self)@.config, ..old(self)@ })
                &&& crate::store::kv_get(final(self)@.config, encode_utf8(key@)) == Some(
                    encode_utf8(value@),
                )
                &&& (forall|k2: Seq<u8>|
                    k2 != encode_utf8(key@) ==> #[trigger] crate::store::kv_get(
                        final(self)@.config,
                        k2,
                    ) == crate::store::kv_get(old(self)@.config, k2))
            },
            (key@.contains('\0') || value@.contains('\0')) ==> (r matches Err(e)
                && e is Encoding && final(self)@ == old(self)@),
            (r matches Err(e) ==> (e is Foreign ==> foreign_err(
                e,
                old(self)@,
                final(self)@,
                if !(1 <= encode_utf8(key@).len() <= MAX_ITEM_LEN && encode_utf8(value@).len()
                    <= MAX_ITEM_LEN) {
                    ERR_INVALID
                } else {
                    ERR_LIMIT
                },
            ))),
    {
        let key_c = match encode_arg(key) {
            Ok(c) => c,
            Err(e) => {
                return Err(e);
            },
        };
        let value_c = match encode_arg(value) {
            Ok(c) => c,
            Err(e) => {
                return Err(e);
            },
        };
        if self.inner.set_config_item(&key_c, &value_c) {
            Ok(())
        } else {
            Err(self.project_error())
        }
    }

    /// The value of a configuration item, through the native two-call size
    /// query: `None` when the size call reports that no value exists, which
    /// is not an error.
    pub fn get_config_item(&self, key: &str) -> (r: Result<Option<String>, Error>)
        requires
            self.wf(),
        ensures
            r is Ok <==> !key@.contains('\0'),
            (r matches Err(e) ==> e is Encoding),
            (r matches Ok(o) ==> {
                &&& ((o is Some) <==> crate::store::kv_get(self@.config, encode_utf8(key@))
                    is Some)
                &&& (o matches Some(v) ==> v@ == decode_utf8(
                    crate::store::kv_get(self@.config, encode_utf8(key@))->0,
                ))
            }),
    {
        let key_c = match encode_arg(key) {
            Ok(c) => c,
            Err(e) => {
                return Err(e);
            },
        };
        let (size, _probe) = self.inner.get_config_item(&key_c, 0);
        if size < 0 {
            return Ok(None);
        }
        let ghost v = crate::store::kv_get(self@.config, key_c@)->0;
        proof {
            crate::store::lemma_kv_get_some(self@.config, key_c@);
            let i = choose|i: int|
                0 <= i < self@.config.len() && #[trigger] self@.config[i] == (key_c@, v);
            assert(crate::native::text_ok(self@.config[i].1));
        }
        let cap = (size as usize) + 1;
        let (_size2, buf) = self.inner.get_config_item(&key_c, cap);
        Ok(Some(read_native_text(&buf, Ghost(v))))
    }

    /// The newline-joined listing of the configuration keys under the given
    /// prefix, through the same two-call size query.
    pub fn get_keys(&self, key: &str) -> (r: Result<String, Error>)
        requires
            self.wf(),
        ensures
            r is Ok <==> !key@.contains('\0'),
            (r matches Err(e) ==> e is Encoding),
            (r matches Ok(s) ==> s@ == decode_utf8(
                crate::store::keys_with_prefix(self@.config, encode_utf8(key@)),
            )),
    {
        let key_c = match encode_arg(key) {
            Ok(c) => c,
            Err(e) => {
                return Err(e);
            },
        };
        let ghost joined = crate::store::keys_with_prefix(self@.config, key_c@);
        proof {
            assert forall|i: int|
                0 <= i < self@.config.len() implies valid_utf8((#[trigger] self@.config[i]).0)
                && !self@.config[i].0.contains(0u8) by {
                assert(crate::native::text_ok(self@.config[i].0));
            }
            crate::store::lemma_keys_with_prefix_text(self@.config, key_c@);
        }
        let (size, _probe) = self.inner.get_keys(&key_c, 0);
        let cap = (size as usize) + 1;
        let (_size2, buf) = self.inner.get_keys(&key_c, cap);
        Ok(read_native_text(&buf, Ghost(joined)))
    }

    /// The value of a configuration item on the running container, as one
    /// string-returning native call.
    pub fn get_running_config_item(&mut self, key: &str) -> (r: Result<String, Error>)
        requires
            old(self).wf(),
        ensures
            final(self).wf(),
            r is Ok <==> (!key@.contains('\0') && old(self)@.running && crate::store::kv_get(
                old(self)@.config,
                encode_utf8(key@),
            ) is Some),
            (r matches Ok(s) ==> s@ == decode_utf8(
                crate::store::kv_get(old(self)@.config, encode_utf8(key@))->0,
            ) && final(self)@ == old(self)@),
            key@.contains('\0') ==> (r matches Err(e) && e is Encoding && final(self)@ == old(
                self,
            )@),
            !key@.contains('\0') && !old(self)@.running ==> (r matches Err(e) && foreign_err(
                e,
                old(self)@,
                final(self)@,
                ERR_NOT_RUNNING,
            )),
            !key@.contains('\0') && old(self)@.running && crate::store::kv_get(
                old(self)@.config,
                encode_utf8(key@),
            ) is None ==> (r matches Err(e) && foreign_err(
                e,
                old(self)@,
                final(self)@,
                ERR_NOT_FOUND,
            )),
    {
        let key_c = match encode_arg(key) {
            Ok(c) => c,
            Err(e) => {
                return Err(e);
            },
        };
        proof {
            crate::store::lemma_kv_get_some(self@.config, key_c@);
            if crate::store::kv_get(self@.config, key_c@) is Some {
                let v = crate::store::kv_get(self@.config, key_c@)->0;
                let i = choose|i: int|
                    0 <= i < self@.config.len() && #[trigger] self@.config[i] == (key_c@, v);
                assert(crate::native::text_ok(self@.config[i].1));
            }
        }
        match self.inner.get_running_config_item(&key_c) {
            Some(c) => {
                let s = match from_foreign(&c) {
                    Ok(s) => s,
                    Err(_) => vstd::pervasive::unreached(),
                };
                Ok(s)
            },
            None => Err(self.project_error()),
        }
    }

    /// Drops the whole in-memory configuration.
    pub fn clear_config(&mut self)
        requires
            old(self).wf(),
        ensures
            final(self).wf(),
            final(self)@ == (State { config: Seq::empty(), ..old(self)@ }),
    {
        self.inner.clear_config();
    }

    /// Clears one configuration item; fails when no item carries the key.
    pub fn clear_config_item(&mut self, key: &str) -> (r: Result<(), Error>)
        requires
            old(self).wf(),
        ensures
            final(self).wf(),
            r is Ok <==> (!key@.contains('\0') && crate::store::kv_get(
                old(self)@.config,
                encode_utf8(key@),
            ) is Some),
            r is Ok ==> {
                &&& final(self)@ == (State { config: final(self)@.config, ..old(self)@ })
                &&& crate::store::kv_get(final(self)@.config, encode_utf8(key@)) is None
                &&& (forall|k2: Seq<u8>|
                    k2 != encode_utf8(key@) ==> #[trigger] crate::store::kv_get(
                        final(self)@.config,
                        k2,
                    ) == crate::store::kv_get(old(self)@.config, k2))
            },
            key@.contains('\0') ==> (r matches Err(e) && e is Encoding && final(self)@ == old(
                self,
            )@),
            !key@.contains('\0') && crate::store::kv_get(
                old(self)@.config,
                encode_utf8(key@),
            ) is None ==> (r matches Err(e) && foreign_err(
                e,
                old(self)@,
                final(self)@,
                ERR_NOT_FOUND,
            )),
    {
        let key_c = match encode_arg(key) {
            Ok(c) => c,
            Err(e) => {
                return Err(e);
            },
        };
        if self.inner.clear_config_item(&key_c) {
            Ok(())
        } else {
            Err(self.project_error())
        }
    }

    /// Sets a cgroup item on the running container.
    pub fn set_cgroup_item(&mut self, subsys: &str, value: &str) -> (r: Result<(), Error>)
        requires
            old(self).wf(),
        ensures
            final(self).wf(),
            r is Ok <==> {
                &&& !subsys@.contains('\0')
                &&& !value@.contains('\0')
                &&& old(self)@.running
                &&& 1 <= encode_utf8(subsys@).len() <= MAX_ITEM_LEN
                &&& encode_utf8(value@).len() <= MAX_ITEM_LEN
                &&& (crate::store::kv_get(old(self)@.cgroup, encode_utf8(subsys@)) is Some || old(
                    self,
                )@.cgroup.len() < MAX_ITEMS)
            },
            r is Ok ==> {
                &&& final(self)@ == (State { cgroup: final(self)@.cgroup, ..old(self)@ })
                &&& crate::store::kv_get(final(self)@.cgroup, encode_utf8(subsys@)) == Some(
                    encode_utf8(value@),
                )
                &&& (forall|k2: Seq<u8>|
                    k2 != encode_utf8(subsys@) ==> #[trigger] crate::store::kv_get(
                        final(self)@.cgroup,
                        k2,
                    ) == crate::store::kv_get(old(self)@.cgroup, k2))
            },
            (subsys@.contains('\0') || value@.contains('\0')) ==> (r matches Err(e)
                && e is Encoding && final(self)@ == old(self)@),
            !subsys@.contains('\0') && !value@.contains('\0') && !old(self)@.running ==> (
            r matches Err(e) && foreign_err(e, old(self)@, final(self)@, ERR_NOT_RUNNING)),
    {
        let subsys_c = match encode_arg(subsys) {
            Ok(c) => c,
            Err(e) => {
                return Err(e);
            },
        };
        let value_c = match encode_arg(value) {
            Ok(c) => c,
            Err(e) => {
                return Err(e);
            },
        };
        if self.inner.set_cgroup_item(&subsys_c, &value_c) {
            Ok(())
        } else {
            Err(self.project_error())
        }
    }

    /// The value of a cgroup item, through the native two-call size query:
    /// a stopped container has no cgroup, so every key reads as absent.
    pub fn get_cgroup_item(&self, subsys: &str) -> (r: Result<Option<String>, Error>)
        requires
            self.wf(),
        ensures
            r is Ok <==> !subsys@.contains('\0'),
            (r matches Err(e) ==> e is Encoding),
            (r matches Ok(o) ==> {
                &&& ((o is Some) <==> (self@.running && crate::store::kv_get(
                    self@.cgroup,
                    encode_utf8(subsys@),
                ) is Some))
                &&& (o matches Some(v) ==> v@ == decode_utf8(
                    crate::store::kv_get(self@.cgroup, encode_utf8(subsys@))->0,
                ))
            }),
    {
        let subsys_c = match encode_arg(subsys) {
            Ok(c) => c,
            Err(e) => {
                return Err(e);
            },
        };
        let (size, _probe) = self.inner.get_cgroup_item(&subsys_c, 0);
        if size < 0 {
            return Ok(None);
        }
        let ghost v = crate::store::kv_get(self@.cgroup, subsys_c@)->0;
        proof {
            crate::store::lemma_kv_get_some(self@.cgroup, subsys_c@);
            let i = choose|i: int|
                0 <= i < self@.cgroup.len() && #[trigger] self@.cgroup[i] == (subsys_c@, v);
            assert(crate::native::text_ok(self@.cgroup[i].1));
        }
        let cap = (size as usize) + 1;
        let (_size2, buf) = self.inner.get_cgroup_item(&subsys_c, cap);
        Ok(Some(read_native_text(&buf, Ghost(v))))
    }

    /// The configuration path member.
    pub fn get_config_path(&self) -> (r: String)
        requires
            self.wf(),
        ensures
            r@ == decode_utf8(self@.config_path),
    {
        self.config_path()
    }

    /// Sets the configuration path member.
    pub fn set_config_path(&mut self, path: &str) -> (r: Result<(), Error>)
        requires
            old(self).wf(),
        ensures
            final(self).wf(),
            r is Ok <==> (!path@.contains('\0') && path_len_ok(encode_utf8(path@))),
            r is Ok ==> final(self)@ == (State {
                config_path: encode_utf8(path@),
                ..old(self)@
            }),
            path@.contains('\0') ==> (r matches Err(e) && e is Encoding && final(self)@ == old(
                self,
            )@),
            !path@.contains('\0') && !path_len_ok(encode_utf8(path@)) ==> (r matches Err(e)
                && foreign_err(e, old(self)@, final(self)@, ERR_INVALID)),
    {
        let path_c = match encode_arg(path) {
            Ok(c) => c,
            Err(e) => {
                return Err(e);
            },
        };
        if self.inner.set_config_path(&path_c) {
            Ok(())
        } else {
            Err(self.project_error())
        }
    }

    /// The running container's network interfaces; on a stopped container
    /// the native call hands back the null array, the error is read, and
    /// the listing is empty.
    pub fn get_interfaces(&mut self) -> (r: Vec<String>)
        requires
            old(self).wf(),
        ensures
            final(self).wf(),
            old(self)@.running ==> {
                &&& final(self)@ == old(self)@
                &&& r@.len() == old(self)@.interfaces.len()
                &&& (forall|k: int|
                    0 <= k < r@.len() ==> (#[trigger] r@[k])@ == decode_utf8(
                        old(self)@.interfaces[k],
                    ))
            },
            !old(self)@.running ==> r@.len() == 0 && final(self)@ == after_error_read(
                with_error(old(self)@, ERR_NOT_RUNNING),
            ),
    {
        match self.inner.get_interfaces() {
            Some(nta) => {
                proof {
                    assert forall|k: int|
                        0 <= k < crate::argv::sentinel(nta@) implies valid_utf8(
                        #[trigger] crate::argv::entries(nta@)[k],
                    ) by {
                        assert(crate::argv::entries(nta@)[k] == self@.interfaces[k]);
                        assert(crate::native::text_ok(self@.interfaces[k]));
                    }
                }
                match crate::argv::from_foreign_nta(&nta) {
                    Ok(v) => v,
                    Err(_) => vstd::pervasive::unreached(),
                }
            },
            None => {
                let _err = self.project_error();
                Vec::new()
            },
        }
    }

    /// Moves a host interface into the running container under the
    /// destination name.
    pub fn attach_interface(&mut self, dev: &str, dst_dev: &str) -> (r: Result<(), Error>)
        requires
            old(self).wf(),
        ensures
            final(self).wf(),
            r is Ok <==> {
                &&& !dev@.contains('\0')
                &&& !dst_dev@.contains('\0')
                &&& old(self)@.running
                &&& 1 <= encode_utf8(dst_dev@).len() <= MAX_ITEM_LEN
                &&& !old(self)@.interfaces.contains(encode_utf8(dst_dev@))
                &&& old(self)@.interfaces.len() < MAX_ITEMS
            },
            r is Ok ==> final(self)@ == (State {
                interfaces: old(self)@.interfaces.push(encode_utf8(dst_dev@)),
                ..old(self)@
            }),
            (dev@.contains('\0') || dst_dev@.contains('\0')) ==> (r matches Err(e)
                && e is Encoding && final(self)@ == old(self)@),
            !dev@.contains('\0') && !dst_dev@.contains('\0') && !old(self)@.running ==> (
            r matches Err(e) && foreign_err(e, old(self)@, final(self)@, ERR_NOT_RUNNING)),
    {
        let dev_c = match encode_arg(dev) {
            Ok(c) => c,
            Err(e) => {
                return Err(e);
            },
        };
        let dst_c = match encode_arg(dst_dev) {
            Ok(c) => c,
            Err(e) => {
                return Err(e);
            },
        };
        if self.inner.attach_interface(&dev_c, &dst_c) {
            Ok(())
        } else {
            Err(self.project_error())
        }
    }

    /// Gives an interface of the running container back to the host.
    pub fn detach_interface(&mut self, dev: &str, dst_dev: &str) -> (r: Result<(), Error>)
        requires
            old(self).wf(),
        ensures
            final(self).wf(),
            r is Ok <==> (!dev@.contains('\0') && !dst_dev@.contains('\0') && old(self)@.running
                && old(self)@.interfaces.contains(encode_utf8(dev@))),
            r is Ok ==> final(self)@ == (State {
                interfaces: old(self)@.interfaces.remove(
                    crate::native::bytes_find(old(self)@.interfaces, encode_utf8(dev@)),
                ),
                ..old(self)@
            }),
            (dev@.contains('\0') || dst_dev@.contains('\0')) ==> (r matches Err(e)
                && e is Encoding && final(self)@ == old(self)@),
            !dev@.contains('\0') && !dst_dev@.contains('\0') && !old(self)@.running ==> (
            r matches Err(e) && foreign_err(e, old(self)@, final(self)@, ERR_NOT_RUNNING)),
            !dev@.contains('\0') && !dst_dev@.contains('\0') && old(self)@.running && !old(
                self,
            )@.interfaces.contains(encode_utf8(dev@)) ==> (r matches Err(e) && foreign_err(
                e,
                old(self)@,
                final(self)@,
                ERR_NOT_FOUND,
            )),
    {
        let dev_c = match encode_arg(dev) {
            Ok(c) => c,
            Err(e) => {
                return Err(e);
            },
        };
        let dst_c = match encode_arg(dst_dev) {
            Ok(c) => c,
            Err(e) => {
                return Err(e);
            },
        };
        if self.inner.detach_interface(&dev_c, &dst_c) {
            Ok(())
        } else {
            Err(self.project_error())
        }
    }

    /// Records a snapshot of the stopped container; the native side names
    /// and stamps it by its creation counter.
    pub fn snapshot(&mut self, commentfile: &str) -> (r: Result<(), Error>)
        requires
            old(self).wf(),
        ensures
            final(self).wf(),
            r is Ok <==> {
                &&& !commentfile@.contains('\0')
                &&& old(self)@.defined
                &&& !old(self)@.running
                &&& old(self)@.snap_counter < MAX_ITEMS as u64
                &&& encode_utf8(commentfile@).len() <= MAX_ITEM_LEN
            },
            r is Ok ==> final(self)@ == (State {
                snapshots: old(self)@.snapshots.push(
                    crate::native::taken_snap(old(self)@, Some(encode_utf8(commentfile@))),
                ),
                snap_counter: (old(self)@.snap_counter + 1) as u64,
                ..old(self)@
            }),
            commentfile@.contains('\0') ==> (r matches Err(e) && e is Encoding && final(self)@
                == old(self)@),
    {
        let comment_c = match encode_arg(commentfile) {
            Ok(c) => c,
            Err(e) => {
                return Err(e);
            },
        };
        if self.inner.snapshot(Some(&comment_c)) >= 0 {
            Ok(())
        } else {
            Err(self.project_error())
        }
    }

    /// The list of snapshots, copied across the boundary.
    pub fn snapshot_list(&self) -> (r: Vec<crate::snapshot::Snapshot>)
        requires
            self.wf(),
        ensures
            r@.len() == self@.snapshots.len(),
            forall|k: int|
                0 <= k < r@.len() ==> {
                    &&& (#[trigger] r@[k])@.name == decode_utf8(self@.snapshots[k].name)
                    &&& r@[k]@.timestamp == decode_utf8(self@.snapshots[k].timestamp)
                    &&& r@[k]@.lxcpath == decode_utf8(self@.snapshots[k].lxcpath)
                    &&& (r@[k]@.comment_pathname is Some) == (self@.snapshots[k].comment is Some)
                    &&& (self@.snapshots[k].comment matches Some(c) ==> r@[k]@.comment_pathname
                        == Some(decode_utf8(c)))
                },
    {
        let (native_list, _count) = self.inner.snapshot_list();
        let n = native_list.len();
        let mut out: Vec<crate::snapshot::Snapshot> = Vec::new();
        let mut i: usize = 0;
        while i < n
            invariant
                self.wf(),
                n == native_list@.len(),
                native_list@.map(|j: int, s: crate::native::NativeSnapshot| s@) == self@.snapshots,
                n == self@.snapshots.len(),
                i <= n,
                out@.len() == i,
                forall|k: int|
                    0 <= k < i ==> {
                        &&& (#[trigger] out@[k])@.name == decode_utf8(self@.snapshots[k].name)
                        &&& out@[k]@.timestamp == decode_utf8(self@.snapshots[k].timestamp)
                        &&& out@[k]@.lxcpath == decode_utf8(self@.snapshots[k].lxcpath)
                        &&& (out@[k]@.comment_pathname is Some) == (self@.snapshots[k].comment
                            is Some)
                        &&& (self@.snapshots[k].comment matches Some(c)
                            ==> out@[k]@.comment_pathname == Some(decode_utf8(c)))
                    },
            decreases n - i,
        {
            proof {
                assert(native_list@.map(|j: int, s: crate::native::NativeSnapshot| s@)[i as int]
                    == native_list@[i as int]@);
                assert(crate::native::snap_wf(self@.snapshots[i as int]));
            }
            let ns = &native_list[i];
            let name = match from_foreign(&ns.name) {
                Ok(s) => s,
                Err(_) => vstd::pervasive::unreached(),
            };
            let timestamp = match from_foreign(&ns.timestamp) {
                Ok(s) => s,
                Err(_) => vstd::pervasive::unreached(),
            };
            let lxcpath = match from_foreign(&ns.lxcpath) {
                Ok(s) => s,
                Err(_) => vstd::pervasive::unreached(),
            };
            let comment_pathname = read_opt_text(
                &ns.comment,
                Ghost(self@.snapshots[i as int].comment),
            );
            let snap = crate::snapshot::Snapshot::build(name, comment_pathname, timestamp, lxcpath);
            proof {
                assert(snap@.name == decode_utf8(self@.snapshots[i as int].name));
                assert(snap@.timestamp == decode_utf8(self@.snapshots[i as int].timestamp));
                assert(snap@.lxcpath == decode_utf8(self@.snapshots[i as int].lxcpath));
                assert((snap@.comment_pathname is Some) == (self@.snapshots[i as int].comment
                    is Some));
                assert(self@.snapshots[i as int].comment matches Some(c)
                    ==> snap@.comment_pathname == Some(decode_utf8(c)));
            }
            out.push(snap);
            i += 1;
        }
        out
    }

    /// Restores a stopped container from the named snapshot into a new
    /// container; this handle does not change.
    pub fn snapshot_restore(&mut self, snapname: &str, newname: &str) -> (r: Result<(), Error>)
        requires
            old(self).wf(),
        ensures
            final(self).wf(),
            r is Ok <==> (!snapname@.contains('\0') && !newname@.contains('\0') && old(
                self,
            )@.defined && !old(self)@.running && crate::native::snap_find(
                old(self)@.snapshots,
                encode_utf8(snapname@),
            ) >= 0),
            r is Ok ==> final(self)@ == old(self)@,
            (snapname@.contains('\0') || newname@.contains('\0')) ==> (r matches Err(e)
                && e is Encoding && final(self)@ == old(self)@),
    {
        let snap_c = match encode_arg(snapname) {
            Ok(c) => c,
            Err(e) => {
                return Err(e);
            },
        };
        let new_c = match encode_arg(newname) {
            Ok(c) => c,
            Err(e) => {
                return Err(e);
            },
        };
        if self.inner.snapshot_restore(&snap_c, &new_c) {
            Ok(())
        } else {
            Err(self.project_error())
        }
    }

    /// Destroys the named snapshot.
    pub fn snapshot_destroy(&mut self, snapname: &str) -> (r: Result<(), Error>)
        requires
            old(self).wf(),
        ensures
            final(self).wf(),
            r is Ok <==> (!snapname@.contains('\0') && crate::native::snap_find(
                old(self)@.snapshots,
                encode_utf8(snapname@),
            ) >= 0),
            r is Ok ==> final(self)@ == (State {
                snapshots: old(self)@.snapshots.remove(
                    crate::native::snap_find(old(self)@.snapshots, encode_utf8(snapname@)),
                ),
                ..old(self)@
            }),
            snapname@.contains('\0') ==> (r matches Err(e) && e is Encoding && final(self)@
                == old(self)@),
            !snapname@.contains('\0') && crate::native::snap_find(
                old(self)@.snapshots,
                encode_utf8(snapname@),
            ) < 0 ==> (r matches Err(e) && foreign_err(
                e,
                old(self)@,
                final(self)@,
                ERR_NOT_FOUND,
            )),
    {
        let snap_c = match encode_arg(snapname) {
            Ok(c) => c,
            Err(e) => {
                return Err(e);
            },
        };
        if self.inner.snapshot_destroy(&snap_c) {
            Ok(())
        } else {
            Err(self.project_error())
        }
    }

    /// Destroys every snapshot.
    pub fn snapshot_destroy_all(&mut self) -> (r: Result<(), Error>)
        requires
            old(self).wf(),
        ensures
            final(self).wf(),
            r is Ok,
            final(self)@ == (State { snapshots: Seq::empty(), ..old(self)@ }),
    {
        if self.inner.snapshot_destroy_all() {
            Ok(())
        } else {
            Err(self.project_error())
        }
    }

    /// Deletes the stopped container together with its snapshots.
    pub fn destroy_with_snapshots(&mut self) -> (r: Result<(), Error>)
        requires
            old(self).wf(),
        ensures
            final(self).wf(),
            r is Ok <==> (old(self)@.defined && !old(self)@.running),
            r is Ok ==> final(self)@ == (State {
                defined: false,
                snapshots: Seq::empty(),
                ..old(self)@
            }),
            old(self)@.running ==> (r matches Err(e) && foreign_err(
                e,
                old(self)@,
                final(self)@,
                ERR_BUSY,
            )),
            !old(self)@.running && !old(self)@.defined ==> (r matches Err(e) && foreign_err(
                e,
                old(self)@,
                final(self)@,
                ERR_NOT_FOUND,
            )),
    {
        if self.inner.destroy_with_snapshots() {
            Ok(())
        } else {
            Err(self.project_error())
        }
    }

    /// Copies the stopped container under a new name into the given
    /// directory and hands back the new handle, carrying a copy of the
    /// configuration.  The flags, block-device arguments, size and hook
    /// arguments select how the copy is made and do not change the
    /// observable model state.
    pub fn clone(
        &mut self,
        newname: &str,
        lxcpath: &str,
        flags: i32,
        bdevtype: &str,
        bdevdata: &str,
        newsize: u64,
        hookargs: &Vec<String>,
    ) -> (r: Result<Container, Error>)
        requires
            old(self).wf(),
        ensures
            final(self).wf(),
            r is Ok <==> {
                &&& !newname@.contains('\0')
                &&& !lxcpath@.contains('\0')
                &&& !bdevtype@.contains('\0')
                &&& !bdevdata@.contains('\0')
                &&& (forall|k: int|
                    0 <= k < hookargs@.len() ==> !(#[trigger] hookargs@[k])@.contains('\0'))
                &&& old(self)@.defined
                &&& !old(self)@.running
                &&& name_ok(encode_utf8(newname@))
                &&& path_len_ok(encode_utf8(lxcpath@))
            },
            r is Ok ==> final(self)@ == old(self)@,
            (r matches Ok(c) ==> c.wf() && c@ == (State {
                name: encode_utf8(newname@),
                config_path: encode_utf8(lxcpath@),
                config_file: crate::native::config_file_bytes(
                    encode_utf8(lxcpath@),
                    encode_utf8(newname@),
                ),
                defined: true,
                config: old(self)@.config,
                ..fresh_state(encode_utf8(newname@), Some(encode_utf8(lxcpath@)))
            })),
            (newname@.contains('\0') || lxcpath@.contains('\0') || bdevtype@.contains('\0')
                || bdevdata@.contains('\0') || (exists|k: int|
                0 <= k < hookargs@.len() && (#[trigger] hookargs@[k])@.contains('\0'))) ==> (
            r matches Err(e) && e is Encoding && final(self)@ == old(self)@),
    {
        let new_c = match encode_arg(newname) {
            Ok(c) => c,
            Err(e) => {
                return Err(e);
            },
        };
        let path_c = match encode_arg(lxcpath) {
            Ok(c) => c,
            Err(e) => {
                return Err(e);
            },
        };
        let _bdevtype_c = match encode_arg(bdevtype) {
            Ok(c) => c,
            Err(e) => {
                return Err(e);
            },
        };
        let _bdevdata_c = match encode_arg(bdevdata) {
            Ok(c) => c,
            Err(e) => {
                return Err(e);
            },
        };
        let _hookargs_c = match encode_argv(hookargs) {
            Ok(o) => o,
            Err(e) => {
                proof {
                    assert(exists|k: int|
                        0 <= k < hookargs@.len() && (#[trigger] hookargs@[k])@.contains('\0'));
                }
                return Err(e);
            },
        };
        match self.inner.clone(&new_c, &path_c) {
            Some(inner) => Ok(Container { inner }),
            None => Err(self.project_error()),
        }
    }

    /// Allocates a console on the running container, handing back the peer
    /// descriptor and the allocated tty number through the out-parameters.
    pub fn console_getfd(&mut self, ttynum: &mut i32, ptxfd: &mut i32) -> (r: Result<(), Error>)
        requires
            old(self).wf(),
        ensures
            final(self).wf(),
            r is Ok <==> old(self)@.running,
            r is Ok ==> {
                &&& final(self)@ == old(self)@
                &&& *final(ptxfd) == 3
                &&& *final(ttynum) == (if *old(ttynum) < 0 {
                    1i32
                } else {
                    *old(ttynum)
                })
            },
            (r matches Err(e) ==> foreign_err(e, old(self)@, final(self)@, ERR_NOT_RUNNING)
                && *final(ttynum) == *old(ttynum) && *final(ptxfd) == *old(ptxfd)),
    {
        if self.inner.console_getfd(ttynum, ptxfd) >= 0 {
            Ok(())
        } else {
            Err(self.project_error())
        }
    }

    /// Runs a console on the running container over the given descriptors.
    pub fn console(
        &mut self,
        ttynum: i32,
        stdinfd: i32,
        stdoutfd: i32,
        stderrfd: i32,
        escape: i32,
    ) -> (r: Result<(), Error>)
        requires
            old(self).wf(),
        ensures
            final(self).wf(),
            r is Ok <==> old(self)@.running,
            r is Ok ==> final(self)@ == old(self)@,
            (r matches Err(e) ==> foreign_err(e, old(self)@, final(self)@, ERR_NOT_RUNNING)),
    {
        if self.inner.console(ttynum, stdinfd, stdoutfd, stderrfd, escape) >= 0 {
            Ok(())
        } else {
            Err(self.project_error())
        }
    }

    /// Runs a program inside the running container and waits for it; hands
    /// back the program's exit status, which in the model is the clean one.
    pub fn attach_run_wait(
        &mut self,
        options: &crate::attach::Options,
        program: &str,
        argv: &Vec<String>,
    ) -> (r: Result<i32, Error>)
        requires
            old(self).wf(),
        ensures
            final(self).wf(),
            r is Ok <==> (!program@.contains('\0') && (forall|k: int|
                0 <= k < argv@.len() ==> !(#[trigger] argv@[k])@.contains('\0')) && old(
                self,
            )@.running),
            (r matches Ok(status) ==> status == 0 && final(self)@ == old(self)@),
            (program@.contains('\0') || (exists|k: int|
                0 <= k < argv@.len() && (#[trigger] argv@[k])@.contains('\0'))) ==> (
            r matches Err(e) && e is Encoding && final(self)@ == old(self)@),
            !program@.contains('\0') && (forall|k: int|
                0 <= k < argv@.len() ==> !(#[trigger] argv@[k])@.contains('\0')) && !old(
                self,
            )@.running ==> (r matches Err(e) && foreign_err(
                e,
                old(self)@,
                final(self)@,
                ERR_NOT_RUNNING,
            )),
    {
        let program_c = match encode_arg(program) {
            Ok(c) => c,
            Err(e) => {
                return Err(e);
            },
        };
        let argv_c = match encode_argv(argv) {
            Ok(o) => o,
            Err(e) => {
                proof {
                    assert(exists|k: int|
                        0 <= k < argv@.len() && (#[trigger] argv@[k])@.contains('\0'));
                }
                return Err(e);
            },
        };
        let argv_ref: Option<&Nta> = match &argv_c {
            Some(a) => Some(a),
            None => None,
        };
        let pid = self.inner.attach_run_wait(&program_c, argv_ref);
        if pid == -1 {
            Err(self.project_error())
        } else {
            Ok(pid)
        }
    }

    /// Adds a device node to the running container; no destination path
    /// crosses the boundary as the null pointer.
    pub fn add_device_node(&mut self, src_path: &str, dest_path: Option<&str>) -> (r: Result<
        (),
        Error,
    >)
        requires
            old(self).wf(),
        ensures
            final(self).wf(),
            r is Ok <==> (!src_path@.contains('\0') && (dest_path matches Some(d)
                ==> !d@.contains('\0')) && old(self)@.running),
            r is Ok ==> final(self)@ == old(self)@,
            (src_path@.contains('\0') || (dest_path matches Some(d) && d@.contains('\0'))) ==> (
            r matches Err(e) && e is Encoding && final(self)@ == old(self)@),
            !src_path@.contains('\0') && (dest_path matches Some(d) ==> !d@.contains('\0'))
                && !old(self)@.running ==> (r matches Err(e) && foreign_err(
                e,
                old(self)@,
                final(self)@,
                ERR_NOT_RUNNING,
            )),
    {
        let src_c = match encode_arg(src_path) {
            Ok(c) => c,
            Err(e) => {
                return Err(e);
            },
        };
        let dest_c = match encode_opt(dest_path) {
            Ok(o) => o,
            Err(e) => {
                return Err(e);
            },
        };
        let dest_ref: Option<&CBuf> = match &dest_c {
            Some(c) => Some(c),
            None => None,
        };
        if self.inner.add_device_node(&src_c, dest_ref) {
            Ok(())
        } else {
            Err(self.project_error())
        }
    }

    /// Removes a device node from the running container.
    pub fn remove_device_node(&mut self, src_path: &str, dest_path: Option<&str>) -> (r: Result<
        (),
        Error,
    >)
        requires
            old(self).wf(),
        ensures
            final(self).wf(),
            r is Ok <==> (!src_path@.contains('\0') && (dest_path matches Some(d)
                ==> !d@.contains('\0')) && old(self)@.running),
            r is Ok ==> final(self)@ == old(self)@,
            (src_path@.contains('\0') || (dest_path matches Some(d) && d@.contains('\0'))) ==> (
            r matches Err(e) && e is Encoding && final(self)@ == old(self)@),
            !src_path@.contains('\0') && (dest_path matches Some(d) ==> !d@.contains('\0'))
                && !old(self)@.running ==> (r matches Err(e) && foreign_err(
                e,
                old(self)@,
                final(self)@,
                ERR_NOT_RUNNING,
            )),
    {
        let src_c = match encode_arg(src_path) {
            Ok(c) => c,
            Err(e) => {
                return Err(e);
            },
        };
        let dest_c = match encode_opt(dest_path) {
            Ok(o) => o,
            Err(e) => {
                return Err(e);
            },
        };
        let dest_ref: Option<&CBuf> = match &dest_c {
            Some(c) => Some(c),
            None => None,
        };
        if self.inner.remove_device_node(&src_c, dest_ref) {
            Ok(())
        } else {
            Err(self.project_error())
        }
    }

    /// Checkpoints the running container into the given directory,
    /// stopping it when asked to.
    pub fn checkpoint(&mut self, directory: &str, stop: bool, verbose: bool) -> (r: Result<
        (),
        Error,
    >)
        requires
            old(self).wf(),
        ensures
            final(self).wf(),
            r is Ok <==> (!directory@.contains('\0') && old(self)@.running && path_len_ok(
                encode_utf8(directory@),
            )),
            r is Ok && stop ==> final(self)@ == (State {
                running: false,
                frozen: false,
                init_pid: -1i32,
                ..old(self)@
            }),
            r is Ok && !stop ==> final(self)@ == old(self)@,
            directory@.contains('\0') ==> (r matches Err(e) && e is Encoding && final(self)@
                == old(self)@),
            !directory@.contains('\0') && !old(self)@.running ==> (r matches Err(e)
                && foreign_err(e, old(self)@, final(self)@, ERR_NOT_RUNNING)),
    {
        let dir_c = match encode_arg(directory) {
            Ok(c) => c,
            Err(e) => {
                return Err(e);
            },
        };
        if self.inner.checkpoint(&dir_c, stop, verbose) {
            Ok(())
        } else {
            Err(self.project_error())
        }
    }

    /// Brings a checkpointed, stopped container back up from the given
    /// directory.
    pub fn restore(&mut self, directory: &str, verbose: bool) -> (r: Result<(), Error>)
        requires
            old(self).wf(),
        ensures
            final(self).wf(),
            r is Ok <==> (!directory@.contains('\0') && old(self)@.defined && !old(
                self,
            )@.running && path_len_ok(encode_utf8(directory@))),
            r is Ok ==> final(self)@ == (State {
                running: true,
                frozen: false,
                init_pid: 1i32,
                ..old(self)@
            }),
            directory@.contains('\0') ==> (r matches Err(e) && e is Encoding && final(self)@
                == old(self)@),
            !directory@.contains('\0') && old(self)@.running ==> (r matches Err(e) && foreign_err(
                e,
                old(self)@,
                final(self)@,
                ERR_BUSY,
            )),
    {
        let dir_c = match encode_arg(directory) {
            Ok(c) => c,
            Err(e) => {
                return Err(e);
            },
        };
        if self.inner.restore(&dir_c, verbose) {
            Ok(())
        } else {
            Err(self.project_error())
        }
    }

    /// Performs one migration command: 0 pre-dumps and 1 dumps the running
    /// container, 2 restores the stopped one, 3 checks features.  The
    /// options select how; the model reads none of them.
    pub fn migrate(&mut self, cmd: u32, opts: &crate::migrate::Opts) -> (r: Result<(), Error>)
        requires
            old(self).wf(),
        ensures
            final(self).wf(),
            r is Ok <==> (cmd == 3 || ((cmd == 0 || cmd == 1) && old(self)@.running) || (cmd == 2
                && old(self)@.defined && !old(self)@.running)),
            cmd == 3 && r is Ok ==> final(self)@ == old(self)@,
            (cmd == 0 || cmd == 1) && r is Ok ==> final(self)@ == old(self)@,
            cmd == 2 && r is Ok ==> final(self)@ == (State {
                running: true,
                frozen: false,
                init_pid: 1i32,
                ..old(self)@
            }),
            (cmd == 0 || cmd == 1) && !old(self)@.running ==> (r matches Err(e) && foreign_err(
                e,
                old(self)@,
                final(self)@,
                ERR_NOT_RUNNING,
            )),
            cmd > 3 ==> (r matches Err(e) && foreign_err(
                e,
                old(self)@,
                final(self)@,
                ERR_INVALID,
            )),
    {
        if self.inner.migrate(cmd) == 0 {
            Ok(())
        } else {
            Err(self.project_error())
        }
    }

    /// Reads or clears the running container's console ring buffer into
    /// the given block; the model records no console output, so the text
    /// handed back is empty.
    pub fn console_log(&mut self, log: &mut crate::console::Log) -> (r: Result<(), Error>)
        requires
            old(self).wf(),
        ensures
            final(self).wf(),
            r is Ok <==> old(self)@.running,
            r is Ok ==> {
                &&& final(self)@ == old(self)@
                &&& final(log).data@ == Seq::<char>::empty()
                &&& final(log).clear == old(log).clear
                &&& final(log).read == old(log).read
                &&& final(log).read_max == old(log).read_max
            },
            (r matches Err(e) ==> foreign_err(e, old(self)@, final(self)@, ERR_NOT_RUNNING)
                && *final(log) == *old(log)),
    {
        match self.inner.console_log(log.clear, log.read) {
            Some(c) => {
                proof {
                    assert(valid_utf8(Seq::<u8>::empty()));
                }
                let s = match from_foreign(&c) {
                    Ok(s) => s,
                    Err(_) => vstd::pervasive::unreached(),
                };
                proof {
                    assert(decode_utf8(Seq::<u8>::empty()) =~= Seq::<char>::empty());
                }
                log.data = s;
                Ok(())
            },
            None => Err(self.project_error()),
        }
    }

    /// Mounts the host's path `source` onto the container's path `target`;
    /// the options text, when given, crosses as a null-terminated buffer.
    pub fn mount(
        &mut self,
        source: &str,
        target: &str,
        filesystemtype: &str,
        mountflags: u64,
        data: Option<&str>,
        mnt: &mut crate::mount::Mount,
    ) -> (r: Result<(), Error>)
        requires
            old(self).wf(),
        ensures
            final(self).wf(),
            *final(mnt) == *old(mnt),
            r is Ok <==> {
                &&& !source@.contains('\0')
                &&& !target@.contains('\0')
                &&& !filesystemtype@.contains('\0')
                &&& (data matches Some(d) ==> !d@.contains('\0'))
                &&& old(self)@.running
                &&& path_len_ok(encode_utf8(source@))
                &&& path_len_ok(encode_utf8(target@))
            },
            r is Ok ==> final(self)@ == old(self)@,
            (source@.contains('\0') || target@.contains('\0') || filesystemtype@.contains('\0')
                || (data matches Some(d) && d@.contains('\0'))) ==> (r matches Err(e)
                && e is Encoding && final(self)@ == old(self)@),
            !source@.contains('\0') && !target@.contains('\0') && !filesystemtype@.contains('\0')
                && (data matches Some(d) ==> !d@.contains('\0')) && !old(self)@.running ==> (
            r matches Err(e) && foreign_err(e, old(self)@, final(self)@, ERR_NOT_RUNNING)),
    {
        let source_c = match encode_arg(source) {
            Ok(c) => c,
            Err(e) => {
                return Err(e);
            },
        };
        let target_c = match encode_arg(target) {
            Ok(c) => c,
            Err(e) => {
                return Err(e);
            },
        };
        let fstype_c = match encode_arg(filesystemtype) {
            Ok(c) => c,
            Err(e) => {
                return Err(e);
            },
        };
        let data_c = match encode_opt(data) {
            Ok(o) => o,
            Err(e) => {
                return Err(e);
            },
        };
        let data_ref: Option<&CBuf> = match &data_c {
            Some(c) => Some(c),
            None => None,
        };
        if self.inner.mount(&source_c, &target_c, &fstype_c, mountflags, data_ref) >= 0 {
            Ok(())
        } else {
            Err(self.project_error())
        }
    }

    /// Unmounts a path inside the running container.
    pub fn umount(&mut self, target: &str, mountflags: u64, mnt: &mut crate::mount::Mount) -> (r:
        Result<(), Error>)
        requires
            old(self).wf(),
        ensures
            final(self).wf(),
            *final(mnt) == *old(mnt),
            r is Ok <==> (!target@.contains('\0') && old(self)@.running && path_len_ok(
                encode_utf8(target@),
            )),
            r is Ok ==> final(self)@ == old(self)@,
            target@.contains('\0') ==> (r matches Err(e) && e is Encoding && final(self)@ == old(
                self,
            )@),
            !target@.contains('\0') && !old(self)@.running ==> (r matches Err(e) && foreign_err(
                e,
                old(self)@,
                final(self)@,
                ERR_NOT_RUNNING,
            )),
    {
        let target_c = match encode_arg(target) {
            Ok(c) => c,
            Err(e) => {
                return Err(e);
            },
        };
        if self.inner.umount(&target_c, mountflags) >= 0 {
            Ok(())
        } else {
            Err(self.project_error())
        }
    }

    /// The running container's seccomp notify descriptor, or -1.
    pub fn seccomp_notify_fd(&self) -> (r: i32)
        ensures
            r == (if self@.running {
                5i32
            } else {
                -1i32
            }),
    {
        self.inner.seccomp_notify_fd()
    }

    /// The same descriptor, read from the running command socket.
    pub fn seccomp_notify_fd_active(&self) -> (r: i32)
        ensures
            r == (if self@.running {
                5i32
            } else {
                -1i32
            }),
    {
        self.inner.seccomp_notify_fd_active()
    }

    /// A pidfd for the running init process, or -1.
    pub fn init_pidfd(&self) -> (r: i32)
        ensures
            r == (if self@.running {
                6i32
            } else {
                -1i32
            }),
    {
        self.inner.init_pidfd()
    }

    /// A mount descriptor for the running container's devpts instance, or
    /// -1.
    pub fn devpts_fd(&self) -> (r: i32)
        ensures
            r == (if self@.running {
                7i32
            } else {
                -1i32
            }),
    {
        self.inner.devpts_fd()
    }
}

} // verus!
