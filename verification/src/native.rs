//! The modeled native container object.
//!
//! The real native library is a black box behind a fixed set of C entry
//! points.  This module gives those entry points a state machine with the
//! same calling conventions: arguments arrive as null-terminated buffers,
//! results come back as booleans, non-negative integers, C strings or
//! null-terminated arrays, value queries follow the two-call size idiom,
//! and every failing call leaves a code/message pair in the object's
//! last-error fields, overwritten by the next failing call.  The wrapper
//! in [`crate::container`] marshals through these entry points exactly as
//! it would through the foreign ones.
//!
//! The model fixes behavior the native documentation leaves to the host
//! system: stores are bounded ([`MAX_ITEMS`], [`MAX_ITEM_LEN`]), names and
//! paths are bounded ([`MAX_NAME_LEN`], [`MAX_PATH_LEN`]), failing calls
//! set errno-flavored codes, and wall-clock data (snapshot timestamps) is
//! replaced by a per-object counter.

use crate::cbuf::{lemma_encode_null_free, to_foreign, CBuf};
use crate::store::{keys_unique, kv_get};
use vstd::prelude::*;
use vstd::utf8::{
    encode_utf8, encode_utf8_valid_utf8, is_ascii_chars, is_ascii_chars_encode_utf8, valid_utf8,
};

verus! {

/// Longest name the modeled factory accepts, in bytes.
pub const MAX_NAME_LEN: usize = 255;

/// Longest path the modeled native side accepts, in bytes.
pub const MAX_PATH_LEN: usize = 3072;

/// Longest key or value a modeled item store accepts, in bytes.
pub const MAX_ITEM_LEN: usize = 4095;

/// Largest number of entries a modeled collection holds.
pub const MAX_ITEMS: usize = 16383;

/// Largest reference count the modeled object carries.
pub const REF_MAX: u64 = 0x7FFF_FFFF;

/// Model error code: no object or value under the requested name.
pub const ERR_NOT_FOUND: i32 = 2;

/// Model error code: the operation needs a running container.
pub const ERR_NOT_RUNNING: i32 = 3;

/// Model error code: the operation needs a frozen container.
pub const ERR_NOT_FROZEN: i32 = 4;

/// Model error code: a modeled native limit was exceeded.
pub const ERR_LIMIT: i32 = 7;

/// Model error code: the operation needs a stopped container.
pub const ERR_BUSY: i32 = 16;

/// Model error code: the container is already created.
pub const ERR_EXISTS: i32 = 17;

/// Model error code: an argument is not acceptable.
pub const ERR_INVALID: i32 = 22;

/// Model error code: the awaited state did not arrive in time.
pub const ERR_TIMEOUT: i32 = 62;

/// One snapshot as the native side records it.
pub struct SnapView {
    pub name: Seq<u8>,
    pub comment: Option<Seq<u8>>,
    pub timestamp: Seq<u8>,
    pub lxcpath: Seq<u8>,
}

/// The native object as the specification sees it: every field a C struct
/// member or a piece of bookkeeping the entry points read and write, plus
/// the three observability counters (`refs`, `releases`, `error_reads`)
/// that pin the release and error-read discipline down.
pub struct State {
    pub name: Seq<u8>,
    pub config_path: Seq<u8>,
    pub config_file: Seq<u8>,
    pub defined: bool,
    pub running: bool,
    pub frozen: bool,
    pub daemonize: bool,
    pub close_all_fds: bool,
    pub init_pid: i32,
    pub timeout: i32,
    pub config: Seq<(Seq<u8>, Seq<u8>)>,
    pub cgroup: Seq<(Seq<u8>, Seq<u8>)>,
    pub interfaces: Seq<Seq<u8>>,
    pub snapshots: Seq<SnapView>,
    pub snap_counter: u64,
    pub error_num: i32,
    pub error_message: Seq<u8>,
    pub refs: u64,
    pub releases: u64,
    pub error_reads: u64,
}

/// Bytes that can sit in a C string and be read back as text: valid UTF-8,
/// no embedded null, bounded.
pub open spec fn text_ok(b: Seq<u8>) -> bool {
    &&& valid_utf8(b)
    &&& !b.contains(0u8)
    &&& b.len() <= MAX_ITEM_LEN
}

/// A well-formed item store: bounded, distinct keys, text throughout.
pub open spec fn store_wf(m: Seq<(Seq<u8>, Seq<u8>)>) -> bool {
    &&& m.len() <= MAX_ITEMS
    &&& keys_unique(m)
    &&& forall|i: int| 0 <= i < m.len() ==> text_ok((#[trigger] m[i]).0) && text_ok(m[i].1)
}

/// A well-formed snapshot record.
pub open spec fn snap_wf(s: SnapView) -> bool {
    &&& text_ok(s.name)
    &&& text_ok(s.timestamp)
    &&& text_ok(s.lxcpath)
    &&& (s.comment matches Some(c) ==> text_ok(c))
}

/// The invariant every reachable native state satisfies.
pub open spec fn state_wf(s: State) -> bool {
    &&& text_ok(s.name) && 1 <= s.name.len() <= MAX_NAME_LEN
    &&& text_ok(s.config_path) && s.config_path.len() <= MAX_PATH_LEN
    &&& text_ok(s.config_file)
    &&& text_ok(s.error_message)
    &&& store_wf(s.config)
    &&& store_wf(s.cgroup)
    &&& s.interfaces.len() <= MAX_ITEMS
    &&& (forall|i: int| 0 <= i < s.interfaces.len() ==> text_ok(#[trigger] s.interfaces[i]))
    &&& s.snapshots.len() <= MAX_ITEMS
    &&& (forall|i: int| 0 <= i < s.snapshots.len() ==> snap_wf(#[trigger] s.snapshots[i]))
    &&& s.snap_counter <= MAX_ITEMS as u64
    &&& s.snapshots.len() <= s.snap_counter
    &&& 1 <= s.refs <= REF_MAX
    &&& (s.running ==> s.init_pid >= 1)
    &&& (!s.running ==> s.init_pid == -1)
    &&& (s.frozen ==> s.running)
}

/// Diagnostic text the model attaches to each error code.
pub open spec fn error_text(num: i32) -> Seq<char> {
    if num == ERR_NOT_FOUND {
        "no such object or value"@
    } else if num == ERR_NOT_RUNNING {
        "the container is not running"@
    } else if num == ERR_NOT_FROZEN {
        "the container is not frozen"@
    } else if num == ERR_LIMIT {
        "a native limit was exceeded"@
    } else if num == ERR_BUSY {
        "the container is running"@
    } else if num == ERR_EXISTS {
        "the container already exists"@
    } else if num == ERR_INVALID {
        "invalid argument"@
    } else if num == ERR_TIMEOUT {
        "timed out waiting for the container"@
    } else {
        "the native call failed"@
    }
}

/// The state after a failing call: the last-error fields carry the call's
/// code and message, everything else stands.
pub open spec fn with_error(s: State, num: i32) -> State {
    State { error_num: num, error_message: encode_utf8(error_text(num)), ..s }
}

/// The state after the last-error fields are read once more.
pub open spec fn after_error_read(s: State) -> State {
    State { error_reads: bump(s.error_reads), ..s }
}

/// What the error projection yields immediately after a failing call.
///
/// Every failing modeled call leaves `with_error(s, num)` with one of the
/// model's codes, and none of those codes is the success value zero; the
/// projection that follows ([`after_error_read`], performed by the
/// wrapper's `last_error`) returns exactly that code and a message that
/// decodes to the code's text, and changes nothing in the state but the
/// read counter.  A succeeding call never touches the error fields — each
/// success contract in [`crate::container`] carries them over unchanged —
/// so nothing obliges the caller of a succeeding call to consult the
/// projection at all.
pub proof fn lemma_error_projection(s: State, num: i32)
    requires
        num == ERR_NOT_FOUND || num == ERR_NOT_RUNNING || num == ERR_NOT_FROZEN || num
            == ERR_LIMIT || num == ERR_BUSY || num == ERR_EXISTS || num == ERR_INVALID || num
            == ERR_TIMEOUT,
    ensures
        num != 0,
        after_error_read(with_error(s, num)).error_num == num,
        after_error_read(with_error(s, num)).error_message == encode_utf8(error_text(num)),
        vstd::utf8::decode_utf8(encode_utf8(error_text(num))) == error_text(num),
        after_error_read(with_error(s, num)) == (State {
            error_num: num,
            error_message: encode_utf8(error_text(num)),
            error_reads: bump(s.error_reads),
            ..s
        }),
{
    vstd::utf8::encode_utf8_decode_utf8(error_text(num));
}

/// A counter bump that cannot overflow.
pub open spec fn bump(n: u64) -> u64 {
    if n < u64::MAX {
        (n + 1) as u64
    } else {
        n
    }
}

/// The state name the native side reports, as its documentation fixes it.
pub open spec fn state_name(s: State) -> Seq<char> {
    if s.frozen {
        "FROZEN"@
    } else if s.running {
        "RUNNING"@
    } else {
        "STOPPED"@
    }
}

/// The byte tail `"/config"` under the container's directory.
pub open spec fn config_tail() -> Seq<u8> {
    seq![47u8, 99u8, 111u8, 110u8, 102u8, 105u8, 103u8]
}

/// Path of the container's configuration file: `<path>/<name>/config`.
pub open spec fn config_file_bytes(path: Seq<u8>, name: Seq<u8>) -> Seq<u8> {
    path + seq![47u8] + name + config_tail()
}

/// The default container directory the model uses when the factory is
/// given no configuration path.
pub open spec fn default_config_path() -> Seq<char> {
    "/var/lib/lxc"@
}

/// What the modeled factory and rename accept as a container name.
pub open spec fn name_ok(b: Seq<u8>) -> bool {
    &&& 1 <= b.len() <= MAX_NAME_LEN
    &&& !b.contains(47u8)
}

/// What the modeled native side accepts as a path.
pub open spec fn path_len_ok(b: Seq<u8>) -> bool {
    1 <= b.len() <= MAX_PATH_LEN
}

/// The encodings of an optional text argument.
pub open spec fn opt_encoded(t: Option<&str>) -> Option<Seq<u8>> {
    match t {
        Some(s) => Some(encode_utf8(s@)),
        None => None,
    }
}

/// The state of a freshly constructed native object.
pub open spec fn fresh_state(name: Seq<u8>, config_path: Option<Seq<u8>>) -> State {
    let path = match config_path {
        Some(p) => p,
        None => encode_utf8(default_config_path()),
    };
    State {
        name: name,
        config_path: path,
        config_file: config_file_bytes(path, name),
        defined: false,
        running: false,
        frozen: false,
        daemonize: false,
        close_all_fds: false,
        init_pid: -1i32,
        timeout: -1i32,
        config: Seq::empty(),
        cgroup: Seq::empty(),
        interfaces: Seq::empty(),
        snapshots: Seq::empty(),
        snap_counter: 0,
        error_num: 0,
        error_message: Seq::empty(),
        refs: 1,
        releases: 0,
        error_reads: 0,
    }
}

/// The modeled native container object.  Fields mirror the C struct's
/// members; methods mirror its function pointers, with the C calling
/// conventions kept.
#[derive(Debug)]
pub struct NativeContainer {
    name: CBuf,
    config_path: CBuf,
    config_file: CBuf,
    defined: bool,
    running: bool,
    frozen: bool,
    daemonize: bool,
    close_all_fds: bool,
    init_pid: i32,
    timeout: i32,
    config: Vec<(CBuf, CBuf)>,
    cgroup: Vec<(CBuf, CBuf)>,
    interfaces: Vec<CBuf>,
    snapshots: Vec<NativeSnapshot>,
    snap_counter: u64,
    error_num: i32,
    error_message: CBuf,
    refs: u64,
    releases: u64,
    error_reads: u64,
}

/// One snapshot record held by the modeled native side.
#[derive(Debug)]
pub struct NativeSnapshot {
    pub name: CBuf,
    pub comment: Option<CBuf>,
    pub timestamp: CBuf,
    pub lxcpath: CBuf,
}

impl View for NativeSnapshot {
    type V = SnapView;

    open spec fn view(&self) -> SnapView {
        SnapView {
            name: self.name@,
            comment: match self.comment {
                Some(c) => Some(c@),
                None => None,
            },
            timestamp: self.timestamp@,
            lxcpath: self.lxcpath@,
        }
    }
}

impl View for NativeContainer {
    type V = State;

    closed spec fn view(&self) -> State {
        State {
            name: self.name@,
            config_path: self.config_path@,
            config_file: self.config_file@,
            defined: self.defined,
            running: self.running,
            frozen: self.frozen,
            daemonize: self.daemonize,
            close_all_fds: self.close_all_fds,
            init_pid: self.init_pid,
            timeout: self.timeout,
            config: crate::store::store_view(self.config@),
            cgroup: crate::store::store_view(self.cgroup@),
            interfaces: self.interfaces@.map(|i: int, c: CBuf| c@),
            snapshots: self.snapshots@.map(|i: int, s: NativeSnapshot| s@),
            snap_counter: self.snap_counter,
            error_num: self.error_num,
            error_message: self.error_message@,
            refs: self.refs,
            releases: self.releases,
            error_reads: self.error_reads,
        }
    }
}

/// What a released handle reports back: the observability counters at the
/// moment the last reference this wrapper held was dropped.
pub struct ReleaseReport {
    pub releases: u64,
    pub error_reads: u64,
    pub refs_left: u64,
}

/// Turns a null-free literal into its foreign buffer.
fn lit_buf(text: &str) -> (c: CBuf)
    requires
        !text@.contains('\0'),
    ensures
        c@ == encode_utf8(text@),
{
    match to_foreign(text) {
        Ok(c) => c,
        Err(_) => vstd::pervasive::unreached(),
    }
}

/// Diagnostic text for the given model error code, with the facts callers
/// need: it is short, ASCII and null-free.
fn error_text_str(num: i32) -> (r: &'static str)
    ensures
        r@ == error_text(num),
        !r@.contains('\0'),
        is_ascii_chars(r@),
        r@.len() <= 64,
{
    proof {
        reveal_strlit("no such object or value");
        reveal_strlit("the container is not running");
        reveal_strlit("the container is not frozen");
        reveal_strlit("a native limit was exceeded");
        reveal_strlit("the container is running");
        reveal_strlit("the container already exists");
        reveal_strlit("invalid argument");
        reveal_strlit("timed out waiting for the container");
        reveal_strlit("the native call failed");
    }
    let r: &'static str = if num == ERR_NOT_FOUND {
        "no such object or value"
    } else if num == ERR_NOT_RUNNING {
        "the container is not running"
    } else if num == ERR_NOT_FROZEN {
        "the container is not frozen"
    } else if num == ERR_LIMIT {
        "a native limit was exceeded"
    } else if num == ERR_BUSY {
        "the container is running"
    } else if num == ERR_EXISTS {
        "the container already exists"
    } else if num == ERR_INVALID {
        "invalid argument"
    } else if num == ERR_TIMEOUT {
        "timed out waiting for the container"
    } else {
        "the native call failed"
    };
    proof {
        assert(forall|i: int| 0 <= i < r@.len() ==> r@[i] != '\0');
        assert(forall|i: int| 0 <= i < r@.len() ==> '\0' <= #[trigger] r@[i] <= '\u{7f}');
    }
    r
}

/// The message buffer for a model error code.
fn message_buf(num: i32) -> (c: CBuf)
    ensures
        c@ == encode_utf8(error_text(num)),
        text_ok(c@),
{
    let t = error_text_str(num);
    let c = lit_buf(t);
    proof {
        lemma_encode_null_free(t@);
        encode_utf8_valid_utf8(t@);
        is_ascii_chars_encode_utf8(t@);
    }
    c
}

/// The record a failing call with the given model code projects to.
pub fn error_record(num: i32) -> (r: crate::error::ErrorRecord)
    ensures
        r.num == num,
        r.message@ == error_text(num),
{
    let c = message_buf(num);
    proof {
        vstd::utf8::encode_utf8_decode_utf8(error_text(num));
    }
    match crate::cbuf::from_foreign(&c) {
        Ok(message) => crate::error::ErrorRecord { num, message },
        Err(_) => vstd::pervasive::unreached(),
    }
}

/// The state name as a literal, with the facts callers need.
fn state_name_str(running: bool, frozen: bool) -> (r: &'static str)
    ensures
        r@ == (if frozen {
            "FROZEN"@
        } else if running {
            "RUNNING"@
        } else {
            "STOPPED"@
        }),
        !r@.contains('\0'),
        is_ascii_chars(r@),
        r@.len() <= 16,
{
    proof {
        reveal_strlit("FROZEN");
        reveal_strlit("RUNNING");
        reveal_strlit("STOPPED");
    }
    let r: &'static str = if frozen {
        "FROZEN"
    } else if running {
        "RUNNING"
    } else {
        "STOPPED"
    };
    proof {
        assert(forall|i: int| 0 <= i < r@.len() ==> r@[i] != '\0');
        assert(forall|i: int| 0 <= i < r@.len() ==> '\0' <= #[trigger] r@[i] <= '\u{7f}');
    }
    r
}

/// Builds `<path>/<name>/config` from content that is known null-free.
fn config_file_for(path: &CBuf, name: &CBuf) -> (c: CBuf)
    requires
        !path@.contains(0u8),
        !name@.contains(0u8),
    ensures
        c@ == config_file_bytes(path@, name@),
{
    let mut b: Vec<u8> = Vec::new();
    path.append_content_to(&mut b);
    b.push(47u8);
    name.append_content_to(&mut b);
    b.push(47u8);
    b.push(99u8);
    b.push(111u8);
    b.push(110u8);
    b.push(102u8);
    b.push(105u8);
    b.push(103u8);
    proof {
        assert(b@ =~= config_file_bytes(path@, name@));
        assert(!b@.contains(0u8)) by {
            if b@.contains(0u8) {
                let k = choose|k: int| 0 <= k < b@.len() && b@[k] == 0u8;
                let p = path@.len() as int;
                let q = name@.len() as int;
                if k < p {
                    assert(path@[k] == 0u8);
                    assert(path@.contains(0u8));
                } else if k == p {
                } else if k < p + 1 + q {
                    assert(name@[k - p - 1] == 0u8);
                    assert(name@.contains(0u8));
                }
            }
        }
    }
    match CBuf::from_content(b) {
        Some(c) => c,
        None => vstd::pervasive::unreached(),
    }
}

/// `"/config"` really is the encoding of that text, hence valid UTF-8 and
/// null-free.
proof fn lemma_config_tail()
    ensures
        config_tail() == encode_utf8("/config"@),
        valid_utf8(config_tail()),
        !config_tail().contains(0u8),
{
    reveal_strlit("/config");
    assert(forall|i: int| 0 <= i < "/config"@.len() ==> '\0' <= #[trigger] "/config"@[i]
        <= '\u{7f}');
    is_ascii_chars_encode_utf8("/config"@);
    assert(config_tail() =~= encode_utf8("/config"@));
    encode_utf8_valid_utf8("/config"@);
    assert(!config_tail().contains(0u8)) by {
        if config_tail().contains(0u8) {
            let k = choose|k: int| 0 <= k < config_tail().len() && config_tail()[k] == 0u8;
        }
    }
}

/// The configuration file path stays text when its pieces are.
proof fn lemma_config_file_text_ok(path: Seq<u8>, name: Seq<u8>)
    requires
        valid_utf8(path),
        !path.contains(0u8),
        path.len() <= MAX_PATH_LEN,
        valid_utf8(name),
        !name.contains(0u8),
        name.len() <= MAX_NAME_LEN,
    ensures
        text_ok(config_file_bytes(path, name)),
{
    let b = config_file_bytes(path, name);
    lemma_config_tail();
    assert(seq![47u8] == encode_utf8("/"@) && valid_utf8(seq![47u8])) by {
        reveal_strlit("/");
        assert(forall|i: int| 0 <= i < "/"@.len() ==> '\0' <= #[trigger] "/"@[i] <= '\u{7f}');
        is_ascii_chars_encode_utf8("/"@);
        assert(seq![47u8] =~= encode_utf8("/"@));
        encode_utf8_valid_utf8("/"@);
    }
    assert(valid_utf8(b)) by {
        broadcast use vstd::utf8::valid_utf8_concat;

        assert(valid_utf8(path + seq![47u8]));
        assert(valid_utf8((path + seq![47u8]) + name));
        assert(b =~= ((path + seq![47u8]) + name) + config_tail());
    }
    assert(!b.contains(0u8)) by {
        if b.contains(0u8) {
            let k = choose|k: int| 0 <= k < b.len() && b[k] == 0u8;
            let p = path.len() as int;
            let q = name.len() as int;
            if k < p {
                assert(path[k] == 0u8);
                assert(path.contains(0u8));
            } else if k == p {
            } else if k < p + 1 + q {
                assert(name[k - p - 1] == 0u8);
                assert(name.contains(0u8));
            } else {
                assert(config_tail()[k - p - 1 - q] == 0u8);
                assert(config_tail().contains(0u8));
            }
        }
    }
    assert(b.len() <= MAX_ITEM_LEN);
}

impl NativeContainer {
    /// The invariant of every reachable native object.
    pub open spec fn wf(&self) -> bool {
        state_wf(self@)
    }

    /// Modeled factory call: returns the fresh object, or nothing (the null
    /// handle) when the name or path breaks the model's rules: an empty or
    /// overlong name, a slash in the name, an overlong path.
    pub fn new(name: &CBuf, config_path: Option<&CBuf>) -> (r: Option<NativeContainer>)
        requires
            valid_utf8(name@),
            !name@.contains(0u8),
            (config_path matches Some(p) ==> valid_utf8(p@) && !p@.contains(0u8)),
        ensures
            r is Some <==> {
                &&& 1 <= name@.len() <= MAX_NAME_LEN
                &&& !name@.contains(47u8)
                &&& (config_path matches Some(p) ==> 1 <= p@.len() <= MAX_PATH_LEN)
            },
            (r matches Some(c) ==> c.wf() && c@ == fresh_state(name@, opt_bytes(config_path))),
    {
        let name_len = name.len();
        if name_len == 0 || name_len > MAX_NAME_LEN || name.contains_byte(47u8) {
            return None;
        }
        let path: CBuf = match config_path {
            Some(p) => {
                let plen = p.len();
                if plen == 0 || plen > MAX_PATH_LEN {
                    return None;
                }
                p.clone()
            },
            None => {
                proof {
                    reveal_strlit("/var/lib/lxc");
                    assert(forall|i: int| 0 <= i < "/var/lib/lxc"@.len() ==> "/var/lib/lxc"@[i]
                        != '\0');
                }
                lit_buf("/var/lib/lxc")
            },
        };
        proof {
            reveal_strlit("/var/lib/lxc");
            assert(forall|i: int|
                0 <= i < "/var/lib/lxc"@.len() ==> '\0' <= #[trigger] "/var/lib/lxc"@[i]
                    <= '\u{7f}');
            is_ascii_chars_encode_utf8(default_config_path());
            encode_utf8_valid_utf8(default_config_path());
            lemma_encode_null_free(default_config_path());
            lemma_config_file_text_ok(path@, name@);
        }
        let config_file = config_file_for(&path, name);
        let c = NativeContainer {
            name: name.clone(),
            config_path: path,
            config_file,
            defined: false,
            running: false,
            frozen: false,
            daemonize: false,
            close_all_fds: false,
            init_pid: -1i32,
            timeout: -1i32,
            config: Vec::new(),
            cgroup: Vec::new(),
            interfaces: Vec::new(),
            snapshots: Vec::new(),
            snap_counter: 0,
            error_num: 0,
            error_message: CBuf::empty(),
            refs: 1,
            releases: 0,
            error_reads: 0,
        };
        proof {
            assert(c@.config =~= Seq::<(Seq<u8>, Seq<u8>)>::empty());
            assert(c@.cgroup =~= Seq::<(Seq<u8>, Seq<u8>)>::empty());
            assert(c@.interfaces =~= Seq::<Seq<u8>>::empty());
            assert(c@.snapshots =~= Seq::<SnapView>::empty());
            assert(c@.error_message =~= Seq::<u8>::empty());
            assert(valid_utf8(Seq::<u8>::empty()));
        }
        Some(c)
    }

    /// Sets the last-error fields, as every failing modeled call does.
    fn set_error(&mut self, num: i32)
        requires
            old(self).wf(),
        ensures
            final(self).wf(),
            final(self)@ == with_error(old(self)@, num),
    {
        self.error_num = num;
        self.error_message = message_buf(num);
    }

    /// Modeled read of the last-error fields, counted by the observability
    /// counter: code and message as one projection.
    pub fn last_error_read(&mut self) -> (r: (i32, CBuf))
        requires
            old(self).wf(),
        ensures
            final(self).wf(),
            final(self)@ == after_error_read(old(self)@),
            r.0 == old(self)@.error_num,
            r.1@ == old(self)@.error_message,
    {
        if self.error_reads < u64::MAX {
            self.error_reads = self.error_reads + 1;
        }
        (self.error_num, self.error_message.clone())
    }

    /// Plain read of the error code field.
    pub fn error_num(&self) -> (r: i32)
        ensures
            r == self@.error_num,
    {
        self.error_num
    }

    /// Plain read of the error message field.
    pub fn error_string(&self) -> (r: CBuf)
        ensures
            r@ == self@.error_message,
    {
        self.error_message.clone()
    }

    /// Whether the container is created on the modeled host.
    pub fn is_defined(&self) -> (r: bool)
        ensures
            r == self@.defined,
    {
        self.defined
    }

    /// Whether the container's init process runs.
    pub fn is_running(&self) -> (r: bool)
        ensures
            r == self@.running,
    {
        self.running
    }

    /// Whether the container wishes to be daemonized.
    pub fn daemonize(&self) -> (r: bool)
        ensures
            r == self@.daemonize,
    {
        self.daemonize
    }

    /// C string of the configuration path member.
    pub fn config_path(&self) -> (r: CBuf)
        ensures
            r@ == self@.config_path,
    {
        self.config_path.clone()
    }

    /// C string of the configuration file member.
    pub fn config_file_name(&self) -> (r: CBuf)
        ensures
            r@ == self@.config_file,
    {
        self.config_file.clone()
    }

    /// C string naming the current state, as the documentation fixes the
    /// names.
    pub fn state(&self) -> (r: CBuf)
        ensures
            r@ == encode_utf8(state_name(self@)),
    {
        lit_buf(state_name_str(self.running, self.frozen))
    }

    /// Process ID of the init process: a real ID only while running.
    pub fn init_pid(&self) -> (r: i32)
        requires
            self.wf(),
        ensures
            r == self@.init_pid,
            self@.running ==> r >= 1,
            !self@.running ==> r == -1,
    {
        self.init_pid
    }

    /// Modeled boolean call: freeze the running container.
    pub fn freeze(&mut self) -> (r: bool)
        requires
            old(self).wf(),
        ensures
            final(self).wf(),
            r == (old(self)@.running && !old(self)@.frozen),
            r ==> final(self)@ == (State { frozen: true, ..old(self)@ }),
            !r ==> final(self)@ == with_error(old(self)@, ERR_NOT_RUNNING),
    {
        if self.running && !self.frozen {
            self.frozen = true;
            true
        } else {
            self.set_error(ERR_NOT_RUNNING);
            false
        }
    }

    /// Modeled boolean call: thaw the frozen container.
    pub fn unfreeze(&mut self) -> (r: bool)
        requires
            old(self).wf(),
        ensures
            final(self).wf(),
            r == old(self)@.frozen,
            r ==> final(self)@ == (State { frozen: false, ..old(self)@ }),
            !r ==> final(self)@ == with_error(old(self)@, ERR_NOT_FROZEN),
    {
        if self.frozen {
            self.frozen = false;
            true
        } else {
            self.set_error(ERR_NOT_FROZEN);
            false
        }
    }

    /// Modeled boolean call: start the created container's init process.
    /// The argument vector is handed to init and does not change the
    /// observable model state.
    pub fn start(&mut self, use_init: bool, argv: Option<&crate::argv::Nta>) -> (r: bool)
        requires
            old(self).wf(),
            (argv matches Some(a) ==> crate::argv::terminated(a@)),
        ensures
            final(self).wf(),
            r == (old(self)@.defined && !old(self)@.running),
            r ==> final(self)@ == (State {
                running: true,
                frozen: false,
                init_pid: 1,
                ..old(self)@
            }),
            !r && !old(self)@.defined ==> final(self)@ == with_error(old(self)@, ERR_NOT_FOUND),
            !r && old(self)@.defined ==> final(self)@ == with_error(old(self)@, ERR_BUSY),
    {
        if !self.defined {
            self.set_error(ERR_NOT_FOUND);
            false
        } else if self.running {
            self.set_error(ERR_BUSY);
            false
        } else {
            self.running = true;
            self.frozen = false;
            self.init_pid = 1;
            true
        }
    }

    /// Modeled boolean call: stop the running container.
    pub fn stop(&mut self) -> (r: bool)
        requires
            old(self).wf(),
        ensures
            final(self).wf(),
            r == old(self)@.running,
            r ==> final(self)@ == (State {
                running: false,
                frozen: false,
                init_pid: -1i32,
                ..old(self)@
            }),
            !r ==> final(self)@ == with_error(old(self)@, ERR_NOT_RUNNING),
    {
        if self.running {
            self.running = false;
            self.frozen = false;
            self.init_pid = -1;
            true
        } else {
            self.set_error(ERR_NOT_RUNNING);
            false
        }
    }

    /// Modeled boolean call: record the daemonize wish.
    pub fn want_daemonize(&mut self, state: bool) -> (r: bool)
        requires
            old(self).wf(),
        ensures
            final(self).wf(),
            r == true,
            final(self)@ == (State { daemonize: state, ..old(self)@ }),
    {
        self.daemonize = state;
        true
    }

    /// Modeled boolean call: record the wish to close inherited descriptors.
    pub fn want_close_all_fds(&mut self, state: bool) -> (r: bool)
        requires
            old(self).wf(),
        ensures
            final(self).wf(),
            r == true,
            final(self)@ == (State { close_all_fds: state, ..old(self)@ }),
    {
        self.close_all_fds = state;
        true
    }

    /// Modeled boolean call: wait until the container reaches the named
    /// state.  The model's containers change state only under this
    /// wrapper's own calls, so the wait succeeds exactly when the state
    /// already holds, and otherwise reports a timeout.
    pub fn wait(&mut self, state: &CBuf, timeout: i32) -> (r: bool)
        requires
            old(self).wf(),
        ensures
            final(self).wf(),
            r == (state@ == encode_utf8(state_name(old(self)@))),
            r ==> final(self)@ == old(self)@,
            !r ==> final(self)@ == with_error(old(self)@, ERR_TIMEOUT),
    {
        let current = self.state();
        if state.content_eq(&current) {
            true
        } else {
            self.set_error(ERR_TIMEOUT);
            false
        }
    }

    /// Modeled boolean call: ask the running container to reboot.
    pub fn reboot(&mut self) -> (r: bool)
        requires
            old(self).wf(),
        ensures
            final(self).wf(),
            r == old(self)@.running,
            r ==> final(self)@ == old(self)@,
            !r ==> final(self)@ == with_error(old(self)@, ERR_NOT_RUNNING),
    {
        if self.running {
            true
        } else {
            self.set_error(ERR_NOT_RUNNING);
            false
        }
    }

    /// Modeled boolean call: reboot with a timeout.
    pub fn reboot2(&mut self, timeout: i32) -> (r: bool)
        requires
            old(self).wf(),
        ensures
            final(self).wf(),
            r == old(self)@.running,
            r ==> final(self)@ == old(self)@,
            !r ==> final(self)@ == with_error(old(self)@, ERR_NOT_RUNNING),
    {
        if self.running {
            true
        } else {
            self.set_error(ERR_NOT_RUNNING);
            false
        }
    }

    /// Modeled boolean call: ask the running container to shut down.
    pub fn shutdown(&mut self, timeout: i32) -> (r: bool)
        requires
            old(self).wf(),
        ensures
            final(self).wf(),
            r == old(self)@.running,
            r ==> final(self)@ == (State {
                running: false,
                frozen: false,
                init_pid: -1i32,
                ..old(self)@
            }),
            !r ==> final(self)@ == with_error(old(self)@, ERR_NOT_RUNNING),
    {
        if self.running {
            self.running = false;
            self.frozen = false;
            self.init_pid = -1;
            true
        } else {
            self.set_error(ERR_NOT_RUNNING);
            false
        }
    }

    /// Modeled boolean call: set the command response timeout; any value
    /// from -1 upward is acceptable.
    pub fn set_timeout(&mut self, timeout: i32) -> (r: bool)
        requires
            old(self).wf(),
        ensures
            final(self).wf(),
            r == (timeout >= -1),
            r ==> final(self)@ == (State { timeout: timeout, ..old(self)@ }),
            !r ==> final(self)@ == with_error(old(self)@, ERR_INVALID),
    {
        if timeout >= -1 {
            self.timeout = timeout;
            true
        } else {
            self.set_error(ERR_INVALID);
            false
        }
    }

    /// Whether the caller may control the container: in the model, the
    /// owner of the object always may.
    pub fn may_control(&self) -> (r: bool)
        ensures
            r == true,
    {
        true
    }

    /// Modeled boolean call: create the container on the host.  The
    /// template, flags and template arguments select what gets built and do
    /// not change the observable model state.
    pub fn create(
        &mut self,
        template: Option<&CBuf>,
        bdevtype: Option<&CBuf>,
        flags: i32,
        argv: Option<&crate::argv::Nta>,
    ) -> (r: bool)
        requires
            old(self).wf(),
            (argv matches Some(a) ==> crate::argv::terminated(a@)),
        ensures
            final(self).wf(),
            r == (!old(self)@.defined && !old(self)@.running),
            r ==> final(self)@ == (State { defined: true, ..old(self)@ }),
            !r && old(self)@.running ==> final(self)@ == with_error(old(self)@, ERR_BUSY),
            !r && !old(self)@.running ==> final(self)@ == with_error(old(self)@, ERR_EXISTS),
    {
        if self.running {
            self.set_error(ERR_BUSY);
            false
        } else if self.defined {
            self.set_error(ERR_EXISTS);
            false
        } else {
            self.defined = true;
            true
        }
    }

    /// Modeled boolean call: delete the stopped container from the host.
    pub fn destroy(&mut self) -> (r: bool)
        requires
            old(self).wf(),
        ensures
            final(self).wf(),
            r == (old(self)@.defined && !old(self)@.running),
            r ==> final(self)@ == (State { defined: false, ..old(self)@ }),
            !r && old(self)@.running ==> final(self)@ == with_error(old(self)@, ERR_BUSY),
            !r && !old(self)@.running ==> final(self)@ == with_error(old(self)@, ERR_NOT_FOUND),
    {
        if self.running {
            self.set_error(ERR_BUSY);
            false
        } else if !self.defined {
            self.set_error(ERR_NOT_FOUND);
            false
        } else {
            self.defined = false;
            true
        }
    }

    /// Modeled boolean call: rename the stopped container.
    pub fn rename(&mut self, newname: &CBuf) -> (r: bool)
        requires
            old(self).wf(),
            valid_utf8(newname@),
            !newname@.contains(0u8),
        ensures
            final(self).wf(),
            r == (old(self)@.defined && !old(self)@.running && 1 <= newname@.len()
                <= MAX_NAME_LEN && !newname@.contains(47u8)),
            r ==> final(self)@ == (State {
                name: newname@,
                config_file: config_file_bytes(old(self)@.config_path, newname@),
                ..old(self)@
            }),
            !r ==> final(self)@ == with_error(
                old(self)@,
                if old(self)@.running {
                    ERR_BUSY
                } else if !old(self)@.defined {
                    ERR_NOT_FOUND
                } else {
                    ERR_INVALID
                },
            ),
    {
        if self.running {
            self.set_error(ERR_BUSY);
            return false;
        }
        if !self.defined {
            self.set_error(ERR_NOT_FOUND);
            return false;
        }
        let nlen = newname.len();
        if nlen == 0 || nlen > MAX_NAME_LEN || newname.contains_byte(47u8) {
            self.set_error(ERR_INVALID);
            return false;
        }
        proof {
            lemma_config_file_text_ok(self@.config_path, newname@);
        }
        self.config_file = config_file_for(&self.config_path, newname);
        self.name = newname.clone();
        true
    }

    /// Modeled boolean call: load the given configuration file into the
    /// object; the model records the file as current.
    pub fn load_config(&mut self, alt_file: &CBuf) -> (r: bool)
        requires
            old(self).wf(),
            valid_utf8(alt_file@),
            !alt_file@.contains(0u8),
        ensures
            final(self).wf(),
            r == (1 <= alt_file@.len() <= MAX_PATH_LEN),
            r ==> final(self)@ == (State { config_file: alt_file@, ..old(self)@ }),
            !r ==> final(self)@ == with_error(old(self)@, ERR_INVALID),
    {
        let alen = alt_file.len();
        if alen == 0 || alen > MAX_PATH_LEN {
            self.set_error(ERR_INVALID);
            return false;
        }
        self.config_file = alt_file.clone();
        true
    }

    /// Modeled boolean call: write the configuration out to the given file.
    /// Writing leaves the object unchanged; the model only checks the path.
    pub fn save_config(&mut self, alt_file: &CBuf) -> (r: bool)
        requires
            old(self).wf(),
        ensures
            final(self).wf(),
            r == (1 <= alt_file@.len() <= MAX_PATH_LEN),
            r ==> final(self)@ == old(self)@,
            !r ==> final(self)@ == with_error(old(self)@, ERR_INVALID),
    {
        let alen = alt_file.len();
        if alen == 0 || alen > MAX_PATH_LEN {
            self.set_error(ERR_INVALID);
            return false;
        }
        true
    }

    /// Modeled reference increment.
    pub fn get_ref(&mut self) -> (r: bool)
        requires
            old(self).wf(),
        ensures
            final(self).wf(),
            r == (old(self)@.refs < REF_MAX),
            r ==> final(self)@ == (State { refs: (old(self)@.refs + 1) as u64, ..old(self)@ }),
            !r ==> final(self)@ == with_error(old(self)@, ERR_LIMIT),
    {
        if self.refs < REF_MAX {
            self.refs = self.refs + 1;
            true
        } else {
            self.set_error(ERR_LIMIT);
            false
        }
    }

    /// Modeled release: drops the one reference this wrapper holds and
    /// reports the observability counters.  Consumes the object, so no call
    /// can follow it.
    pub fn put_ref(self) -> (r: ReleaseReport)
        requires
            self.wf(),
        ensures
            r.releases == bump(self@.releases),
            r.error_reads == self@.error_reads,
            r.refs_left == (self@.refs - 1) as u64,
    {
        ReleaseReport {
            releases: if self.releases < u64::MAX {
                self.releases + 1
            } else {
                self.releases
            },
            error_reads: self.error_reads,
            refs_left: self.refs - 1,
        }
    }
}

impl NativeContainer {
    /// Modeled boolean call: set a configuration item.  Oversize keys or
    /// values are rejected, as is a new key once the bounded store is full.
    pub fn set_config_item(&mut self, key: &CBuf, value: &CBuf) -> (r: bool)
        requires
            old(self).wf(),
            valid_utf8(key@),
            !key@.contains(0u8),
            valid_utf8(value@),
            !value@.contains(0u8),
        ensures
            final(self).wf(),
            r == (1 <= key@.len() <= MAX_ITEM_LEN && value@.len() <= MAX_ITEM_LEN && (kv_get(
                old(self)@.config,
                key@,
            ) is Some || old(self)@.config.len() < MAX_ITEMS)),
            r ==> {
                &&& final(self)@ == (State { config: final(self)@.config, ..old(self)@ })
                &&& kv_get(final(self)@.config, key@) == Some(value@)
                &&& (forall|k2: Seq<u8>|
                    k2 != key@ ==> #[trigger] kv_get(final(self)@.config, k2) == kv_get(
                        old(self)@.config,
                        k2,
                    ))
            },
            !r && !(1 <= key@.len() <= MAX_ITEM_LEN && value@.len() <= MAX_ITEM_LEN)
                ==> final(self)@ == with_error(old(self)@, ERR_INVALID),
            !r && (1 <= key@.len() <= MAX_ITEM_LEN && value@.len() <= MAX_ITEM_LEN)
                ==> final(self)@ == with_error(old(self)@, ERR_LIMIT),
    {
        let klen = key.len();
        let vlen = value.len();
        if klen == 0 || klen > MAX_ITEM_LEN || vlen > MAX_ITEM_LEN {
            self.set_error(ERR_INVALID);
            return false;
        }
        let ghost sv = crate::store::store_view(self.config@);
        match crate::store::kv_find(&self.config, key) {
            Some(i) => {
                proof {
                    crate::store::lemma_kv_update(sv, i as int, key@, value@);
                }
                self.config.set(i, (key.clone(), value.clone()));
                proof {
                    assert(crate::store::store_view(self.config@) =~= sv.update(
                        i as int,
                        (key@, value@),
                    ));
                    assert(keys_unique(sv.update(i as int, (key@, value@)))) by {
                        let s2 = sv.update(i as int, (key@, value@));
                        assert forall|a: int, b: int| 0 <= a < b < s2.len() implies s2[a].0
                            != s2[b].0 by {
                            assert(sv[a].0 != sv[b].0);
                            assert(s2[a].0 == sv[a].0 && s2[b].0 == sv[b].0) by {
                                assert(sv[i as int].0 == key@);
                            }
                        }
                    }
                }
                true
            },
            None => {
                if self.config.len() >= MAX_ITEMS {
                    self.set_error(ERR_LIMIT);
                    return false;
                }
                proof {
                    crate::store::lemma_kv_push(sv, key@, value@);
                }
                self.config.push((key.clone(), value.clone()));
                proof {
                    assert(crate::store::store_view(self.config@) =~= sv.push((key@, value@)));
                }
                true
            },
        }
    }

    /// Modeled two-call query on the configuration store: the first call,
    /// with no buffer, learns the needed size, or -1 when the key misses;
    /// the second call, with capacity for value and terminator, receives
    /// the bytes.  A buffer too small for both receives nothing.
    pub fn get_config_item(&self, key: &CBuf, cap: usize) -> (r: (i32, Vec<u8>))
        requires
            self.wf(),
        ensures
            kv_get(self@.config, key@) is None ==> r.0 == -1 && r.1@.len() == 0,
            (kv_get(self@.config, key@) matches Some(v) ==> {
                &&& r.0 == v.len()
                &&& (cap >= v.len() + 1 ==> r.1@ == v + seq![0u8])
                &&& (cap < v.len() + 1 ==> r.1@.len() == 0)
            }),
    {
        match crate::store::kv_find(&self.config, key) {
            None => (-1, Vec::new()),
            Some(i) => {
                proof {
                    assert(text_ok(self@.config[i as int].1));
                }
                let value = &self.config[i].1;
                let vlen = value.len();
                if cap >= vlen + 1 {
                    (vlen as i32, value.raw_bytes())
                } else {
                    (vlen as i32, Vec::new())
                }
            },
        }
    }

    /// Modeled two-call listing of the configuration keys under a prefix:
    /// size first, newline-joined bytes second, the same idiom as the value
    /// query.
    pub fn get_keys(&self, prefix: &CBuf, cap: usize) -> (r: (i32, Vec<u8>))
        requires
            self.wf(),
        ensures
            ({
                let joined = crate::store::keys_with_prefix(self@.config, prefix@);
                &&& r.0 == joined.len()
                &&& (cap >= joined.len() + 1 ==> r.1@ == joined + seq![0u8])
                &&& (cap < joined.len() + 1 ==> r.1@.len() == 0)
            }),
    {
        proof {
            crate::store::lemma_keys_with_prefix_len(self@.config, prefix@, MAX_ITEM_LEN as int);
            assert(self@.config.len() * (MAX_ITEM_LEN + 1) <= MAX_ITEMS * (MAX_ITEM_LEN + 1))
                by (nonlinear_arith)
                requires
                    0 <= self@.config.len() <= MAX_ITEMS,
            ;
        }
        let mut joined = crate::store::collect_keys(&self.config, prefix);
        let jlen = joined.len();
        if cap >= jlen + 1 {
            joined.push(0u8);
            (jlen as i32, joined)
        } else {
            (jlen as i32, Vec::new())
        }
    }

    /// Modeled C string call: the value of a configuration item on the
    /// running container, or the null pointer (with the error fields set)
    /// when the container is stopped or the key misses.
    pub fn get_running_config_item(&mut self, key: &CBuf) -> (r: Option<CBuf>)
        requires
            old(self).wf(),
        ensures
            final(self).wf(),
            r is Some <==> (old(self)@.running && kv_get(old(self)@.config, key@) is Some),
            (r matches Some(c) ==> kv_get(old(self)@.config, key@) == Some(c@)),
            r is Some ==> final(self)@ == old(self)@,
            r is None && !old(self)@.running ==> final(self)@ == with_error(
                old(self)@,
                ERR_NOT_RUNNING,
            ),
            r is None && old(self)@.running ==> final(self)@ == with_error(
                old(self)@,
                ERR_NOT_FOUND,
            ),
    {
        if !self.running {
            self.set_error(ERR_NOT_RUNNING);
            return None;
        }
        match crate::store::kv_find(&self.config, key) {
            Some(i) => Some(self.config[i].1.clone()),
            None => {
                self.set_error(ERR_NOT_FOUND);
                None
            },
        }
    }

    /// Modeled void call: drop the whole in-memory configuration.
    pub fn clear_config(&mut self)
        requires
            old(self).wf(),
        ensures
            final(self).wf(),
            final(self)@ == (State { config: Seq::empty(), ..old(self)@ }),
    {
        self.config = Vec::new();
        proof {
            assert(crate::store::store_view(self.config@) =~= Seq::<(Seq<u8>, Seq<u8>)>::empty());
        }
    }

    /// Modeled boolean call: clear one configuration item; fails when no
    /// item carries the key.
    pub fn clear_config_item(&mut self, key: &CBuf) -> (r: bool)
        requires
            old(self).wf(),
        ensures
            final(self).wf(),
            r == (kv_get(old(self)@.config, key@) is Some),
            r ==> {
                &&& final(self)@ == (State { config: final(self)@.config, ..old(self)@ })
                &&& kv_get(final(self)@.config, key@) is None
                &&& (forall|k2: Seq<u8>|
                    k2 != key@ ==> #[trigger] kv_get(final(self)@.config, k2) == kv_get(
                        old(self)@.config,
                        k2,
                    ))
                &&& final(self)@.config.len() == old(self)@.config.len() - 1
            },
            !r ==> final(self)@ == with_error(old(self)@, ERR_NOT_FOUND),
    {
        let ghost sv = crate::store::store_view(self.config@);
        match crate::store::kv_find(&self.config, key) {
            Some(i) => {
                proof {
                    crate::store::lemma_kv_remove(sv, i as int, key@);
                }
                self.config.remove(i);
                proof {
                    assert(crate::store::store_view(self.config@) =~= sv.remove(i as int));
                }
                true
            },
            None => {
                self.set_error(ERR_NOT_FOUND);
                false
            },
        }
    }

    /// Modeled boolean call: set a cgroup item; the cgroup exists only
    /// while the container runs.
    pub fn set_cgroup_item(&mut self, subsys: &CBuf, value: &CBuf) -> (r: bool)
        requires
            old(self).wf(),
            valid_utf8(subsys@),
            !subsys@.contains(0u8),
            valid_utf8(value@),
            !value@.contains(0u8),
        ensures
            final(self).wf(),
            r == (old(self)@.running && 1 <= subsys@.len() <= MAX_ITEM_LEN && value@.len()
                <= MAX_ITEM_LEN && (kv_get(old(self)@.cgroup, subsys@) is Some || old(
                self,
            )@.cgroup.len() < MAX_ITEMS)),
            r ==> {
                &&& final(self)@ == (State { cgroup: final(self)@.cgroup, ..old(self)@ })
                &&& kv_get(final(self)@.cgroup, subsys@) == Some(value@)
                &&& (forall|k2: Seq<u8>|
                    k2 != subsys@ ==> #[trigger] kv_get(final(self)@.cgroup, k2) == kv_get(
                        old(self)@.cgroup,
                        k2,
                    ))
            },
            !r && !old(self)@.running ==> final(self)@ == with_error(old(self)@, ERR_NOT_RUNNING),
            !r && old(self)@.running && !(1 <= subsys@.len() <= MAX_ITEM_LEN && value@.len()
                <= MAX_ITEM_LEN) ==> final(self)@ == with_error(old(self)@, ERR_INVALID),
            !r && old(self)@.running && (1 <= subsys@.len() <= MAX_ITEM_LEN && value@.len()
                <= MAX_ITEM_LEN) ==> final(self)@ == with_error(old(self)@, ERR_LIMIT),
    {
        if !self.running {
            self.set_error(ERR_NOT_RUNNING);
            return false;
        }
        let klen = subsys.len();
        let vlen = value.len();
        if klen == 0 || klen > MAX_ITEM_LEN || vlen > MAX_ITEM_LEN {
            self.set_error(ERR_INVALID);
            return false;
        }
        let ghost sv = crate::store::store_view(self.cgroup@);
        match crate::store::kv_find(&self.cgroup, subsys) {
            Some(i) => {
                proof {
                    crate::store::lemma_kv_update(sv, i as int, subsys@, value@);
                }
                self.cgroup.set(i, (subsys.clone(), value.clone()));
                proof {
                    assert(crate::store::store_view(self.cgroup@) =~= sv.update(
                        i as int,
                        (subsys@, value@),
                    ));
                    assert(keys_unique(sv.update(i as int, (subsys@, value@)))) by {
                        let s2 = sv.update(i as int, (subsys@, value@));
                        assert forall|a: int, b: int| 0 <= a < b < s2.len() implies s2[a].0
                            != s2[b].0 by {
                            assert(sv[a].0 != sv[b].0);
                            assert(s2[a].0 == sv[a].0 && s2[b].0 == sv[b].0) by {
                                assert(sv[i as int].0 == subsys@);
                            }
                        }
                    }
                }
                true
            },
            None => {
                if self.cgroup.len() >= MAX_ITEMS {
                    self.set_error(ERR_LIMIT);
                    return false;
                }
                proof {
                    crate::store::lemma_kv_push(sv, subsys@, value@);
                }
                self.cgroup.push((subsys.clone(), value.clone()));
                proof {
                    assert(crate::store::store_view(self.cgroup@) =~= sv.push((subsys@, value@)));
                }
                true
            },
        }
    }

    /// Modeled two-call query on the cgroup store: as the configuration
    /// query, except that a stopped container has no cgroup, so every key
    /// misses.
    pub fn get_cgroup_item(&self, subsys: &CBuf, cap: usize) -> (r: (i32, Vec<u8>))
        requires
            self.wf(),
        ensures
            !self@.running ==> r.0 == -1 && r.1@.len() == 0,
            self@.running && kv_get(self@.cgroup, subsys@) is None ==> r.0 == -1 && r.1@.len()
                == 0,
            self@.running ==> (kv_get(self@.cgroup, subsys@) matches Some(v) ==> {
                &&& r.0 == v.len()
                &&& (cap >= v.len() + 1 ==> r.1@ == v + seq![0u8])
                &&& (cap < v.len() + 1 ==> r.1@.len() == 0)
            }),
    {
        if !self.running {
            return (-1, Vec::new());
        }
        match crate::store::kv_find(&self.cgroup, subsys) {
            None => (-1, Vec::new()),
            Some(i) => {
                proof {
                    assert(text_ok(self@.cgroup[i as int].1));
                }
                let value = &self.cgroup[i].1;
                let vlen = value.len();
                if cap >= vlen + 1 {
                    (vlen as i32, value.raw_bytes())
                } else {
                    (vlen as i32, Vec::new())
                }
            },
        }
    }

    /// Modeled boolean call: set the configuration path member.
    pub fn set_config_path(&mut self, path: &CBuf) -> (r: bool)
        requires
            old(self).wf(),
            valid_utf8(path@),
            !path@.contains(0u8),
        ensures
            final(self).wf(),
            r == (1 <= path@.len() <= MAX_PATH_LEN),
            r ==> final(self)@ == (State { config_path: path@, ..old(self)@ }),
            !r ==> final(self)@ == with_error(old(self)@, ERR_INVALID),
    {
        let plen = path.len();
        if plen == 0 || plen > MAX_PATH_LEN {
            self.set_error(ERR_INVALID);
            return false;
        }
        self.config_path = path.clone();
        true
    }
}

/// Decimal digits of `n`, most significant first, as ASCII bytes.
pub open spec fn dec_digits(n: u64) -> Seq<u8>
    decreases n,
{
    if n < 10 {
        seq![(48 + n) as u8]
    } else {
        dec_digits(n / 10).push((48 + n % 10) as u8)
    }
}

/// Powers of ten, for the digit-count bound.
pub open spec fn pow10(k: int) -> int
    decreases k,
{
    if k <= 0 {
        1
    } else {
        10 * pow10(k - 1)
    }
}

/// The digits are ASCII text: nonempty, in `'0'..='9'`, valid UTF-8 and
/// free of null bytes.
pub proof fn lemma_dec_digits(n: u64)
    ensures
        1 <= dec_digits(n).len(),
        forall|i: int| 0 <= i < dec_digits(n).len() ==> 48 <= #[trigger] dec_digits(n)[i] <= 57,
        valid_utf8(dec_digits(n)),
        !dec_digits(n).contains(0u8),
    decreases n,
{
    if n < 10 {
        lemma_ascii_byte_valid((48 + n) as u8);
        assert(dec_digits(n) =~= seq![(48 + n) as u8]);
        assert(!dec_digits(n).contains(0u8)) by {
            if dec_digits(n).contains(0u8) {
                let k = choose|k: int| 0 <= k < dec_digits(n).len() && dec_digits(n)[k] == 0u8;
            }
        }
    } else {
        lemma_dec_digits(n / 10);
        let a = dec_digits(n / 10);
        let b = (48 + n % 10) as u8;
        assert(dec_digits(n) == a.push(b));
        lemma_ascii_byte_valid(b);
        assert(valid_utf8(a.push(b))) by {
            broadcast use vstd::utf8::valid_utf8_concat;

            assert(a.push(b) =~= a + seq![b]);
        }
        assert(!dec_digits(n).contains(0u8)) by {
            if dec_digits(n).contains(0u8) {
                let k = choose|k: int| 0 <= k < a.push(b).len() && a.push(b)[k] == 0u8;
                if k < a.len() {
                    assert(a[k] >= 48);
                } else {
                    assert(a.push(b)[k] == b);
                }
            }
        }
    }
}

/// The power of ten bounding the collection counter's digits.
proof fn lemma_pow10_5()
    ensures
        pow10(5) == 100000,
{
    assert(pow10(0) == 1);
    assert(pow10(1) == 10);
    assert(pow10(2) == 100);
    assert(pow10(3) == 1000);
    assert(pow10(4) == 10000);
    assert(pow10(5) == 100000);
}

/// A value below `10^k` has at most `k` digits.
pub proof fn lemma_dec_digits_len(n: u64, k: int)
    requires
        1 <= k,
        (n as int) < pow10(k),
    ensures
        dec_digits(n).len() <= k,
    decreases n,
{
    if n < 10 {
    } else {
        assert(pow10(k) == 10 * pow10(k - 1));
        assert(k >= 2) by {
            if k == 1 {
                assert(pow10(1) == 10);
            }
        }
        assert(((n / 10) as int) < pow10(k - 1));
        lemma_dec_digits_len(n / 10, k - 1);
    }
}

/// Renders `n` in decimal.
fn dec_bytes(n: u64) -> (r: Vec<u8>)
    ensures
        r@ == dec_digits(n),
    decreases n,
{
    if n < 10 {
        let mut v: Vec<u8> = Vec::new();
        v.push(48 + (n as u8));
        proof {
            assert(v@ =~= dec_digits(n));
        }
        v
    } else {
        let mut v = dec_bytes(n / 10);
        v.push(48 + ((n % 10) as u8));
        v
    }
}

/// The name the native side gives the `n`-th snapshot: `snap<n>`.
pub open spec fn snap_name_bytes(n: u64) -> Seq<u8> {
    seq![115u8, 110u8, 97u8, 112u8] + dec_digits(n)
}

/// Content bytes of an optional C string argument.
pub open spec fn opt_bytes(c: Option<&CBuf>) -> Option<Seq<u8>> {
    match c {
        Some(b) => Some(b@),
        None => None,
    }
}

/// The record a snapshot call appends in state `s`.
pub open spec fn taken_snap(s: State, comment: Option<Seq<u8>>) -> SnapView {
    SnapView {
        name: snap_name_bytes(s.snap_counter),
        comment: comment,
        timestamp: dec_digits(s.snap_counter),
        lxcpath: s.config_path,
    }
}

/// The snapshot name is short text.
proof fn lemma_snap_name(n: u64)
    requires
        n <= MAX_ITEMS as u64,
    ensures
        text_ok(snap_name_bytes(n)),
{
    lemma_dec_digits(n);
    lemma_pow10_5();
    lemma_dec_digits_len(n, 5);
    let head = seq![115u8, 110u8, 97u8, 112u8];
    assert(valid_utf8(head)) by {
        reveal_strlit("snap");
        assert(forall|i: int| 0 <= i < "snap"@.len() ==> '\0' <= #[trigger] "snap"@[i]
            <= '\u{7f}');
        is_ascii_chars_encode_utf8("snap"@);
        assert(head =~= encode_utf8("snap"@));
        encode_utf8_valid_utf8("snap"@);
    }
    assert(valid_utf8(snap_name_bytes(n))) by {
        broadcast use vstd::utf8::valid_utf8_concat;

    }
    assert(!snap_name_bytes(n).contains(0u8)) by {
        if snap_name_bytes(n).contains(0u8) {
            let k = choose|k: int|
                0 <= k < snap_name_bytes(n).len() && snap_name_bytes(n)[k] == 0u8;
            if k >= 4 {
                assert(dec_digits(n)[k - 4] == 0u8);
                assert(dec_digits(n).contains(0u8));
            }
        }
    }
}

/// Index of the first snapshot carrying `name`, or -1.
pub open spec fn snap_find(snaps: Seq<SnapView>, name: Seq<u8>) -> int
    decreases snaps.len(),
{
    if snaps.len() == 0 {
        -1
    } else if snaps[0].name == name {
        0
    } else {
        let r = snap_find(snaps.drop_first(), name);
        if r < 0 {
            -1
        } else {
            1 + r
        }
    }
}

/// What [`snap_find`] returns: a proper index of a match, after no match,
/// or -1 when nothing matches.
pub proof fn lemma_snap_find(snaps: Seq<SnapView>, name: Seq<u8>)
    ensures
        snap_find(snaps, name) >= 0 ==> {
            &&& snap_find(snaps, name) < snaps.len()
            &&& snaps[snap_find(snaps, name)].name == name
            &&& (forall|j: int| 0 <= j < snap_find(snaps, name) ==> snaps[j].name != name)
        },
        snap_find(snaps, name) < 0 ==> (forall|j: int|
            0 <= j < snaps.len() ==> snaps[j].name != name),
    decreases snaps.len(),
{
    if snaps.len() > 0 && snaps[0].name != name {
        lemma_snap_find(snaps.drop_first(), name);
        let r = snap_find(snaps.drop_first(), name);
        if r >= 0 {
            assert forall|j: int| 0 <= j < snap_find(snaps, name) implies snaps[j].name != name by {
                if j >= 1 {
                    assert(snaps.drop_first()[j - 1].name != name);
                }
            }
        } else {
            assert forall|j: int| 0 <= j < snaps.len() implies snaps[j].name != name by {
                if j >= 1 {
                    assert(snaps.drop_first()[j - 1].name != name);
                }
            }
        }
    }
}

impl Clone for NativeSnapshot {
    /// The copy carries the same record.
    fn clone(&self) -> (r: Self)
        ensures
            r@ == self@,
    {
        NativeSnapshot {
            name: self.name.clone(),
            comment: match &self.comment {
                Some(c) => Some(c.clone()),
                None => None,
            },
            timestamp: self.timestamp.clone(),
            lxcpath: self.lxcpath.clone(),
        }
    }
}

impl NativeContainer {
    /// Modeled integer call: record a snapshot of the stopped container
    /// and return its index.  The native side names it `snap<n>` by a
    /// creation counter, which also stands in for the wall-clock timestamp
    /// the model does not track.
    pub fn snapshot(&mut self, commentfile: Option<&CBuf>) -> (r: i32)
        requires
            old(self).wf(),
            (commentfile matches Some(c) ==> valid_utf8(c@) && !c@.contains(0u8)),
        ensures
            final(self).wf(),
            (r >= 0) == (old(self)@.defined && !old(self)@.running && old(self)@.snap_counter
                < MAX_ITEMS as u64 && (commentfile matches Some(c) ==> c@.len() <= MAX_ITEM_LEN)),
            r >= 0 ==> r == old(self)@.snapshots.len(),
            r >= 0 ==> final(self)@ == (State {
                snapshots: old(self)@.snapshots.push(
                    taken_snap(old(self)@, opt_bytes(commentfile)),
                ),
                snap_counter: (old(self)@.snap_counter + 1) as u64,
                ..old(self)@
            }),
            r < 0 ==> r == -1 && final(self)@ == with_error(
                old(self)@,
                if (commentfile matches Some(c) && c@.len() > MAX_ITEM_LEN) {
                    ERR_INVALID
                } else if old(self)@.running {
                    ERR_BUSY
                } else if !old(self)@.defined {
                    ERR_NOT_FOUND
                } else {
                    ERR_LIMIT
                },
            ),
    {
        match commentfile {
            Some(c) => {
                if c.len() > MAX_ITEM_LEN {
                    self.set_error(ERR_INVALID);
                    return -1;
                }
            },
            None => {},
        }
        if self.running {
            self.set_error(ERR_BUSY);
            return -1;
        }
        if !self.defined {
            self.set_error(ERR_NOT_FOUND);
            return -1;
        }
        if self.snap_counter >= MAX_ITEMS as u64 {
            self.set_error(ERR_LIMIT);
            return -1;
        }
        proof {
            lemma_snap_name(self@.snap_counter);
            lemma_dec_digits(self@.snap_counter);
            lemma_pow10_5();
            lemma_dec_digits_len(self@.snap_counter, 5);
        }
        let mut name_bytes: Vec<u8> = Vec::new();
        name_bytes.push(115u8);
        name_bytes.push(110u8);
        name_bytes.push(97u8);
        name_bytes.push(112u8);
        let mut digits = dec_bytes(self.snap_counter);
        let dn = digits.len();
        let mut i: usize = 0;
        while i < dn
            invariant
                dn == digits@.len(),
                i <= dn,
                name_bytes@ == seq![115u8, 110u8, 97u8, 112u8] + digits@.take(i as int),
            decreases dn - i,
        {
            proof {
                assert((seq![115u8, 110u8, 97u8, 112u8] + digits@.take(i as int + 1)) =~= (
                seq![115u8, 110u8, 97u8, 112u8] + digits@.take(i as int)).push(
                    digits@[i as int],
                ));
            }
            name_bytes.push(digits[i]);
            i += 1;
        }
        proof {
            assert(digits@.take(dn as int) =~= digits@);
            assert(name_bytes@ == snap_name_bytes(self@.snap_counter));
        }
        let name = match CBuf::from_content(name_bytes) {
            Some(c) => c,
            None => vstd::pervasive::unreached(),
        };
        let timestamp = match CBuf::from_content(digits) {
            Some(c) => c,
            None => vstd::pervasive::unreached(),
        };
        let snap = NativeSnapshot {
            name,
            comment: match commentfile {
                Some(c) => Some(c.clone()),
                None => None,
            },
            timestamp,
            lxcpath: self.config_path.clone(),
        };
        let idx = self.snapshots.len();
        let ghost old_snaps = self.snapshots@.map(|i: int, s: NativeSnapshot| s@);
        self.snapshots.push(snap);
        self.snap_counter = self.snap_counter + 1;
        proof {
            assert(self@.snapshots =~= old_snaps.push(
                SnapView {
                    name: snap_name_bytes((self@.snap_counter - 1) as u64),
                    comment: match commentfile {
                        Some(c) => Some(c@),
                        None => None,
                    },
                    timestamp: dec_digits((self@.snap_counter - 1) as u64),
                    lxcpath: self@.config_path,
                },
            ));
        }
        idx as i32
    }

    /// Modeled array call: the list of snapshots and its length.
    pub fn snapshot_list(&self) -> (r: (Vec<NativeSnapshot>, i32))
        requires
            self.wf(),
        ensures
            r.1 == self@.snapshots.len(),
            r.0@.map(|i: int, s: NativeSnapshot| s@) == self@.snapshots,
    {
        let n = self.snapshots.len();
        let mut out: Vec<NativeSnapshot> = Vec::new();
        let mut i: usize = 0;
        while i < n
            invariant
                n == self.snapshots@.len(),
                i <= n,
                out@.len() == i,
                forall|k: int|
                    0 <= k < i ==> (#[trigger] out@[k])@ == self.snapshots@.map(
                        |j: int, s: NativeSnapshot| s@,
                    )[k],
            decreases n - i,
        {
            out.push(self.snapshots[i].clone());
            i += 1;
        }
        proof {
            assert(out@.map(|i: int, s: NativeSnapshot| s@) =~= self@.snapshots);
        }
        (out, n as i32)
    }

    /// Modeled boolean call: restore a stopped container from the named
    /// snapshot into a new container; this object does not change.
    pub fn snapshot_restore(&mut self, snapname: &CBuf, newname: &CBuf) -> (r: bool)
        requires
            old(self).wf(),
        ensures
            final(self).wf(),
            r == (old(self)@.defined && !old(self)@.running && snap_find(
                old(self)@.snapshots,
                snapname@,
            ) >= 0),
            r ==> final(self)@ == old(self)@,
            !r ==> final(self)@ == with_error(
                old(self)@,
                if old(self)@.running {
                    ERR_BUSY
                } else if !old(self)@.defined {
                    ERR_NOT_FOUND
                } else {
                    ERR_NOT_FOUND
                },
            ),
    {
        if self.running {
            self.set_error(ERR_BUSY);
            return false;
        }
        if !self.defined {
            self.set_error(ERR_NOT_FOUND);
            return false;
        }
        match self.find_snapshot(snapname) {
            Some(_) => true,
            None => {
                self.set_error(ERR_NOT_FOUND);
                false
            },
        }
    }

    /// Modeled boolean call: destroy the named snapshot.
    pub fn snapshot_destroy(&mut self, snapname: &CBuf) -> (r: bool)
        requires
            old(self).wf(),
        ensures
            final(self).wf(),
            r == (snap_find(old(self)@.snapshots, snapname@) >= 0),
            r ==> final(self)@ == (State {
                snapshots: old(self)@.snapshots.remove(
                    snap_find(old(self)@.snapshots, snapname@),
                ),
                ..old(self)@
            }),
            !r ==> final(self)@ == with_error(old(self)@, ERR_NOT_FOUND),
    {
        let ghost snaps = self@.snapshots;
        proof {
            lemma_snap_find(snaps, snapname@);
        }
        match self.find_snapshot(snapname) {
            Some(i) => {
                self.snapshots.remove(i);
                proof {
                    assert(self@.snapshots =~= snaps.remove(i as int));
                }
                true
            },
            None => {
                self.set_error(ERR_NOT_FOUND);
                false
            },
        }
    }

    /// Modeled boolean call: destroy every snapshot.
    pub fn snapshot_destroy_all(&mut self) -> (r: bool)
        requires
            old(self).wf(),
        ensures
            final(self).wf(),
            r == true,
            final(self)@ == (State { snapshots: Seq::empty(), ..old(self)@ }),
    {
        self.snapshots = Vec::new();
        proof {
            assert(self@.snapshots =~= Seq::<SnapView>::empty());
        }
        true
    }

    /// Modeled boolean call: delete the stopped container together with
    /// its snapshots.
    pub fn destroy_with_snapshots(&mut self) -> (r: bool)
        requires
            old(self).wf(),
        ensures
            final(self).wf(),
            r == (old(self)@.defined && !old(self)@.running),
            r ==> final(self)@ == (State {
                defined: false,
                snapshots: Seq::empty(),
                ..old(self)@
            }),
            !r && old(self)@.running ==> final(self)@ == with_error(old(self)@, ERR_BUSY),
            !r && !old(self)@.running ==> final(self)@ == with_error(old(self)@, ERR_NOT_FOUND),
    {
        if self.running {
            self.set_error(ERR_BUSY);
            return false;
        }
        if !self.defined {
            self.set_error(ERR_NOT_FOUND);
            return false;
        }
        self.defined = false;
        self.snapshots = Vec::new();
        proof {
            assert(self@.snapshots =~= Seq::<SnapView>::empty());
        }
        true
    }

    /// Finds the first snapshot carrying the name, in store order.
    fn find_snapshot(&self, name: &CBuf) -> (r: Option<usize>)
        ensures
            (r matches Some(i) ==> snap_find(self@.snapshots, name@) == i),
            r is None ==> snap_find(self@.snapshots, name@) < 0,
    {
        proof {
            lemma_snap_find(self@.snapshots, name@);
        }
        let n = self.snapshots.len();
        let mut i: usize = 0;
        while i < n
            invariant
                n == self.snapshots@.len(),
                i <= n,
                forall|j: int| 0 <= j < i ==> (#[trigger] self.snapshots@[j].name)@ != name@,
            decreases n - i,
        {
            if self.snapshots[i].name.content_eq(name) {
                proof {
                    let snaps = self@.snapshots;
                    assert(snaps[i as int].name == name@);
                    assert forall|j: int| 0 <= j < i implies snaps[j].name != name@ by {
                        assert(snaps[j] == self.snapshots@[j]@);
                    }
                    lemma_snap_find_at(snaps, name@, i as int);
                }
                return Some(i);
            }
            i += 1;
        }
        proof {
            lemma_snap_find(self@.snapshots, name@);
            if snap_find(self@.snapshots, name@) >= 0 {
                let k = snap_find(self@.snapshots, name@);
                assert(self@.snapshots[k].name == name@);
                assert((self.snapshots@[k].name)@ != name@);
            }
        }
        None
    }
}

/// The find result is the index where the names switch from misses to a
/// match.
proof fn lemma_snap_find_at(snaps: Seq<SnapView>, name: Seq<u8>, i: int)
    requires
        0 <= i < snaps.len(),
        snaps[i].name == name,
        forall|j: int| 0 <= j < i ==> snaps[j].name != name,
    ensures
        snap_find(snaps, name) == i,
    decreases i,
{
    if i > 0 {
        assert(forall|j: int| 0 <= j < i - 1 ==> snaps.drop_first()[j] == snaps[j + 1]);
        lemma_snap_find_at(snaps.drop_first(), name, i - 1);
    }
}

/// Index of the first entry equal to `x`, or -1.
pub open spec fn bytes_find(items: Seq<Seq<u8>>, x: Seq<u8>) -> int
    decreases items.len(),
{
    if items.len() == 0 {
        -1
    } else if items[0] == x {
        0
    } else {
        let r = bytes_find(items.drop_first(), x);
        if r < 0 {
            -1
        } else {
            1 + r
        }
    }
}

/// What [`bytes_find`] returns: a proper index of a match, after no match,
/// or -1 when nothing matches.
pub proof fn lemma_bytes_find(items: Seq<Seq<u8>>, x: Seq<u8>)
    ensures
        bytes_find(items, x) >= 0 ==> {
            &&& bytes_find(items, x) < items.len()
            &&& items[bytes_find(items, x)] == x
            &&& (forall|j: int| 0 <= j < bytes_find(items, x) ==> items[j] != x)
        },
        bytes_find(items, x) < 0 ==> (forall|j: int| 0 <= j < items.len() ==> items[j] != x),
        (bytes_find(items, x) >= 0) == items.contains(x),
    decreases items.len(),
{
    if items.len() > 0 && items[0] != x {
        lemma_bytes_find(items.drop_first(), x);
        let r = bytes_find(items.drop_first(), x);
        if r >= 0 {
            assert forall|j: int| 0 <= j < bytes_find(items, x) implies items[j] != x by {
                if j >= 1 {
                    assert(items.drop_first()[j - 1] != x);
                }
            }
        } else {
            assert forall|j: int| 0 <= j < items.len() implies items[j] != x by {
                if j >= 1 {
                    assert(items.drop_first()[j - 1] != x);
                }
            }
        }
        assert((bytes_find(items, x) >= 0) == items.contains(x)) by {
            if bytes_find(items, x) >= 0 {
                assert(items[bytes_find(items, x)] == x);
            }
            if items.contains(x) {
                let k = choose|k: int| 0 <= k < items.len() && items[k] == x;
                if bytes_find(items, x) < 0 {
                    assert(items[k] != x);
                }
            }
        }
    } else if items.len() > 0 {
        assert(items.contains(x)) by {
            assert(items[0] == x);
        }
    } else {
        assert(!items.contains(x));
    }
}

/// The find result is the index where the entries switch from misses to a
/// match.
proof fn lemma_bytes_find_at(items: Seq<Seq<u8>>, x: Seq<u8>, i: int)
    requires
        0 <= i < items.len(),
        items[i] == x,
        forall|j: int| 0 <= j < i ==> items[j] != x,
    ensures
        bytes_find(items, x) == i,
    decreases i,
{
    if i > 0 {
        assert(forall|j: int| 0 <= j < i - 1 ==> items.drop_first()[j] == items[j + 1]);
        lemma_bytes_find_at(items.drop_first(), x, i - 1);
    }
}

impl NativeContainer {
    /// Finds the first network interface with the given name.
    fn find_interface(&self, name: &CBuf) -> (r: Option<usize>)
        ensures
            (r matches Some(i) ==> bytes_find(self@.interfaces, name@) == i),
            r is None ==> bytes_find(self@.interfaces, name@) < 0,
    {
        let n = self.interfaces.len();
        let mut i: usize = 0;
        while i < n
            invariant
                n == self.interfaces@.len(),
                i <= n,
                forall|j: int| 0 <= j < i ==> (#[trigger] self.interfaces@[j])@ != name@,
            decreases n - i,
        {
            if self.interfaces[i].content_eq(name) {
                proof {
                    let items = self@.interfaces;
                    assert(items[i as int] == name@);
                    assert forall|j: int| 0 <= j < i implies items[j] != name@ by {
                        assert(items[j] == self.interfaces@[j]@);
                    }
                    lemma_bytes_find_at(items, name@, i as int);
                }
                return Some(i);
            }
            i += 1;
        }
        proof {
            lemma_bytes_find(self@.interfaces, name@);
            if bytes_find(self@.interfaces, name@) >= 0 {
                let k = bytes_find(self@.interfaces, name@);
                assert(self@.interfaces[k] == name@);
                assert((self.interfaces@[k])@ != name@);
            }
        }
        None
    }

    /// Modeled array call: the running container's network interfaces as a
    /// null-terminated array, or the null pointer (with the error fields
    /// set) when the container is stopped.
    pub fn get_interfaces(&mut self) -> (r: Option<crate::argv::Nta>)
        requires
            old(self).wf(),
        ensures
            final(self).wf(),
            (r is Some) == old(self)@.running,
            r is Some ==> final(self)@ == old(self)@,
            (r matches Some(a) ==> {
                &&& a@ == crate::argv::nta_of(old(self)@.interfaces)
                &&& crate::argv::terminated(a@)
                &&& crate::argv::sentinel(a@) == old(self)@.interfaces.len()
                &&& crate::argv::entries(a@) =~= old(self)@.interfaces
            }),
            r is None ==> final(self)@ == with_error(old(self)@, ERR_NOT_RUNNING),
    {
        if !self.running {
            self.set_error(ERR_NOT_RUNNING);
            return None;
        }
        let n = self.interfaces.len();
        let mut slots: Vec<Option<CBuf>> = Vec::new();
        let mut i: usize = 0;
        while i < n
            invariant
                n == self.interfaces@.len(),
                i <= n,
                slots@.len() == i,
                forall|k: int|
                    0 <= k < i ==> (#[trigger] slots@[k] matches Some(c) && c@
                        == self.interfaces@[k]@),
            decreases n - i,
        {
            slots.push(Some(self.interfaces[i].clone()));
            i += 1;
        }
        slots.push(None);
        let nta = crate::argv::Nta { slots };
        proof {
            assert(nta@ =~= crate::argv::nta_of(self@.interfaces));
            assert(forall|k: int| 0 <= k < n ==> (#[trigger] nta@[k]) is Some);
            assert(nta@[n as int] is None);
            crate::argv::lemma_sentinel_at(nta@, n as int);
            crate::argv::lemma_sentinel(nta@);
            assert forall|k: int| 0 <= k < n implies #[trigger] crate::argv::entries(nta@)[k]
                == self@.interfaces[k] by {
                assert(crate::argv::entries(nta@)[k] == nta@[k]->0);
            }
        }
        Some(nta)
    }

    /// Modeled boolean call: move a host interface into the running
    /// container under the destination name.
    pub fn attach_interface(&mut self, dev: &CBuf, dst_dev: &CBuf) -> (r: bool)
        requires
            old(self).wf(),
            valid_utf8(dst_dev@),
            !dst_dev@.contains(0u8),
        ensures
            final(self).wf(),
            r == (old(self)@.running && 1 <= dst_dev@.len() <= MAX_ITEM_LEN && !old(
                self,
            )@.interfaces.contains(dst_dev@) && old(self)@.interfaces.len() < MAX_ITEMS),
            r ==> final(self)@ == (State {
                interfaces: old(self)@.interfaces.push(dst_dev@),
                ..old(self)@
            }),
            !r && !old(self)@.running ==> final(self)@ == with_error(old(self)@, ERR_NOT_RUNNING),
            !r && old(self)@.running && !(1 <= dst_dev@.len() <= MAX_ITEM_LEN) ==> final(self)@
                == with_error(old(self)@, ERR_INVALID),
            !r && old(self)@.running && (1 <= dst_dev@.len() <= MAX_ITEM_LEN) && old(
                self,
            )@.interfaces.contains(dst_dev@) ==> final(self)@ == with_error(
                old(self)@,
                ERR_EXISTS,
            ),
            !r && old(self)@.running && (1 <= dst_dev@.len() <= MAX_ITEM_LEN) && !old(
                self,
            )@.interfaces.contains(dst_dev@) ==> final(self)@ == with_error(
                old(self)@,
                ERR_LIMIT,
            ),
    {
        if !self.running {
            self.set_error(ERR_NOT_RUNNING);
            return false;
        }
        let dlen = dst_dev.len();
        if dlen == 0 || dlen > MAX_ITEM_LEN {
            self.set_error(ERR_INVALID);
            return false;
        }
        proof {
            lemma_bytes_find(self@.interfaces, dst_dev@);
        }
        match self.find_interface(dst_dev) {
            Some(_) => {
                self.set_error(ERR_EXISTS);
                false
            },
            None => {
                if self.interfaces.len() >= MAX_ITEMS {
                    self.set_error(ERR_LIMIT);
                    return false;
                }
                let ghost items = self@.interfaces;
                self.interfaces.push(dst_dev.clone());
                proof {
                    assert(self@.interfaces =~= items.push(dst_dev@));
                }
                true
            },
        }
    }

    /// Modeled boolean call: give an interface of the running container
    /// back to the host.
    pub fn detach_interface(&mut self, dev: &CBuf, dst_dev: &CBuf) -> (r: bool)
        requires
            old(self).wf(),
        ensures
            final(self).wf(),
            r == (old(self)@.running && old(self)@.interfaces.contains(dev@)),
            r ==> final(self)@ == (State {
                interfaces: old(self)@.interfaces.remove(bytes_find(old(self)@.interfaces, dev@)),
                ..old(self)@
            }),
            !r && !old(self)@.running ==> final(self)@ == with_error(old(self)@, ERR_NOT_RUNNING),
            !r && old(self)@.running ==> final(self)@ == with_error(old(self)@, ERR_NOT_FOUND),
    {
        if !self.running {
            self.set_error(ERR_NOT_RUNNING);
            return false;
        }
        let ghost items = self@.interfaces;
        proof {
            lemma_bytes_find(items, dev@);
        }
        match self.find_interface(dev) {
            Some(i) => {
                self.interfaces.remove(i);
                proof {
                    assert(self@.interfaces =~= items.remove(i as int));
                }
                true
            },
            None => {
                self.set_error(ERR_NOT_FOUND);
                false
            },
        }
    }

    /// Modeled integer call: allocate a console on the running container;
    /// hands back the peer descriptor and the allocated tty number.
    pub fn console_getfd(&mut self, ttynum: &mut i32, ptxfd: &mut i32) -> (r: i32)
        requires
            old(self).wf(),
        ensures
            final(self).wf(),
            (r >= 0) == old(self)@.running,
            r >= 0 ==> {
                &&& r == 4
                &&& *final(ptxfd) == 3
                &&& *final(ttynum) == (if *old(ttynum) < 0 {
                    1i32
                } else {
                    *old(ttynum)
                })
                &&& final(self)@ == old(self)@
            },
            r < 0 ==> r == -1 && final(self)@ == with_error(old(self)@, ERR_NOT_RUNNING)
                && *final(ttynum) == *old(ttynum) && *final(ptxfd) == *old(ptxfd),
    {
        if !self.running {
            self.set_error(ERR_NOT_RUNNING);
            return -1;
        }
        if *ttynum < 0 {
            *ttynum = 1;
        }
        *ptxfd = 3;
        4
    }

    /// Modeled integer call: run a console on the running container.
    pub fn console(
        &mut self,
        ttynum: i32,
        stdinfd: i32,
        stdoutfd: i32,
        stderrfd: i32,
        escape: i32,
    ) -> (r: i32)
        requires
            old(self).wf(),
        ensures
            final(self).wf(),
            (r >= 0) == old(self)@.running,
            r >= 0 ==> r == 0 && final(self)@ == old(self)@,
            r < 0 ==> r == -1 && final(self)@ == with_error(old(self)@, ERR_NOT_RUNNING),
    {
        if self.running {
            0
        } else {
            self.set_error(ERR_NOT_RUNNING);
            -1
        }
    }

    /// Modeled integer call: run a program inside the running container
    /// and wait for it; the model's programs exit cleanly, so success is
    /// status 0.
    pub fn attach_run_wait(&mut self, program: &CBuf, argv: Option<&crate::argv::Nta>) -> (r: i32)
        requires
            old(self).wf(),
            (argv matches Some(a) ==> crate::argv::terminated(a@)),
        ensures
            final(self).wf(),
            (r >= 0) == old(self)@.running,
            r >= 0 ==> r == 0 && final(self)@ == old(self)@,
            r < 0 ==> r == -1 && final(self)@ == with_error(old(self)@, ERR_NOT_RUNNING),
    {
        if self.running {
            0
        } else {
            self.set_error(ERR_NOT_RUNNING);
            -1
        }
    }

    /// Modeled boolean call: add a device node to the running container.
    /// Device nodes live outside the modeled state; only the guard is
    /// observable.
    pub fn add_device_node(&mut self, src_path: &CBuf, dest_path: Option<&CBuf>) -> (r: bool)
        requires
            old(self).wf(),
        ensures
            final(self).wf(),
            r == old(self)@.running,
            r ==> final(self)@ == old(self)@,
            !r ==> final(self)@ == with_error(old(self)@, ERR_NOT_RUNNING),
    {
        if self.running {
            true
        } else {
            self.set_error(ERR_NOT_RUNNING);
            false
        }
    }

    /// Modeled boolean call: remove a device node from the running
    /// container.
    pub fn remove_device_node(&mut self, src_path: &CBuf, dest_path: Option<&CBuf>) -> (r: bool)
        requires
            old(self).wf(),
        ensures
            final(self).wf(),
            r == old(self)@.running,
            r ==> final(self)@ == old(self)@,
            !r ==> final(self)@ == with_error(old(self)@, ERR_NOT_RUNNING),
    {
        if self.running {
            true
        } else {
            self.set_error(ERR_NOT_RUNNING);
            false
        }
    }

    /// Modeled boolean call: checkpoint the running container into the
    /// given directory, stopping it when asked to.
    pub fn checkpoint(&mut self, directory: &CBuf, stop: bool, verbose: bool) -> (r: bool)
        requires
            old(self).wf(),
        ensures
            final(self).wf(),
            r == (old(self)@.running && 1 <= directory@.len() <= MAX_PATH_LEN),
            r && stop ==> final(self)@ == (State {
                running: false,
                frozen: false,
                init_pid: -1i32,
                ..old(self)@
            }),
            r && !stop ==> final(self)@ == old(self)@,
            !r && !old(self)@.running ==> final(self)@ == with_error(old(self)@, ERR_NOT_RUNNING),
            !r && old(self)@.running ==> final(self)@ == with_error(old(self)@, ERR_INVALID),
    {
        if !self.running {
            self.set_error(ERR_NOT_RUNNING);
            return false;
        }
        let dlen = directory.len();
        if dlen == 0 || dlen > MAX_PATH_LEN {
            self.set_error(ERR_INVALID);
            return false;
        }
        if stop {
            self.running = false;
            self.frozen = false;
            self.init_pid = -1;
        }
        true
    }

    /// Modeled boolean call: bring a checkpointed, stopped container back
    /// up from the given directory.
    pub fn restore(&mut self, directory: &CBuf, verbose: bool) -> (r: bool)
        requires
            old(self).wf(),
        ensures
            final(self).wf(),
            r == (old(self)@.defined && !old(self)@.running && 1 <= directory@.len()
                <= MAX_PATH_LEN),
            r ==> final(self)@ == (State {
                running: true,
                frozen: false,
                init_pid: 1i32,
                ..old(self)@
            }),
            !r && old(self)@.running ==> final(self)@ == with_error(old(self)@, ERR_BUSY),
            !r && !old(self)@.running && !old(self)@.defined ==> final(self)@ == with_error(
                old(self)@,
                ERR_NOT_FOUND,
            ),
            !r && !old(self)@.running && old(self)@.defined ==> final(self)@ == with_error(
                old(self)@,
                ERR_INVALID,
            ),
    {
        if self.running {
            self.set_error(ERR_BUSY);
            return false;
        }
        if !self.defined {
            self.set_error(ERR_NOT_FOUND);
            return false;
        }
        let dlen = directory.len();
        if dlen == 0 || dlen > MAX_PATH_LEN {
            self.set_error(ERR_INVALID);
            return false;
        }
        self.running = true;
        self.frozen = false;
        self.init_pid = 1;
        true
    }

    /// Modeled integer call: the migration entry point.  Command 0
    /// pre-dumps and 1 dumps the running container (the model keeps it
    /// running), 2 restores the stopped container, 3 checks features.
    pub fn migrate(&mut self, cmd: u32) -> (r: i32)
        requires
            old(self).wf(),
        ensures
            final(self).wf(),
            (r == 0) == (cmd == 3 || ((cmd == 0 || cmd == 1) && old(self)@.running) || (cmd == 2
                && old(self)@.defined && !old(self)@.running)),
            cmd == 3 ==> r == 0 && final(self)@ == old(self)@,
            (cmd == 0 || cmd == 1) && r == 0 ==> final(self)@ == old(self)@,
            cmd == 2 && r == 0 ==> final(self)@ == (State {
                running: true,
                frozen: false,
                init_pid: 1i32,
                ..old(self)@
            }),
            r != 0 ==> r == -1,
            (cmd == 0 || cmd == 1) && r == -1 ==> final(self)@ == with_error(
                old(self)@,
                ERR_NOT_RUNNING,
            ),
            cmd == 2 && r == -1 && old(self)@.running ==> final(self)@ == with_error(
                old(self)@,
                ERR_BUSY,
            ),
            cmd == 2 && r == -1 && !old(self)@.running ==> final(self)@ == with_error(
                old(self)@,
                ERR_NOT_FOUND,
            ),
            cmd > 3 ==> r == -1 && final(self)@ == with_error(old(self)@, ERR_INVALID),
    {
        if cmd == 3 {
            return 0;
        }
        if cmd == 0 || cmd == 1 {
            if self.running {
                return 0;
            }
            self.set_error(ERR_NOT_RUNNING);
            return -1;
        }
        if cmd == 2 {
            if self.running {
                self.set_error(ERR_BUSY);
                return -1;
            }
            if !self.defined {
                self.set_error(ERR_NOT_FOUND);
                return -1;
            }
            self.running = true;
            self.frozen = false;
            self.init_pid = 1;
            return 0;
        }
        self.set_error(ERR_INVALID);
        -1
    }

    /// Modeled integer call: read or clear the running container's console
    /// ring buffer.  The model records no console output, so the returned
    /// buffer is always empty.
    pub fn console_log(&mut self, clear: bool, read: bool) -> (r: Option<CBuf>)
        requires
            old(self).wf(),
        ensures
            final(self).wf(),
            (r is Some) == old(self)@.running,
            (r matches Some(c) ==> c@ == Seq::<u8>::empty()),
            r is Some ==> final(self)@ == old(self)@,
            r is None ==> final(self)@ == with_error(old(self)@, ERR_NOT_RUNNING),
    {
        if self.running {
            Some(CBuf::empty())
        } else {
            self.set_error(ERR_NOT_RUNNING);
            None
        }
    }

    /// Modeled integer call: mount a host path onto a path inside the
    /// running container.  Mounts live outside the modeled state; only the
    /// guard is observable.
    pub fn mount(
        &mut self,
        source: &CBuf,
        target: &CBuf,
        fstype: &CBuf,
        flags: u64,
        data: Option<&CBuf>,
    ) -> (r: i32)
        requires
            old(self).wf(),
        ensures
            final(self).wf(),
            (r >= 0) == (old(self)@.running && 1 <= source@.len() <= MAX_PATH_LEN && 1
                <= target@.len() <= MAX_PATH_LEN),
            r >= 0 ==> r == 0 && final(self)@ == old(self)@,
            r < 0 ==> r == -1,
            r < 0 && !old(self)@.running ==> final(self)@ == with_error(
                old(self)@,
                ERR_NOT_RUNNING,
            ),
            r < 0 && old(self)@.running ==> final(self)@ == with_error(old(self)@, ERR_INVALID),
    {
        if !self.running {
            self.set_error(ERR_NOT_RUNNING);
            return -1;
        }
        let slen = source.len();
        let tlen = target.len();
        if slen == 0 || slen > MAX_PATH_LEN || tlen == 0 || tlen > MAX_PATH_LEN {
            self.set_error(ERR_INVALID);
            return -1;
        }
        0
    }

    /// Modeled integer call: unmount a path inside the running container.
    /// Mounts live outside the modeled state; only the guard is
    /// observable.
    pub fn umount(&mut self, target: &CBuf, flags: u64) -> (r: i32)
        requires
            old(self).wf(),
        ensures
            final(self).wf(),
            (r >= 0) == (old(self)@.running && 1 <= target@.len() <= MAX_PATH_LEN),
            r >= 0 ==> r == 0 && final(self)@ == old(self)@,
            r < 0 ==> r == -1,
            r < 0 && !old(self)@.running ==> final(self)@ == with_error(
                old(self)@,
                ERR_NOT_RUNNING,
            ),
            r < 0 && old(self)@.running ==> final(self)@ == with_error(old(self)@, ERR_INVALID),
    {
        if !self.running {
            self.set_error(ERR_NOT_RUNNING);
            return -1;
        }
        let tlen = target.len();
        if tlen == 0 || tlen > MAX_PATH_LEN {
            self.set_error(ERR_INVALID);
            return -1;
        }
        0
    }

    /// Modeled handle call: copy the stopped container under a new name
    /// into the given directory; hands back the new object, carrying a copy
    /// of the configuration, or nothing (the null handle) when the copy is
    /// refused.
    pub fn clone(&mut self, newname: &CBuf, lxcpath: &CBuf) -> (r: Option<NativeContainer>)
        requires
            old(self).wf(),
            valid_utf8(newname@),
            !newname@.contains(0u8),
            valid_utf8(lxcpath@),
            !lxcpath@.contains(0u8),
        ensures
            final(self).wf(),
            (r is Some) == (old(self)@.defined && !old(self)@.running && name_ok(newname@)
                && path_len_ok(lxcpath@)),
            r is Some ==> final(self)@ == old(self)@,
            (r matches Some(c) ==> c.wf() && c@ == (State {
                name: newname@,
                config_path: lxcpath@,
                config_file: config_file_bytes(lxcpath@, newname@),
                defined: true,
                config: old(self)@.config,
                ..fresh_state(newname@, Some(lxcpath@))
            })),
            r is None && old(self)@.running ==> final(self)@ == with_error(old(self)@, ERR_BUSY),
            r is None && !old(self)@.running && !old(self)@.defined ==> final(self)@ == with_error(
                old(self)@,
                ERR_NOT_FOUND,
            ),
            r is None && !old(self)@.running && old(self)@.defined ==> final(self)@ == with_error(
                old(self)@,
                ERR_INVALID,
            ),
    {
        if self.running {
            self.set_error(ERR_BUSY);
            return None;
        }
        if !self.defined {
            self.set_error(ERR_NOT_FOUND);
            return None;
        }
        let nlen = newname.len();
        if nlen == 0 || nlen > MAX_NAME_LEN || newname.contains_byte(47u8) {
            self.set_error(ERR_INVALID);
            return None;
        }
        let plen = lxcpath.len();
        if plen == 0 || plen > MAX_PATH_LEN {
            self.set_error(ERR_INVALID);
            return None;
        }
        proof {
            lemma_config_file_text_ok(lxcpath@, newname@);
        }
        let config_file = config_file_for(lxcpath, newname);
        let n = self.config.len();
        let mut config: Vec<(CBuf, CBuf)> = Vec::new();
        let mut i: usize = 0;
        while i < n
            invariant
                n == self.config@.len(),
                i <= n,
                config@.len() == i,
                forall|k: int|
                    0 <= k < i ==> (#[trigger] config@[k]).0@ == self.config@[k].0@ && config@[k].1@
                        == self.config@[k].1@,
            decreases n - i,
        {
            let pair = (self.config[i].0.clone(), self.config[i].1.clone());
            config.push(pair);
            i += 1;
        }
        proof {
            assert(crate::store::store_view(config@) =~= crate::store::store_view(self.config@));
        }
        let c = NativeContainer {
            name: newname.clone(),
            config_path: lxcpath.clone(),
            config_file,
            defined: true,
            running: false,
            frozen: false,
            daemonize: false,
            close_all_fds: false,
            init_pid: -1,
            timeout: -1,
            config,
            cgroup: Vec::new(),
            interfaces: Vec::new(),
            snapshots: Vec::new(),
            snap_counter: 0,
            error_num: 0,
            error_message: CBuf::empty(),
            refs: 1,
            releases: 0,
            error_reads: 0,
        };
        proof {
            assert(c@.cgroup =~= Seq::<(Seq<u8>, Seq<u8>)>::empty());
            assert(c@.interfaces =~= Seq::<Seq<u8>>::empty());
            assert(c@.snapshots =~= Seq::<SnapView>::empty());
            assert(c@.error_message =~= Seq::<u8>::empty());
            assert(valid_utf8(Seq::<u8>::empty()));
        }
        Some(c)
    }

    /// Modeled descriptor query: the running container's seccomp notify
    /// descriptor, or -1.
    pub fn seccomp_notify_fd(&self) -> (r: i32)
        ensures
            r == (if self@.running {
                5i32
            } else {
                -1i32
            }),
    {
        if self.running {
            5
        } else {
            -1
        }
    }

    /// Modeled descriptor query: the same descriptor, read from the
    /// running command socket.
    pub fn seccomp_notify_fd_active(&self) -> (r: i32)
        ensures
            r == (if self@.running {
                5i32
            } else {
                -1i32
            }),
    {
        if self.running {
            5
        } else {
            -1
        }
    }

    /// Modeled descriptor query: a pidfd for the running init process, or
    /// -1.
    pub fn init_pidfd(&self) -> (r: i32)
        ensures
            r == (if self@.running {
                6i32
            } else {
                -1i32
            }),
    {
        if self.running {
            6
        } else {
            -1
        }
    }

    /// Modeled descriptor query: a mount descriptor for the running
    /// container's devpts instance, or -1.
    pub fn devpts_fd(&self) -> (r: i32)
        ensures
            r == (if self@.running {
                7i32
            } else {
                -1i32
            }),
    {
        if self.running {
            7
        } else {
            -1
        }
    }
}

/// A single byte below 0x80 is a valid one-scalar UTF-8 sequence.
proof fn lemma_ascii_byte_valid(b: u8)
    requires
        b < 0x80,
    ensures
        valid_utf8(seq![b]),
{
    let s = seq![b];
    assert(vstd::utf8::pop_first_scalar(s) =~= Seq::<u8>::empty());
    assert(valid_utf8(Seq::<u8>::empty()));
    assert(vstd::utf8::valid_first_scalar(s));
    assert(valid_utf8(s));
}

} // verus!
