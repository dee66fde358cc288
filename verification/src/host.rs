//! Process-global native queries: the library version, the global
//! configuration, the documented wait states, and the container listings by
//! directory.
//!
//! The native side answers these from the host system (its build, its
//! configuration files, its container directories).  [`Host`] models that
//! side as a value: what it holds is what the real process would find, and
//! the queries are verified against it for every such value.

use crate::argv::{entries, from_foreign_nta, nta_of, sentinel, terminated, Nta};
use crate::cbuf::{from_foreign, CBuf};
use crate::error::Error;
use crate::native::{
    error_record, text_ok, ERR_INVALID, ERR_LIMIT, MAX_ITEMS, MAX_ITEM_LEN, MAX_NAME_LEN,
    MAX_PATH_LEN,
};
use crate::store::{kv_get, store_view};
use vstd::prelude::*;
use vstd::utf8::{decode_utf8, encode_utf8, valid_utf8};

verus! {

broadcast use vstd::utf8::encode_utf8_valid_utf8, vstd::utf8::encode_utf8_decode_utf8;

/// One registered container as the specification sees it.
pub struct EntryView {
    pub name: Seq<u8>,
    pub lxcpath: Seq<u8>,
    pub defined: bool,
    pub running: bool,
}

/// The host as the specification sees it.
pub struct HostState {
    pub version: Seq<u8>,
    pub globals: Seq<(Seq<u8>, Seq<u8>)>,
    pub entries: Seq<EntryView>,
}

#[derive(Debug)]
struct HostEntry {
    name: CBuf,
    lxcpath: CBuf,
    defined: bool,
    running: bool,
}

/// The modeled host side of the process-global entry points.
#[derive(Debug)]
pub struct Host {
    version: CBuf,
    globals: Vec<(CBuf, CBuf)>,
    entries: Vec<HostEntry>,
}

impl View for Host {
    type V = HostState;

    closed spec fn view(&self) -> HostState {
        HostState {
            version: self.version@,
            globals: store_view(self.globals@),
            entries: self.entries@.map(
                |i: int, e: HostEntry|
                    EntryView {
                        name: e.name@,
                        lxcpath: e.lxcpath@,
                        defined: e.defined,
                        running: e.running,
                    },
            ),
        }
    }
}

/// The invariant of every reachable host value.
pub open spec fn host_wf(h: HostState) -> bool {
    &&& text_ok(h.version)
    &&& crate::native::store_wf(h.globals)
    &&& h.entries.len() <= MAX_ITEMS
    &&& (forall|i: int|
        0 <= i < h.entries.len() ==> text_ok((#[trigger] h.entries[i]).name) && text_ok(
            h.entries[i].lxcpath,
        ))
}

/// The names of the registered containers under `path` that meet the
/// selection, in registration order.
pub open spec fn selected_names(
    entries: Seq<EntryView>,
    path: Seq<u8>,
    need_defined: bool,
    need_running: bool,
) -> Seq<Seq<u8>>
    decreases entries.len(),
{
    if entries.len() == 0 {
        Seq::empty()
    } else {
        (if entries[0].lxcpath == path && (!need_defined || entries[0].defined) && (!need_running
            || entries[0].running) {
            seq![entries[0].name]
        } else {
            Seq::<Seq<u8>>::empty()
        }) + selected_names(entries.drop_first(), path, need_defined, need_running)
    }
}

/// Unfolds the selection from the back.
proof fn lemma_selected_snoc(
    entries: Seq<EntryView>,
    path: Seq<u8>,
    need_defined: bool,
    need_running: bool,
)
    requires
        entries.len() > 0,
    ensures
        selected_names(entries, path, need_defined, need_running) == selected_names(
            entries.drop_last(),
            path,
            need_defined,
            need_running,
        ) + (if entries.last().lxcpath == path && (!need_defined || entries.last().defined) && (
        !need_running || entries.last().running) {
            seq![entries.last().name]
        } else {
            Seq::<Seq<u8>>::empty()
        }),
    decreases entries.len(),
{
    let head_part = if entries[0].lxcpath == path && (!need_defined || entries[0].defined) && (
    !need_running || entries[0].running) {
        seq![entries[0].name]
    } else {
        Seq::<Seq<u8>>::empty()
    };
    let last_part = if entries.last().lxcpath == path && (!need_defined || entries.last().defined)
        && (!need_running || entries.last().running) {
        seq![entries.last().name]
    } else {
        Seq::<Seq<u8>>::empty()
    };
    if entries.len() == 1 {
        assert(entries.drop_first() =~= Seq::<EntryView>::empty());
        assert(entries.drop_last() =~= Seq::<EntryView>::empty());
        assert(entries.last() == entries[0]);
        assert(head_part + Seq::<Seq<u8>>::empty() =~= head_part);
        assert(Seq::<Seq<u8>>::empty() + last_part =~= last_part);
    } else {
        lemma_selected_snoc(entries.drop_first(), path, need_defined, need_running);
        assert(entries.drop_first().last() == entries.last());
        assert(entries.drop_first().drop_last() =~= entries.drop_last().drop_first());
        assert(entries.drop_last()[0] == entries[0]);
        let mid = selected_names(entries.drop_last().drop_first(), path, need_defined,
            need_running);
        assert(selected_names(entries.drop_last(), path, need_defined, need_running) == head_part
            + mid);
        assert(head_part + (mid + last_part) =~= (head_part + mid) + last_part);
    }
}

/// Every selected name is a registered name, so the selection stays text
/// when the registry is, and it is never longer than the registry.
proof fn lemma_selected_facts(
    entries: Seq<EntryView>,
    path: Seq<u8>,
    need_defined: bool,
    need_running: bool,
)
    requires
        forall|i: int| 0 <= i < entries.len() ==> text_ok((#[trigger] entries[i]).name),
    ensures
        selected_names(entries, path, need_defined, need_running).len() <= entries.len(),
        forall|k: int|
            0 <= k < selected_names(entries, path, need_defined, need_running).len() ==> text_ok(
                #[trigger] selected_names(entries, path, need_defined, need_running)[k],
            ),
    decreases entries.len(),
{
    if entries.len() > 0 {
        assert(forall|i: int|
            0 <= i < entries.drop_first().len() ==> #[trigger] entries.drop_first()[i] == entries[
            i + 1
        ]);
        lemma_selected_facts(entries.drop_first(), path, need_defined, need_running);
        let head_part = if entries[0].lxcpath == path && (!need_defined || entries[0].defined) && (
        !need_running || entries[0].running) {
            seq![entries[0].name]
        } else {
            Seq::<Seq<u8>>::empty()
        };
        let rest = selected_names(entries.drop_first(), path, need_defined, need_running);
        assert(text_ok(entries[0].name));
        assert forall|k: int| 0 <= k < (head_part + rest).len() implies text_ok(
            #[trigger] (head_part + rest)[k],
        ) by {
            if k < head_part.len() {
                assert((head_part + rest)[k] == entries[0].name);
            } else {
                assert((head_part + rest)[k] == rest[k - head_part.len()]);
            }
        }
    }
}

impl Host {
    /// The invariant of every reachable host value.
    pub open spec fn wf(&self) -> bool {
        host_wf(self@)
    }

    /// A host whose native library reports the given version and which has
    /// no global configuration and no containers yet.  Fails with an
    /// encoding error when the version text cannot cross the boundary, and
    /// with a construction error when it breaks the model's length rule.
    pub fn new(version: &str) -> (r: Result<Host, Error>)
        ensures
            r is Ok <==> (!version@.contains('\0') && encode_utf8(version@).len()
                <= MAX_ITEM_LEN),
            (r matches Ok(h) ==> h.wf() && h@.version == encode_utf8(version@) && h@.globals
                =~= Seq::<(Seq<u8>, Seq<u8>)>::empty() && h@.entries =~= Seq::<EntryView>::empty()),
            version@.contains('\0') ==> (r matches Err(e) && e is Encoding),
            !version@.contains('\0') && encode_utf8(version@).len() > MAX_ITEM_LEN ==> (
            r matches Err(e) && e is Construction),
    {
        let version_c = match crate::cbuf::to_foreign(version) {
            Ok(c) => c,
            Err(e) => {
                return Err(e);
            },
        };
        proof {
            crate::cbuf::lemma_encode_null_free(version@);
        }
        if version_c.len() > MAX_ITEM_LEN {
            return Err(Error::Construction);
        }
        let h = Host { version: version_c, globals: Vec::new(), entries: Vec::new() };
        proof {
            assert(h@.globals =~= Seq::<(Seq<u8>, Seq<u8>)>::empty());
            assert(h@.entries =~= Seq::<EntryView>::empty());
        }
        Ok(h)
    }

    /// Sets one global configuration item.
    pub fn set_global_config_item(&mut self, key: &str, value: &str) -> (r: Result<(), Error>)
        requires
            old(self).wf(),
        ensures
            final(self).wf(),
            r is Ok <==> {
                &&& !key@.contains('\0')
                &&& !value@.contains('\0')
                &&& 1 <= encode_utf8(key@).len() <= MAX_ITEM_LEN
                &&& encode_utf8(value@).len() <= MAX_ITEM_LEN
                &&& (kv_get(old(self)@.globals, encode_utf8(key@)) is Some || old(
                    self,
                )@.globals.len() < MAX_ITEMS)
            },
            r is Ok ==> {
                &&& final(self)@.version == old(self)@.version
                &&& final(self)@.entries == old(self)@.entries
                &&& kv_get(final(self)@.globals, encode_utf8(key@)) == Some(encode_utf8(value@))
                &&& (forall|k2: Seq<u8>|
                    k2 != encode_utf8(key@) ==> #[trigger] kv_get(final(self)@.globals, k2)
                        == kv_get(old(self)@.globals, k2))
            },
            r is Err ==> final(self)@ == old(self)@,
            (key@.contains('\0') || value@.contains('\0')) ==> (r matches Err(e)
                && e is Encoding),
    {
        let key_c = match crate::cbuf::to_foreign(key) {
            Ok(c) => c,
            Err(e) => {
                return Err(e);
            },
        };
        let value_c = match crate::cbuf::to_foreign(value) {
            Ok(c) => c,
            Err(e) => {
                return Err(e);
            },
        };
        proof {
            crate::cbuf::lemma_encode_null_free(key@);
            crate::cbuf::lemma_encode_null_free(value@);
        }
        let klen = key_c.len();
        let vlen = value_c.len();
        if klen == 0 || klen > MAX_ITEM_LEN || vlen > MAX_ITEM_LEN {
            return Err(Error::Foreign(error_record(ERR_INVALID)));
        }
        let ghost sv = store_view(self.globals@);
        match crate::store::kv_find(&self.globals, &key_c) {
            Some(i) => {
                proof {
                    crate::store::lemma_kv_update(sv, i as int, key_c@, value_c@);
                }
                self.globals.set(i, (key_c, value_c));
                proof {
                    assert(store_view(self.globals@) =~= sv.update(i as int, (key_c@, value_c@)));
                    assert(crate::store::keys_unique(sv.update(i as int, (key_c@, value_c@)))) by {
                        let s2 = sv.update(i as int, (key_c@, value_c@));
                        assert forall|a: int, b: int| 0 <= a < b < s2.len() implies s2[a].0
                            != s2[b].0 by {
                            assert(sv[a].0 != sv[b].0);
                            assert(s2[a].0 == sv[a].0 && s2[b].0 == sv[b].0) by {
                                assert(sv[i as int].0 == key_c@);
                            }
                        }
                    }
                }
                Ok(())
            },
            None => {
                if self.globals.len() >= MAX_ITEMS {
                    return Err(Error::Foreign(error_record(ERR_LIMIT)));
                }
                proof {
                    crate::store::lemma_kv_push(sv, key_c@, value_c@);
                }
                self.globals.push((key_c, value_c));
                proof {
                    assert(store_view(self.globals@) =~= sv.push((key_c@, value_c@)));
                }
                Ok(())
            },
        }
    }

    /// Registers one container under the given directory.
    pub fn register(
        &mut self,
        name: &str,
        lxcpath: &str,
        defined: bool,
        running: bool,
    ) -> (r: Result<(), Error>)
        requires
            old(self).wf(),
        ensures
            final(self).wf(),
            r is Ok <==> {
                &&& !name@.contains('\0')
                &&& !lxcpath@.contains('\0')
                &&& 1 <= encode_utf8(name@).len() <= MAX_NAME_LEN
                &&& 1 <= encode_utf8(lxcpath@).len() <= MAX_PATH_LEN
                &&& old(self)@.entries.len() < MAX_ITEMS
            },
            r is Ok ==> {
                &&& final(self)@.version == old(self)@.version
                &&& final(self)@.globals == old(self)@.globals
                &&& final(self)@.entries == old(self)@.entries.push(
                    EntryView {
                        name: encode_utf8(name@),
                        lxcpath: encode_utf8(lxcpath@),
                        defined: defined,
                        running: running,
                    },
                )
            },
            r is Err ==> final(self)@ == old(self)@,
            (name@.contains('\0') || lxcpath@.contains('\0')) ==> (r matches Err(e)
                && e is Encoding),
    {
        let name_c = match crate::cbuf::to_foreign(name) {
            Ok(c) => c,
            Err(e) => {
                return Err(e);
            },
        };
        let path_c = match crate::cbuf::to_foreign(lxcpath) {
            Ok(c) => c,
            Err(e) => {
                return Err(e);
            },
        };
        proof {
            crate::cbuf::lemma_encode_null_free(name@);
            crate::cbuf::lemma_encode_null_free(lxcpath@);
        }
        let nlen = name_c.len();
        let plen = path_c.len();
        if nlen == 0 || nlen > MAX_NAME_LEN || plen == 0 || plen > MAX_PATH_LEN {
            return Err(Error::Foreign(error_record(ERR_INVALID)));
        }
        if self.entries.len() >= MAX_ITEMS {
            return Err(Error::Foreign(error_record(ERR_LIMIT)));
        }
        let ghost before = self@.entries;
        self.entries.push(
            HostEntry { name: name_c, lxcpath: path_c, defined: defined, running: running },
        );
        proof {
            assert(self@.entries =~= before.push(
                EntryView {
                    name: encode_utf8(name@),
                    lxcpath: encode_utf8(lxcpath@),
                    defined: defined,
                    running: running,
                },
            ));
        }
        Ok(())
    }

    /// Modeled C entry point: count and null-terminated name array of the
    /// registered containers under `path` that meet the selection, or the
    /// failure count -1 for a path the native side refuses.
    pub fn list_names(&self, path: &CBuf, need_defined: bool, need_running: bool) -> (r: (
        i32,
        Option<Nta>,
    ))
        requires
            self.wf(),
        ensures
            path@.len() > MAX_PATH_LEN ==> r.0 == -1 && r.1 is None,
            path@.len() <= MAX_PATH_LEN ==> {
                let sel = selected_names(self@.entries, path@, need_defined, need_running);
                &&& r.0 == sel.len()
                &&& (r.1 matches Some(a) ==> {
                    &&& terminated(a@)
                    &&& sentinel(a@) == sel.len()
                    &&& entries(a@) =~= sel
                })
                &&& r.1 is Some
            },
    {
        if path.len() > MAX_PATH_LEN {
            return (-1, None);
        }
        let ghost sel = selected_names(self@.entries, path@, need_defined, need_running);
        proof {
            lemma_selected_facts(self@.entries, path@, need_defined, need_running);
        }
        let n = self.entries.len();
        let mut slots: Vec<Option<CBuf>> = Vec::new();
        let mut count: usize = 0;
        let mut i: usize = 0;
        while i < n
            invariant
                self.wf(),
                n == self.entries@.len(),
                i <= n,
                count == slots@.len(),
                count <= i,
                forall|k: int|
                    0 <= k < count ==> (#[trigger] slots@[k] matches Some(c) && c@
                        == selected_names(self@.entries.take(i as int), path@, need_defined,
                    need_running)[k]),
                count == selected_names(
                    self@.entries.take(i as int),
                    path@,
                    need_defined,
                    need_running,
                ).len(),
            decreases n - i,
        {
            let ghost evs = self@.entries;
            proof {
                assert(evs.take(i as int + 1).drop_last() =~= evs.take(i as int));
                assert(evs.take(i as int + 1).last() == evs[i as int]);
                lemma_selected_snoc(evs.take(i as int + 1), path@, need_defined, need_running);
                assert(evs[i as int].name == self.entries@[i as int].name@);
                assert(evs[i as int].lxcpath == self.entries@[i as int].lxcpath@);
            }
            let e = &self.entries[i];
            let keep = e.lxcpath.content_eq(path) && (!need_defined || e.defined) && (!need_running
                || e.running);
            if keep {
                slots.push(Some(e.name.clone()));
                count += 1;
            }
            i += 1;
        }
        proof {
            assert(self@.entries.take(n as int) =~= self@.entries);
        }
        slots.push(None);
        let nta = Nta { slots };
        proof {
            assert(forall|k: int| 0 <= k < count ==> (#[trigger] nta@[k]) is Some);
            assert(nta@[count as int] is None);
            crate::argv::lemma_sentinel_at(nta@, count as int);
            crate::argv::lemma_sentinel(nta@);
            assert forall|k: int| 0 <= k < count implies #[trigger] entries(nta@)[k] == sel[k] by {
                assert(entries(nta@)[k] == nta@[k]->0);
            }
            assert(entries(nta@) =~= sel);
        }
        (count as i32, Some(nta))
    }
}

/// Version string of the native library on this host.
pub fn version(host: &Host) -> (r: String)
    requires
        host.wf(),
    ensures
        r@ == decode_utf8(host@.version),
{
    let c = host.version_buf();
    match from_foreign(&c) {
        Ok(s) => s,
        Err(_) => vstd::pervasive::unreached(),
    }
}

impl Host {
    /// Modeled C entry point: the version string.
    pub fn version_buf(&self) -> (r: CBuf)
        ensures
            r@ == self@.version,
    {
        self.version.clone()
    }

    /// Modeled C entry point: the value of a global configuration key, or
    /// the null pointer when the key is unknown.
    pub fn global_config_buf(&self, key: &CBuf) -> (r: Option<CBuf>)
        requires
            self.wf(),
        ensures
            (r is Some) == (kv_get(self@.globals, key@) is Some),
            (r matches Some(c) ==> kv_get(self@.globals, key@) == Some(c@)),
    {
        match crate::store::kv_find(&self.globals, key) {
            Some(i) => Some(self.globals[i].1.clone()),
            None => None,
        }
    }
}

/// The value of a global configuration key: absent keys, and keys that
/// cannot cross the boundary, read as absent.
pub fn get_global_config_item(host: &Host, key: &str) -> (r: Option<String>)
    requires
        host.wf(),
    ensures
        (r is Some) == (!key@.contains('\0') && kv_get(host@.globals, encode_utf8(key@)) is Some),
        (r matches Some(v) ==> v@ == decode_utf8(kv_get(host@.globals, encode_utf8(key@))->0)),
{
    let key_c = match crate::cbuf::to_foreign(key) {
        Ok(c) => c,
        Err(_) => {
            return None;
        },
    };
    proof {
        crate::store::lemma_kv_get_some(host@.globals, key_c@);
        if kv_get(host@.globals, key_c@) is Some {
            let v = kv_get(host@.globals, key_c@)->0;
            let i = choose|i: int|
                0 <= i < host@.globals.len() && #[trigger] host@.globals[i] == (key_c@, v);
            assert(text_ok(host@.globals[i].1));
        }
    }
    match host.global_config_buf(&key_c) {
        Some(c) => match from_foreign(&c) {
            Ok(s) => Some(s),
            Err(_) => vstd::pervasive::unreached(),
        },
        None => None,
    }
}

/// The default directory containers live under: the value of the
/// `lxc.lxcpath` global key.
pub fn get_lxc_path(host: &Host) -> (r: Option<String>)
    requires
        host.wf(),
    ensures
        (r is Some) == (kv_get(host@.globals, encode_utf8("lxc.lxcpath"@)) is Some),
        (r matches Some(v) ==> v@ == decode_utf8(
            kv_get(host@.globals, encode_utf8("lxc.lxcpath"@))->0,
        )),
{
    proof {
        reveal_strlit("lxc.lxcpath");
        assert(forall|i: int| 0 <= i < "lxc.lxcpath"@.len() ==> "lxc.lxcpath"@[i] != '\0');
    }
    get_global_config_item(host, "lxc.lxcpath")
}

/// The names of all container states the native side can report, in its
/// documented order.
pub open spec fn wait_state_names() -> Seq<Seq<char>> {
    seq![
        "STOPPED"@,
        "STARTING"@,
        "RUNNING"@,
        "STOPPING"@,
        "ABORTING"@,
        "FREEZING"@,
        "FROZEN"@,
        "THAWED"@,
    ]
}

/// Lists all container states the native side can wait on.
pub fn wait_states() -> (r: Vec<String>)
    ensures
        r.deep_view() == wait_state_names(),
{
    let mut out: Vec<String> = Vec::new();
    out.push("STOPPED".to_owned());
    out.push("STARTING".to_owned());
    out.push("RUNNING".to_owned());
    out.push("STOPPING".to_owned());
    out.push("ABORTING".to_owned());
    out.push("FREEZING".to_owned());
    out.push("FROZEN".to_owned());
    out.push("THAWED".to_owned());
    proof {
        assert(out.deep_view() =~= wait_state_names());
    }
    out
}

/// Lists the containers registered under `path` that meet the selection,
/// through the native name-array call and the array bridge.
fn list_by(host: &Host, path: &str, need_defined: bool, need_running: bool) -> (r: Result<
    Vec<String>,
    Error,
>)
    requires
        host.wf(),
    ensures
        r is Ok <==> (!path@.contains('\0') && encode_utf8(path@).len() <= MAX_PATH_LEN),
        (r matches Ok(v) ==> {
            let sel = selected_names(host@.entries, encode_utf8(path@), need_defined,
            need_running);
            &&& v@.len() == sel.len()
            &&& (forall|k: int| 0 <= k < sel.len() ==> (#[trigger] v@[k])@ == decode_utf8(sel[k]))
        }),
        path@.contains('\0') ==> (r matches Err(e) && e is Encoding),
        !path@.contains('\0') && encode_utf8(path@).len() > MAX_PATH_LEN ==> (r matches Err(e)
            && e matches Error::Foreign(rec) && rec.num == ERR_INVALID),
{
    let path_c = match crate::cbuf::to_foreign(path) {
        Ok(c) => c,
        Err(e) => {
            return Err(e);
        },
    };
    let (size, names) = host.list_names(&path_c, need_defined, need_running);
    if size < 0 {
        return Err(Error::Foreign(error_record(ERR_INVALID)));
    }
    let nta = match names {
        Some(a) => a,
        None => vstd::pervasive::unreached(),
    };
    proof {
        let sel = selected_names(host@.entries, path_c@, need_defined, need_running);
        lemma_selected_facts(host@.entries, path_c@, need_defined, need_running);
        assert forall|k: int| 0 <= k < sentinel(nta@) implies valid_utf8(
            #[trigger] entries(nta@)[k],
        ) by {
            assert(entries(nta@)[k] == sel[k]);
            assert(text_ok(sel[k]));
        }
    }
    match from_foreign_nta(&nta) {
        Ok(v) => Ok(v),
        Err(_) => vstd::pervasive::unreached(),
    }
}

/// Lists the running containers under the given directory path.
pub fn list_active_containers(host: &Host, path: &str) -> (r: Result<Vec<String>, Error>)
    requires
        host.wf(),
    ensures
        r is Ok <==> (!path@.contains('\0') && encode_utf8(path@).len() <= MAX_PATH_LEN),
        (r matches Ok(v) ==> {
            let sel = selected_names(host@.entries, encode_utf8(path@), false, true);
            &&& v@.len() == sel.len()
            &&& (forall|k: int| 0 <= k < sel.len() ==> (#[trigger] v@[k])@ == decode_utf8(sel[k]))
        }),
        path@.contains('\0') ==> (r matches Err(e) && e is Encoding),
{
    list_by(host, path, false, true)
}

/// Lists every container under the given directory path.
pub fn list_all_containers(host: &Host, path: &str) -> (r: Result<Vec<String>, Error>)
    requires
        host.wf(),
    ensures
        r is Ok <==> (!path@.contains('\0') && encode_utf8(path@).len() <= MAX_PATH_LEN),
        (r matches Ok(v) ==> {
            let sel = selected_names(host@.entries, encode_utf8(path@), false, false);
            &&& v@.len() == sel.len()
            &&& (forall|k: int| 0 <= k < sel.len() ==> (#[trigger] v@[k])@ == decode_utf8(sel[k]))
        }),
        path@.contains('\0') ==> (r matches Err(e) && e is Encoding),
{
    list_by(host, path, false, false)
}

/// Lists the created containers under the given directory path.
pub fn list_defined_containers(host: &Host, path: &str) -> (r: Result<Vec<String>, Error>)
    requires
        host.wf(),
    ensures
        r is Ok <==> (!path@.contains('\0') && encode_utf8(path@).len() <= MAX_PATH_LEN),
        (r matches Ok(v) ==> {
            let sel = selected_names(host@.entries, encode_utf8(path@), true, false);
            &&& v@.len() == sel.len()
            &&& (forall|k: int| 0 <= k < sel.len() ==> (#[trigger] v@[k])@ == decode_utf8(sel[k]))
        }),
        path@.contains('\0') ==> (r matches Err(e) && e is Encoding),
{
    list_by(host, path, true, false)
}

} // verus!
