//! The association store behind the modeled native object's namespaces of
//! configuration and cgroup items: an ordered list of key/value pairs with
//! distinct keys, held as null-terminated buffers the way the native side
//! stores them.

use crate::cbuf::CBuf;
use vstd::prelude::*;

verus! {

/// The store as the specification sees it: content bytes of each pair.
pub open spec fn store_view(m: Seq<(CBuf, CBuf)>) -> Seq<(Seq<u8>, Seq<u8>)> {
    m.map(|i: int, p: (CBuf, CBuf)| (p.0@, p.1@))
}

/// Value under the first occurrence of `k`, if any.
pub open spec fn kv_get(m: Seq<(Seq<u8>, Seq<u8>)>, k: Seq<u8>) -> Option<Seq<u8>>
    decreases m.len(),
{
    if m.len() == 0 {
        None
    } else if m[0].0 == k {
        Some(m[0].1)
    } else {
        kv_get(m.drop_first(), k)
    }
}

/// No key occurs twice.
pub open spec fn keys_unique(m: Seq<(Seq<u8>, Seq<u8>)>) -> bool {
    forall|i: int, j: int| 0 <= i < j < m.len() ==> m[i].0 != m[j].0
}

/// A key misses exactly when no pair carries it.
pub proof fn lemma_kv_get_none(m: Seq<(Seq<u8>, Seq<u8>)>, k: Seq<u8>)
    ensures
        kv_get(m, k) is None <==> (forall|i: int| 0 <= i < m.len() ==> m[i].0 != k),
    decreases m.len(),
{
    if m.len() > 0 {
        lemma_kv_get_none(m.drop_first(), k);
        if kv_get(m, k) is None {
            assert forall|i: int| 0 <= i < m.len() implies m[i].0 != k by {
                if i >= 1 {
                    assert(m.drop_first()[i - 1].0 != k);
                }
            }
        }
        if forall|i: int| 0 <= i < m.len() ==> m[i].0 != k {
            assert forall|j: int| 0 <= j < m.drop_first().len() implies m.drop_first()[j].0
                != k by {
                assert(m[j + 1].0 != k);
            }
        }
    }
}

/// Looking a key up after the matching pair at `i` is replaced: the new
/// value is found under `k`, every other key is untouched.
pub proof fn lemma_kv_update(m: Seq<(Seq<u8>, Seq<u8>)>, i: int, k: Seq<u8>, v: Seq<u8>)
    requires
        0 <= i < m.len(),
        m[i].0 == k,
        forall|j: int| 0 <= j < i ==> m[j].0 != k,
    ensures
        kv_get(m.update(i, (k, v)), k) == Some(v),
        forall|k2: Seq<u8>|
            k2 != k ==> #[trigger] kv_get(m.update(i, (k, v)), k2) == kv_get(m, k2),
    decreases i,
{
    let m2 = m.update(i, (k, v));
    if i == 0 {
        assert(m2[0] == (k, v));
        assert(m2.drop_first() =~= m.drop_first());
        assert forall|k2: Seq<u8>| k2 != k implies #[trigger] kv_get(m2, k2) == kv_get(m, k2) by {
            assert(m[0].0 == k);
            assert(kv_get(m2, k2) == kv_get(m2.drop_first(), k2));
            assert(kv_get(m, k2) == kv_get(m.drop_first(), k2));
        }
    } else {
        assert(m2[0] == m[0]);
        assert(m2.drop_first() =~= m.drop_first().update(i - 1, (k, v)));
        assert forall|j: int| 0 <= j < i - 1 implies #[trigger] m.drop_first()[j].0 != k by {
            assert(m[j + 1].0 != k);
        }
        lemma_kv_update(m.drop_first(), i - 1, k, v);
        assert(m[0].0 != k);
        assert(kv_get(m2, k) == kv_get(m2.drop_first(), k));
        assert(kv_get(m2, k) == Some(v));
        assert forall|k2: Seq<u8>| k2 != k implies #[trigger] kv_get(m2, k2) == kv_get(m, k2) by {
            if m[0].0 == k2 {
                assert(kv_get(m2, k2) == Some(m2[0].1));
                assert(kv_get(m, k2) == Some(m[0].1));
            } else {
                assert(kv_get(m2, k2) == kv_get(m2.drop_first(), k2));
                assert(kv_get(m, k2) == kv_get(m.drop_first(), k2));
                assert(kv_get(m.drop_first().update(i - 1, (k, v)), k2) == kv_get(
                    m.drop_first(),
                    k2,
                ));
            }
        }
    }
}

/// Looking a key up after a missing pair is appended: the new value is found
/// under `k`, every other key is untouched, and distinctness is kept.
pub proof fn lemma_kv_push(m: Seq<(Seq<u8>, Seq<u8>)>, k: Seq<u8>, v: Seq<u8>)
    requires
        kv_get(m, k) is None,
    ensures
        kv_get(m.push((k, v)), k) == Some(v),
        forall|k2: Seq<u8>| k2 != k ==> #[trigger] kv_get(m.push((k, v)), k2) == kv_get(m, k2),
        keys_unique(m) ==> keys_unique(m.push((k, v))),
    decreases m.len(),
{
    let m2 = m.push((k, v));
    lemma_kv_get_none(m, k);
    if m.len() == 0 {
        assert(m2[0] == (k, v));
        assert(m2.drop_first() =~= m);
        assert forall|k2: Seq<u8>| k2 != k implies #[trigger] kv_get(m2, k2) == kv_get(m, k2) by {
            assert(kv_get(m2, k2) == kv_get(m2.drop_first(), k2));
        }
    } else {
        assert(m2[0] == m[0]);
        assert(m2.drop_first() =~= m.drop_first().push((k, v)));
        assert(kv_get(m.drop_first(), k) is None) by {
            assert(m[0].0 != k);
        }
        lemma_kv_push(m.drop_first(), k, v);
        assert(m[0].0 != k);
        assert(kv_get(m2, k) == kv_get(m2.drop_first(), k));
        assert forall|k2: Seq<u8>| k2 != k implies #[trigger] kv_get(m2, k2) == kv_get(m, k2) by {
            if m[0].0 == k2 {
                assert(kv_get(m2, k2) == Some(m2[0].1));
                assert(kv_get(m, k2) == Some(m[0].1));
            } else {
                assert(kv_get(m2, k2) == kv_get(m2.drop_first(), k2));
                assert(kv_get(m, k2) == kv_get(m.drop_first(), k2));
                assert(kv_get(m.drop_first().push((k, v)), k2) == kv_get(m.drop_first(), k2));
            }
        }
    }
    if keys_unique(m) {
        assert forall|i: int, j: int| 0 <= i < j < m2.len() implies m2[i].0 != m2[j].0 by {
            if j < m.len() {
                assert(m[i].0 != m[j].0);
            } else {
                assert(m2[j] == (k, v));
                assert(m[i].0 != k);
            }
        }
    }
}

/// Looking a key up after the matching pair at `i` is removed: the key is
/// gone (keys being distinct), every other key is untouched.
pub proof fn lemma_kv_remove(m: Seq<(Seq<u8>, Seq<u8>)>, i: int, k: Seq<u8>)
    requires
        0 <= i < m.len(),
        m[i].0 == k,
        keys_unique(m),
    ensures
        kv_get(m.remove(i), k) is None,
        forall|k2: Seq<u8>| k2 != k ==> #[trigger] kv_get(m.remove(i), k2) == kv_get(m, k2),
        keys_unique(m.remove(i)),
    decreases i,
{
    let m2 = m.remove(i);
    assert(forall|j: int| 0 <= j < i ==> m2[j] == m[j]);
    assert(forall|j: int| i <= j < m2.len() ==> m2[j] == m[j + 1]);
    assert(kv_get(m2, k) is None) by {
        lemma_kv_get_none(m2, k);
        assert forall|j: int| 0 <= j < m2.len() implies m2[j].0 != k by {
            if j < i {
                assert(m[j].0 != m[i].0);
            } else {
                assert(m[i].0 != m[j + 1].0);
            }
        }
    }
    if i == 0 {
        assert(m2 =~= m.drop_first());
        assert forall|k2: Seq<u8>| k2 != k implies #[trigger] kv_get(m2, k2) == kv_get(m, k2) by {
            assert(m[0].0 == k);
            assert(kv_get(m, k2) == kv_get(m.drop_first(), k2));
        }
    } else {
        assert(m2[0] == m[0]);
        assert(m2.drop_first() =~= m.drop_first().remove(i - 1));
        assert(forall|a: int, b: int|
            0 <= a < b < m.drop_first().len() ==> #[trigger] m.drop_first()[a].0
                != #[trigger] m.drop_first()[b].0);
        lemma_kv_remove(m.drop_first(), i - 1, k);
        assert(m[0].0 != k) by {
            assert(m[0].0 != m[i].0);
        }
        assert forall|k2: Seq<u8>| k2 != k implies #[trigger] kv_get(m2, k2) == kv_get(m, k2) by {
            if m[0].0 == k2 {
                assert(kv_get(m2, k2) == Some(m2[0].1));
                assert(kv_get(m, k2) == Some(m[0].1));
            } else {
                assert(kv_get(m2, k2) == kv_get(m2.drop_first(), k2));
                assert(kv_get(m, k2) == kv_get(m.drop_first(), k2));
                assert(kv_get(m.drop_first().remove(i - 1), k2) == kv_get(m.drop_first(), k2));
            }
        }
    }
}

/// A found value really sits in the store, under its key.
pub proof fn lemma_kv_get_some(m: Seq<(Seq<u8>, Seq<u8>)>, k: Seq<u8>)
    ensures
        (kv_get(m, k) matches Some(v) ==> exists|i: int|
            0 <= i < m.len() && #[trigger] m[i] == (k, v)),
    decreases m.len(),
{
    if m.len() > 0 {
        if m[0].0 == k {
            assert(m[0] == (k, m[0].1));
        } else {
            lemma_kv_get_some(m.drop_first(), k);
            if kv_get(m, k) is Some {
                let v = kv_get(m, k)->0;
                let i = choose|i: int| 0 <= i < m.drop_first().len() && #[trigger] m.drop_first()[i]
                    == (k, v);
                assert(m[i + 1] == (k, v));
            }
        }
    }
}

/// Finds the first pair carrying `k`, with everything a caller needs to use
/// the update and removal lemmas on it.
pub fn kv_find(m: &Vec<(CBuf, CBuf)>, k: &CBuf) -> (r: Option<usize>)
    ensures
        r matches Some(i) ==> {
            &&& 0 <= i < m@.len()
            &&& store_view(m@)[i as int].0 == k@
            &&& forall|j: int| 0 <= j < i ==> store_view(m@)[j].0 != k@
            &&& kv_get(store_view(m@), k@) == Some(store_view(m@)[i as int].1)
        },
        r is None ==> kv_get(store_view(m@), k@) is None,
{
    let n = m.len();
    let mut i: usize = 0;
    while i < n
        invariant
            n == m@.len(),
            i <= n,
            forall|j: int| 0 <= j < i ==> store_view(m@)[j].0 != k@,
        decreases n - i,
    {
        if m[i].0.content_eq(k) {
            proof {
                assert(store_view(m@)[i as int].0 == k@);
                lemma_kv_get_skip(store_view(m@), k@, i as int);
                assert(store_view(m@).skip(i as int)[0] == store_view(m@)[i as int]);
            }
            return Some(i);
        }
        proof {
            assert(store_view(m@)[i as int].0 == m@[i as int].0@);
        }
        i += 1;
    }
    proof {
        lemma_kv_get_none(store_view(m@), k@);
    }
    None
}

/// The newline-joined listing of the keys that start with `p`, in store
/// order: what the native key-listing call writes into its buffer.
pub open spec fn keys_with_prefix(m: Seq<(Seq<u8>, Seq<u8>)>, p: Seq<u8>) -> Seq<u8>
    decreases m.len(),
{
    if m.len() == 0 {
        Seq::empty()
    } else {
        (if p.is_prefix_of(m[0].0) {
            m[0].0 + seq![10u8]
        } else {
            Seq::<u8>::empty()
        }) + keys_with_prefix(m.drop_first(), p)
    }
}

/// Unfolds the listing from the back: the last pair contributes last.
pub proof fn lemma_keys_with_prefix_snoc(m: Seq<(Seq<u8>, Seq<u8>)>, p: Seq<u8>)
    requires
        m.len() > 0,
    ensures
        keys_with_prefix(m, p) == keys_with_prefix(m.drop_last(), p) + (if p.is_prefix_of(
            m.last().0,
        ) {
            m.last().0 + seq![10u8]
        } else {
            Seq::<u8>::empty()
        }),
    decreases m.len(),
{
    let first_part = if p.is_prefix_of(m[0].0) {
        m[0].0 + seq![10u8]
    } else {
        Seq::<u8>::empty()
    };
    let last_part = if p.is_prefix_of(m.last().0) {
        m.last().0 + seq![10u8]
    } else {
        Seq::<u8>::empty()
    };
    if m.len() == 1 {
        assert(m.drop_first() =~= Seq::<(Seq<u8>, Seq<u8>)>::empty());
        assert(m.drop_last() =~= Seq::<(Seq<u8>, Seq<u8>)>::empty());
        assert(m.last() == m[0]);
        assert(first_part + Seq::<u8>::empty() =~= first_part);
        assert(Seq::<u8>::empty() + last_part =~= last_part);
    } else {
        lemma_keys_with_prefix_snoc(m.drop_first(), p);
        assert(m.drop_first().last() == m.last());
        assert(m.drop_first().drop_last() =~= m.drop_last().drop_first());
        assert(m.drop_last()[0] == m[0]);
        assert(keys_with_prefix(m.drop_last(), p) == first_part + keys_with_prefix(
            m.drop_last().drop_first(),
            p,
        ));
        assert(first_part + (keys_with_prefix(m.drop_last().drop_first(), p) + last_part)
            =~= (first_part + keys_with_prefix(m.drop_last().drop_first(), p)) + last_part);
    }
}

/// The listing is no longer than one maximal key and separator per pair.
pub proof fn lemma_keys_with_prefix_len(m: Seq<(Seq<u8>, Seq<u8>)>, p: Seq<u8>, bound: int)
    requires
        bound >= 0,
        forall|i: int| 0 <= i < m.len() ==> (#[trigger] m[i]).0.len() <= bound,
    ensures
        keys_with_prefix(m, p).len() <= m.len() * (bound + 1),
    decreases m.len(),
{
    if m.len() == 0 {
    } else {
        assert(forall|i: int|
            0 <= i < m.drop_first().len() ==> (#[trigger] m.drop_first()[i]).0 == m[i + 1].0);
        lemma_keys_with_prefix_len(m.drop_first(), p, bound);
        assert(m[0].0.len() <= bound);
        assert((m.len() - 1) * (bound + 1) + (bound + 1) == m.len() * (bound + 1))
            by (nonlinear_arith);
    }
}

/// The listing stays readable text when the keys are: valid UTF-8 and free
/// of null bytes.
pub proof fn lemma_keys_with_prefix_text(m: Seq<(Seq<u8>, Seq<u8>)>, p: Seq<u8>)
    requires
        forall|i: int|
            0 <= i < m.len() ==> vstd::utf8::valid_utf8((#[trigger] m[i]).0) && !m[i].0.contains(
                0u8,
            ),
    ensures
        vstd::utf8::valid_utf8(keys_with_prefix(m, p)),
        !keys_with_prefix(m, p).contains(0u8),
    decreases m.len(),
{
    lemma_newline_byte();
    if m.len() == 0 {
    } else {
        assert(forall|i: int|
            0 <= i < m.drop_first().len() ==> (#[trigger] m.drop_first()[i]).0 == m[i + 1].0);
        lemma_keys_with_prefix_text(m.drop_first(), p);
        let head_part = if p.is_prefix_of(m[0].0) {
            m[0].0 + seq![10u8]
        } else {
            Seq::<u8>::empty()
        };
        let rest = keys_with_prefix(m.drop_first(), p);
        assert(m[0].0.len() >= 0);
        assert(vstd::utf8::valid_utf8(head_part)) by {
            broadcast use vstd::utf8::valid_utf8_concat;

            assert(vstd::utf8::valid_utf8(m[0].0));
        }
        assert(vstd::utf8::valid_utf8(head_part + rest)) by {
            broadcast use vstd::utf8::valid_utf8_concat;

        }
        assert(!(head_part + rest).contains(0u8)) by {
            if (head_part + rest).contains(0u8) {
                let k = choose|k: int| 0 <= k < (head_part + rest).len() && (head_part + rest)[k]
                    == 0u8;
                if k < head_part.len() {
                    if k < m[0].0.len() {
                        assert(m[0].0[k] == 0u8);
                        assert(m[0].0.contains(0u8));
                    }
                } else {
                    assert(rest[k - head_part.len()] == 0u8);
                    assert(rest.contains(0u8));
                }
            }
        }
    }
}

/// The single newline byte is the encoding of the newline character, hence
/// valid UTF-8 on its own.
proof fn lemma_newline_byte()
    ensures
        seq![10u8] == vstd::utf8::encode_utf8("\n"@),
        vstd::utf8::valid_utf8(seq![10u8]),
{
    reveal_strlit("\n");
    assert(forall|i: int| 0 <= i < "\n"@.len() ==> '\0' <= #[trigger] "\n"@[i] <= '\u{7f}');
    vstd::utf8::is_ascii_chars_encode_utf8("\n"@);
    assert(seq![10u8] =~= vstd::utf8::encode_utf8("\n"@));
    vstd::utf8::encode_utf8_valid_utf8("\n"@);
}

/// Builds the newline-joined listing of the keys that start with `prefix`.
pub fn collect_keys(m: &Vec<(CBuf, CBuf)>, prefix: &CBuf) -> (r: Vec<u8>)
    ensures
        r@ == keys_with_prefix(store_view(m@), prefix@),
{
    let n = m.len();
    let mut out: Vec<u8> = Vec::new();
    let mut i: usize = 0;
    while i < n
        invariant
            n == m@.len(),
            i <= n,
            out@ == keys_with_prefix(store_view(m@).take(i as int), prefix@),
        decreases n - i,
    {
        let ghost sv = store_view(m@);
        let ghost before = out@;
        proof {
            assert(sv.take(i as int + 1).drop_last() =~= sv.take(i as int));
            assert(sv.take(i as int + 1).last() == sv[i as int]);
            lemma_keys_with_prefix_snoc(sv.take(i as int + 1), prefix@);
            assert(sv[i as int].0 == m@[i as int].0@);
        }
        if m[i].0.starts_with(prefix) {
            m[i].0.append_content_to(&mut out);
            out.push(10u8);
            proof {
                assert(out@ =~= before + (sv[i as int].0 + seq![10u8]));
            }
        } else {
            proof {
                assert(out@ =~= before + Seq::<u8>::empty());
            }
        }
        i += 1;
    }
    proof {
        assert(store_view(m@).take(n as int) =~= store_view(m@));
    }
    out
}

/// Walking past pairs that do not carry `k` does not change what is found.
proof fn lemma_kv_get_skip(m: Seq<(Seq<u8>, Seq<u8>)>, k: Seq<u8>, i: int)
    requires
        0 <= i <= m.len(),
        forall|j: int| 0 <= j < i ==> m[j].0 != k,
    ensures
        kv_get(m, k) == kv_get(m.skip(i), k),
    decreases i,
{
    if i == 0 {
        assert(m.skip(0) =~= m);
    } else {
        assert(m[0].0 != k);
        assert(m.drop_first().skip(i - 1) =~= m.skip(i));
        assert forall|j: int| 0 <= j < i - 1 implies #[trigger] m.drop_first()[j].0 != k by {
            assert(m[j + 1].0 != k);
        }
        lemma_kv_get_skip(m.drop_first(), k, i - 1);
        assert(kv_get(m, k) == kv_get(m.drop_first(), k));
    }
}

} // verus!
