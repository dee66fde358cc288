//! The array bridge: argument vectors crossing the foreign boundary as
//! null-terminated arrays.
//!
//! A foreign argument vector carries no length; its end is a null sentinel
//! entry.  [`Nta`] models such an array slot by slot, so that entries past
//! the sentinel can exist and be shown irrelevant.  [`to_foreign_argv`]
//! builds one from host strings, mapping an empty vector to a null array
//! pointer (`None`) as the native convention asks.  [`from_foreign_nta`]
//! walks the slots one at a time and stops at the first sentinel, never
//! reading past it.

use crate::cbuf::{from_foreign, to_foreign, CBuf};
use crate::error::Error;
use vstd::prelude::*;
use vstd::utf8::{decode_utf8, encode_utf8, valid_utf8};

verus! {

/// A null-terminated array of foreign strings, modeled slot by slot: a slot
/// is either a string or the null sentinel, and slots may follow the first
/// sentinel without taking part in any operation.
#[derive(Debug)]
pub struct Nta {
    pub slots: Vec<Option<CBuf>>,
}

impl View for Nta {
    type V = Seq<Option<Seq<u8>>>;

    open spec fn view(&self) -> Seq<Option<Seq<u8>>> {
        self.slots@.map(
            |i: int, s: Option<CBuf>|
                match s {
                    Some(c) => Some(c@),
                    None => None,
                },
        )
    }
}

/// True when the array carries a sentinel at all: the foreign contract every
/// null-terminated array must meet, and the only thing that keeps a walk of
/// the array from running off its end.
pub open spec fn terminated(slots: Seq<Option<Seq<u8>>>) -> bool {
    exists|i: int| 0 <= i < slots.len() && slots[i] is None
}

/// Index of the first sentinel slot.
pub open spec fn sentinel(slots: Seq<Option<Seq<u8>>>) -> int
    decreases slots.len(),
{
    if slots.len() == 0 {
        0
    } else if slots[0] is None {
        0
    } else {
        1 + sentinel(slots.drop_first())
    }
}

/// The string contents before the first sentinel: everything a correct walk
/// of the array may read.
pub open spec fn entries(slots: Seq<Option<Seq<u8>>>) -> Seq<Seq<u8>> {
    slots.take(sentinel(slots)).map(|i: int, s: Option<Seq<u8>>| s->0)
}

/// What the first sentinel bounds: it exists, nothing before it is a
/// sentinel, and each entry before it is the slot's string.
pub proof fn lemma_sentinel(slots: Seq<Option<Seq<u8>>>)
    requires
        terminated(slots),
    ensures
        0 <= sentinel(slots) < slots.len(),
        slots[sentinel(slots)] is None,
        forall|k: int| 0 <= k < sentinel(slots) ==> slots[k] is Some,
        entries(slots).len() == sentinel(slots),
        forall|k: int| 0 <= k < sentinel(slots) ==> entries(slots)[k] == slots[k]->0,
    decreases slots.len(),
{
    if slots.len() == 0 {
    } else if slots[0] is None {
    } else {
        assert(terminated(slots.drop_first())) by {
            let i = choose|i: int| 0 <= i < slots.len() && slots[i] is None;
            assert(slots.drop_first()[i - 1] is None);
        }
        lemma_sentinel(slots.drop_first());
        assert(forall|k: int|
            0 <= k < sentinel(slots) ==> #[trigger] slots[k] == if k == 0 {
                slots[0]
            } else {
                slots.drop_first()[k - 1]
            });
    }
}

/// The sentinel sits exactly where the slots switch from strings to null.
pub proof fn lemma_sentinel_at(slots: Seq<Option<Seq<u8>>>, n: int)
    requires
        0 <= n < slots.len(),
        forall|k: int| 0 <= k < n ==> slots[k] is Some,
        slots[n] is None,
    ensures
        terminated(slots),
        sentinel(slots) == n,
    decreases n,
{
    assert(terminated(slots));
    if n > 0 {
        assert(forall|k: int| 0 <= k < n - 1 ==> slots.drop_first()[k] == slots[k + 1]);
        lemma_sentinel_at(slots.drop_first(), n - 1);
    }
}

/// An array whose first slot is the sentinel holds no entries: a walk of it
/// reads nothing, whatever sits in the later slots.
pub proof fn lemma_leading_sentinel_empty(slots: Seq<Option<Seq<u8>>>)
    requires
        slots.len() > 0,
        slots[0] is None,
    ensures
        terminated(slots),
        sentinel(slots) == 0,
        entries(slots) =~= Seq::<Seq<u8>>::empty(),
{
    lemma_sentinel_at(slots, 0);
}

/// The slot sequence [`to_foreign_argv`] builds for the given texts: one
/// string slot per text, then the sentinel.
pub open spec fn argv_slots(items: Seq<Seq<char>>) -> Seq<Option<Seq<u8>>> {
    items.map(|i: int, t: Seq<char>| Some(encode_utf8(t))).push(None)
}

/// The slot sequence of a null-terminated array carrying the given strings:
/// one slot per string, then the sentinel.
pub open spec fn nta_of(items: Seq<Seq<u8>>) -> Seq<Option<Seq<u8>>> {
    items.map(|i: int, b: Seq<u8>| Some(b)).push(None)
}

/// Builds the null-terminated argument vector carrying `items`.  An empty
/// vector becomes a null array pointer (`None`), the conventional "no
/// arguments" signal; otherwise every item becomes a string slot, in order,
/// with the sentinel after the last.  Fails with an encoding error exactly
/// when some item holds an embedded null.
pub fn to_foreign_argv(items: &Vec<String>) -> (r: Result<Option<Nta>, Error>)
    ensures
        r is Ok <==> (forall|k: int|
            0 <= k < items@.len() ==> !(#[trigger] items@[k])@.contains('\0')),
        r matches Ok(o) ==> ((o is None) <==> items@.len() == 0),
        r matches Ok(Some(a)) ==> a@ == argv_slots(items.deep_view()),
        r matches Err(e) ==> e is Encoding,
{
    if items.len() == 0 {
        return Ok(None);
    }
    let mut slots: Vec<Option<CBuf>> = Vec::new();
    let n = items.len();
    let mut i: usize = 0;
    while i < n
        invariant
            n == items@.len(),
            i <= n,
            slots@.len() == i,
            forall|k: int| 0 <= k < i ==> !(#[trigger] items@[k])@.contains('\0'),
            forall|k: int|
                0 <= k < i ==> (#[trigger] slots@[k] matches Some(c) && c@ == encode_utf8(
                    items@[k]@,
                )),
        decreases n - i,
    {
        match to_foreign(items[i].as_str()) {
            Ok(c) => {
                slots.push(Some(c));
            },
            Err(_) => {
                return Err(Error::Encoding);
            },
        }
        i += 1;
    }
    slots.push(None);
    let nta = Nta { slots };
    proof {
        assert(nta@ =~= argv_slots(items.deep_view()));
    }
    Ok(Some(nta))
}

/// Walks a null-terminated array one slot at a time, copying each foreign
/// string into host text, and stops at the first sentinel; slots past the
/// sentinel play no part.  Fails with an encoding error exactly when some
/// entry before the sentinel is not valid UTF-8.
pub fn from_foreign_nta(arr: &Nta) -> (r: Result<Vec<String>, Error>)
    requires
        terminated(arr@),
    ensures
        r is Ok <==> (forall|k: int|
            0 <= k < sentinel(arr@) ==> valid_utf8(#[trigger] entries(arr@)[k])),
        r matches Ok(v) ==> {
            &&& v@.len() == sentinel(arr@)
            &&& forall|k: int|
                0 <= k < sentinel(arr@) ==> (#[trigger] v@[k])@ == decode_utf8(entries(arr@)[k])
        },
        r matches Err(e) ==> e is Encoding,
{
    proof {
        lemma_sentinel(arr@);
    }
    let n = arr.slots.len();
    let mut out: Vec<String> = Vec::new();
    let mut i: usize = 0;
    loop
        invariant
            terminated(arr@),
            n == arr.slots@.len(),
            0 <= sentinel(arr@) < n,
            arr@[sentinel(arr@)] is None,
            forall|k: int| 0 <= k < sentinel(arr@) ==> arr@[k] is Some,
            forall|k: int| 0 <= k < sentinel(arr@) ==> entries(arr@)[k] == arr@[k]->0,
            entries(arr@).len() == sentinel(arr@),
            i <= sentinel(arr@),
            out@.len() == i,
            forall|k: int| 0 <= k < i ==> valid_utf8(#[trigger] entries(arr@)[k]),
            forall|k: int| 0 <= k < i ==> (#[trigger] out@[k])@ == decode_utf8(entries(arr@)[k]),
        ensures
            i == sentinel(arr@),
            out@.len() == i,
            forall|k: int| 0 <= k < i ==> valid_utf8(#[trigger] entries(arr@)[k]),
            forall|k: int| 0 <= k < i ==> (#[trigger] out@[k])@ == decode_utf8(entries(arr@)[k]),
        decreases sentinel(arr@) - i,
    {
        match &arr.slots[i] {
            Some(c) => {
                proof {
                    assert(arr@[i as int] matches Some(b) && b == c@);
                    assert(i < sentinel(arr@));
                }
                match from_foreign(c) {
                    Ok(s) => {
                        out.push(s);
                    },
                    Err(_) => {
                        proof {
                            assert(entries(arr@)[i as int] == c@);
                            assert(!valid_utf8(entries(arr@)[i as int]));
                        }
                        return Err(Error::Encoding);
                    },
                }
                i += 1;
            },
            None => {
                proof {
                    assert(arr@[i as int] is None);
                    assert(i == sentinel(arr@));
                }
                break;
            },
        }
    }
    Ok(out)
}

/// The round trip of the array bridge: a vector of texts without embedded
/// nulls, built into a null-terminated array and walked back, yields exactly
/// the original texts in order.  Over the contracts of [`to_foreign_argv`]
/// and [`from_foreign_nta`], the built array is terminated directly after
/// the last entry and each entry decodes to its text.
pub proof fn lemma_argv_round_trip(items: Seq<Seq<char>>)
    requires
        forall|k: int| 0 <= k < items.len() ==> !(#[trigger] items[k]).contains('\0'),
    ensures
        terminated(argv_slots(items)),
        sentinel(argv_slots(items)) == items.len(),
        entries(argv_slots(items)).len() == items.len(),
        forall|k: int|
            0 <= k < items.len() ==> valid_utf8(#[trigger] entries(argv_slots(items))[k]),
        forall|k: int|
            0 <= k < items.len() ==> decode_utf8(#[trigger] entries(argv_slots(items))[k])
                == items[k],
{
    let slots = argv_slots(items);
    assert(forall|k: int| 0 <= k < items.len() ==> slots[k] is Some);
    assert(slots[items.len() as int] is None);
    lemma_sentinel_at(slots, items.len() as int);
    lemma_sentinel(slots);
    assert forall|k: int| 0 <= k < items.len() implies valid_utf8(
        #[trigger] entries(slots)[k],
    ) && decode_utf8(entries(slots)[k]) == items[k] by {
        assert(entries(slots)[k] == encode_utf8(items[k]));
        crate::cbuf::lemma_text_round_trip(items[k]);
    }
}

} // verus!
