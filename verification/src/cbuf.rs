//! The string bridge: host text crossing the foreign boundary in both
//! directions.
//!
//! Outbound, [`to_foreign`] turns host text into an owned null-terminated
//! byte buffer ([`CBuf`]); it fails exactly when the text holds an embedded
//! null, which the foreign representation cannot carry.  Inbound,
//! [`from_foreign`] copies the bytes of such a buffer up to the terminator
//! and fails exactly when they are not valid UTF-8.
//! [`lemma_text_round_trip`] states the round trip: text without embedded
//! nulls survives the crossing unchanged.

use crate::error::Error;
use vstd::prelude::*;
use vstd::string::StrSliceExecFns;
use vstd::utf8::{
    char_is_scalar, char_u32_cast, decode_utf8, encode_scalar, encode_utf8,
    encode_utf8_decode_utf8, encode_utf8_valid_utf8, has_width_1_encoding, is_scalar, valid_utf8,
};

verus! {

/// An owned, null-terminated byte buffer: the representation in which text
/// is handed to the foreign side.  The terminator is stored; the view is the
/// content before it, which never holds a null byte.
#[derive(Debug)]
pub struct CBuf {
    bytes: Vec<u8>,
}

impl View for CBuf {
    type V = Seq<u8>;

    closed spec fn view(&self) -> Seq<u8> {
        self.bytes@.take(self.bytes@.len() - 1)
    }
}

impl CBuf {
    /// Exactly one null byte, at the end.
    #[verifier::type_invariant]
    spec fn wf(&self) -> bool {
        &&& self.bytes@.len() >= 1
        &&& self.bytes@.last() == 0u8
        &&& forall|i: int| 0 <= i < self.bytes@.len() - 1 ==> self.bytes@[i] != 0u8
    }

    /// The buffer holding only the terminator: the empty foreign string.
    pub fn empty() -> (r: CBuf)
        ensures
            r@ =~= Seq::<u8>::empty(),
    {
        let mut bytes: Vec<u8> = Vec::new();
        bytes.push(0u8);
        CBuf { bytes }
    }

    /// Wraps raw content bytes as a terminated buffer; `None` when a null
    /// byte sits in the content, which the representation cannot carry.
    pub fn from_content(content: Vec<u8>) -> (r: Option<CBuf>)
        ensures
            r is Some <==> !content@.contains(0u8),
            r matches Some(c) ==> c@ == content@,
    {
        let n = content.len();
        let mut i: usize = 0;
        while i < n
            invariant
                n == content@.len(),
                i <= n,
                forall|k: int| 0 <= k < i ==> content@[k] != 0u8,
            decreases n - i,
        {
            if content[i] == 0u8 {
                proof {
                    assert(content@.contains(0u8));
                }
                return None;
            }
            i += 1;
        }
        proof {
            assert(!content@.contains(0u8)) by {
                if content@.contains(0u8) {
                    let k = choose|k: int| 0 <= k < n && content@[k] == 0u8;
                    assert(content@[k] != 0u8);
                }
            }
        }
        let ghost before = content@;
        let mut bytes = content;
        bytes.push(0u8);
        let buf = CBuf { bytes };
        proof {
            assert(buf@ =~= before);
        }
        Some(buf)
    }

    /// Length of the content, terminator excluded.
    pub fn len(&self) -> (r: usize)
        ensures
            r == self@.len(),
    {
        proof {
            use_type_invariant(self);
        }
        self.bytes.len() - 1
    }

    /// The stored bytes as the foreign side sees them: content, then the
    /// terminator.
    pub fn raw_bytes(&self) -> (r: Vec<u8>)
        ensures
            r@ == self@ + seq![0u8],
    {
        proof {
            use_type_invariant(self);
            assert(self.bytes@ =~= self@ + seq![0u8]);
        }
        vstd::slice::slice_to_vec(self.bytes.as_slice())
    }

    /// The content byte at `i`.
    pub fn byte_at(&self, i: usize) -> (r: u8)
        requires
            i < self@.len(),
        ensures
            r == self@[i as int],
    {
        proof {
            use_type_invariant(self);
        }
        self.bytes[i]
    }

    /// Whether the content holds the byte `b`.
    pub fn contains_byte(&self, b: u8) -> (r: bool)
        ensures
            r == self@.contains(b),
    {
        proof {
            use_type_invariant(self);
        }
        let n = self.bytes.len() - 1;
        let mut i: usize = 0;
        while i < n
            invariant
                self.wf(),
                n == self@.len(),
                n == self.bytes@.len() - 1,
                i <= n,
                forall|k: int| 0 <= k < i ==> self@[k] != b,
            decreases n - i,
        {
            if self.bytes[i] == b {
                proof {
                    assert(self@[i as int] == b);
                }
                return true;
            }
            proof {
                assert(self@[i as int] == self.bytes@[i as int]);
            }
            i += 1;
        }
        proof {
            assert(!self@.contains(b)) by {
                if self@.contains(b) {
                    let k = choose|k: int| 0 <= k < self@.len() && self@[k] == b;
                    assert(self@[k] != b);
                }
            }
        }
        false
    }

    /// Appends the content (terminator excluded) to `out`.
    pub fn append_content_to(&self, out: &mut Vec<u8>)
        ensures
            final(out)@ == old(out)@ + self@,
    {
        proof {
            use_type_invariant(self);
        }
        let n = self.bytes.len() - 1;
        let mut i: usize = 0;
        while i < n
            invariant
                self.wf(),
                n == self@.len(),
                n == self.bytes@.len() - 1,
                i <= n,
                out@ == old(out)@ + self@.take(i as int),
            decreases n - i,
        {
            proof {
                assert(self.bytes@[i as int] == self@[i as int]);
                assert(old(out)@ + self@.take(i as int + 1) =~= (old(out)@ + self@.take(i as int)).push(
                    self@[i as int],
                ));
            }
            out.push(self.bytes[i]);
            i += 1;
        }
        proof {
            assert(self@.take(n as int) =~= self@);
        }
    }

    /// Whether this content starts with the content of `p`.
    pub fn starts_with(&self, p: &CBuf) -> (r: bool)
        ensures
            r == p@.is_prefix_of(self@),
    {
        proof {
            use_type_invariant(self);
            use_type_invariant(p);
        }
        let plen = p.len();
        if plen > self.len() {
            return false;
        }
        let mut i: usize = 0;
        while i < plen
            invariant
                self.wf(),
                p.wf(),
                plen == p@.len(),
                plen <= self@.len(),
                i <= plen,
                forall|k: int| 0 <= k < i ==> self@[k] == p@[k],
            decreases plen - i,
        {
            if self.byte_at(i) != p.byte_at(i) {
                proof {
                    assert(self@.take(plen as int)[i as int] != p@[i as int]);
                }
                return false;
            }
            i += 1;
        }
        proof {
            assert(self@.take(plen as int) =~= p@);
        }
        true
    }

    /// Content equality, byte for byte.
    pub fn content_eq(&self, other: &CBuf) -> (r: bool)
        ensures
            r == (self@ == other@),
    {
        proof {
            use_type_invariant(self);
            use_type_invariant(other);
        }
        if self.bytes.len() != other.bytes.len() {
            proof {
                assert(self@.len() != other@.len());
            }
            return false;
        }
        let n = self.bytes.len();
        let mut i: usize = 0;
        while i < n
            invariant
                self.wf(),
                other.wf(),
                n == self.bytes@.len() == other.bytes@.len(),
                i <= n,
                forall|k: int| 0 <= k < i ==> self.bytes@[k] == other.bytes@[k],
            decreases n - i,
        {
            if self.bytes[i] != other.bytes[i] {
                proof {
                    assert(self@[i as int] != other@[i as int] || i == n - 1);
                }
                return false;
            }
            i += 1;
        }
        proof {
            assert(self@ =~= other@);
        }
        true
    }
}

impl Clone for CBuf {
    /// The copy carries the same content.
    fn clone(&self) -> (r: Self)
        ensures
            r@ == self@,
    {
        proof {
            use_type_invariant(self);
        }
        CBuf { bytes: vstd::slice::slice_to_vec(self.bytes.as_slice()) }
    }
}

/// Builds the null-terminated buffer carrying `text`, the outbound half of
/// the string bridge.  Fails with an encoding error exactly when `text`
/// holds an embedded null, the one thing the foreign representation cannot
/// carry.
pub fn to_foreign(text: &str) -> (r: Result<CBuf, Error>)
    ensures
        r is Ok <==> !text@.contains('\0'),
        r matches Ok(c) ==> c@ == encode_utf8(text@),
        r matches Err(e) ==> e is Encoding,
{
    let mut bytes = text.as_bytes_vec();
    proof {
        lemma_encode_null_free(text@);
    }
    let n = bytes.len();
    let mut i: usize = 0;
    while i < n
        invariant
            n == bytes@.len(),
            bytes@ == encode_utf8(text@),
            i <= n,
            forall|k: int| 0 <= k < i ==> bytes@[k] != 0u8,
        decreases n - i,
    {
        if bytes[i] == 0u8 {
            proof {
                lemma_encode_null_free(text@);
                assert(encode_utf8(text@)[i as int] == 0u8);
                assert(encode_utf8(text@).contains(0u8));
            }
            return Err(Error::Encoding);
        }
        i += 1;
    }
    proof {
        lemma_encode_null_free(text@);
        assert(!encode_utf8(text@).contains(0u8)) by {
            if encode_utf8(text@).contains(0u8) {
                let k = choose|k: int| 0 <= k < n && encode_utf8(text@)[k] == 0u8;
                assert(bytes@[k] != 0u8);
            }
        }
    }
    let ghost content = bytes@;
    bytes.push(0u8);
    let buf = CBuf { bytes };
    proof {
        assert(buf@ =~= content);
    }
    Ok(buf)
}

/// Copies the content of a foreign buffer back into host text, the inbound
/// half of the string bridge.  Walks the bytes one at a time until the
/// terminator and fails with an encoding error exactly when the content is
/// not valid UTF-8.
pub fn from_foreign(buf: &CBuf) -> (r: Result<String, Error>)
    ensures
        r is Ok <==> valid_utf8(buf@),
        r matches Ok(s) ==> s@ == decode_utf8(buf@),
        r matches Err(e) ==> e is Encoding,
{
    proof {
        use_type_invariant(buf);
    }
    let n = buf.bytes.len();
    let mut content: Vec<u8> = Vec::new();
    let mut i: usize = 0;
    loop
        invariant
            buf.wf(),
            n == buf.bytes@.len(),
            i <= n - 1,
            content@ == buf.bytes@.take(i as int),
        ensures
            content@ == buf@,
        decreases n - i,
    {
        let b = buf.bytes[i];
        if b == 0u8 {
            proof {
                assert(i == n - 1) by {
                    if i < n - 1 {
                        assert(buf.bytes@[i as int] != 0u8);
                    }
                }
                assert(buf.bytes@.take(i as int) =~= buf@);
            }
            break;
        }
        content.push(b);
        i += 1;
    }
    match string_from_utf8(content) {
        Some(s) => Ok(s),
        None => Err(Error::Encoding),
    }
}

/// Index of the first null byte in a raw buffer, or the buffer's length
/// when it holds none.
pub open spec fn first_null(b: Seq<u8>) -> int
    decreases b.len(),
{
    if b.len() == 0 {
        0
    } else if b[0] == 0u8 {
        0
    } else {
        1 + first_null(b.drop_first())
    }
}

/// The first null byte sits exactly where the non-null prefix ends.
pub proof fn lemma_first_null_at(b: Seq<u8>, n: int)
    requires
        0 <= n < b.len(),
        b[n] == 0u8,
        forall|k: int| 0 <= k < n ==> b[k] != 0u8,
    ensures
        first_null(b) == n,
    decreases n,
{
    if n > 0 {
        assert(forall|k: int| 0 <= k < n - 1 ==> b.drop_first()[k] == b[k + 1]);
        lemma_first_null_at(b.drop_first(), n - 1);
    }
}

/// Reads a raw foreign buffer as a C string: the bytes up to the first
/// terminator, or `None` when no terminator exists in the buffer at all
/// (such a buffer is not a C string and must not be walked further).
pub fn take_until_null(buf: &Vec<u8>) -> (r: Option<Vec<u8>>)
    ensures
        r is Some <==> buf@.contains(0u8),
        r matches Some(c) ==> c@ == buf@.take(first_null(buf@)),
{
    let n = buf.len();
    let mut out: Vec<u8> = Vec::new();
    let mut i: usize = 0;
    while i < n
        invariant
            n == buf@.len(),
            i <= n,
            out@ == buf@.take(i as int),
            forall|k: int| 0 <= k < i ==> buf@[k] != 0u8,
        decreases n - i,
    {
        if buf[i] == 0u8 {
            proof {
                lemma_first_null_at(buf@, i as int);
                assert(buf@.contains(0u8));
            }
            return Some(out);
        }
        out.push(buf[i]);
        i += 1;
    }
    proof {
        assert(!buf@.contains(0u8)) by {
            if buf@.contains(0u8) {
                let k = choose|k: int| 0 <= k < n && buf@[k] == 0u8;
                assert(buf@[k] != 0u8);
            }
        }
    }
    None
}

/// Relies on `String::from_utf8`: it succeeds exactly on UTF-8 encoded
/// bytes, and the string it returns is the text those bytes encode.
#[verifier::external_body]
pub(crate) fn string_from_utf8(bytes: Vec<u8>) -> (r: Option<String>)
    ensures
        r is Some <==> valid_utf8(bytes@),
        r matches Some(s) ==> s@ == decode_utf8(bytes@),
{
    String::from_utf8(bytes).ok()
}

/// The one-scalar step of [`lemma_encode_null_free`]: the encoding of a
/// non-null scalar has no null byte, and the null scalar encodes to the
/// single null byte.
proof fn lemma_encode_scalar_null_byte(s: u32)
    requires
        is_scalar(s),
    ensures
        s == 0 ==> encode_scalar(s) =~= seq![0u8],
        s != 0 ==> forall|i: int| 0 <= i < encode_scalar(s).len() ==> encode_scalar(s)[i] != 0u8,
{
    if has_width_1_encoding(s) {
        assert((s & 0x7F) as u8 == 0 <==> s == 0) by (bit_vector)
            requires
                has_width_1_encoding(s),
        ;
    } else {
        assert({
            &&& 0xC0u8 | ((s >> 6) & 0x1F) as u8 != 0
            &&& 0xE0u8 | ((s >> 12) & 0x0F) as u8 != 0
            &&& 0xF0u8 | ((s >> 18) & 0x7) as u8 != 0
            &&& 0x80u8 | (s & 0x3F) as u8 != 0
            &&& 0x80u8 | ((s >> 6) & 0x3F) as u8 != 0
            &&& 0x80u8 | ((s >> 12) & 0x3F) as u8 != 0
        }) by (bit_vector);
    }
}

/// A null byte appears in the UTF-8 encoding of a text exactly when the text
/// holds the null character: multi-byte encodings use no null bytes, and the
/// single-byte encoding is null only for the null scalar.
pub proof fn lemma_encode_null_free(chars: Seq<char>)
    ensures
        encode_utf8(chars).contains(0u8) <==> chars.contains('\0'),
    decreases chars.len(),
{
    if chars.len() == 0 {
        assert(!encode_utf8(chars).contains(0u8));
        assert(!chars.contains('\0'));
    } else {
        let c = chars[0];
        let s = c as u32;
        char_is_scalar(c);
        let head = encode_scalar(s);
        let tail = encode_utf8(chars.drop_first());
        assert(encode_utf8(chars) == head + tail);
        lemma_encode_scalar_null_byte(s);
        lemma_encode_null_free(chars.drop_first());
        if c == '\0' {
            assert(s == 0);
            assert((head + tail)[0] == 0u8);
            assert(chars.contains('\0'));
        } else {
            assert(s != 0) by {
                if s == 0 {
                    char_u32_cast(c, 0u32);
                    char_u32_cast('\0', 0u32);
                }
            }
            assert(encode_utf8(chars).contains(0u8) <==> chars.contains('\0')) by {
                if (head + tail).contains(0u8) {
                    let k = choose|k: int| 0 <= k < (head + tail).len() && (head + tail)[k] == 0u8;
                    assert(k >= head.len());
                    assert(tail[k - head.len()] == 0u8);
                    assert(tail.contains(0u8));
                    let j = choose|j: int|
                        0 <= j < chars.drop_first().len() && chars.drop_first()[j] == '\0';
                    assert(chars[j + 1] == '\0');
                }
                if chars.contains('\0') {
                    let j = choose|j: int| 0 <= j < chars.len() && chars[j] == '\0';
                    assert(chars.drop_first()[j - 1] == '\0');
                    assert(chars.drop_first().contains('\0'));
                    let k = choose|k: int| 0 <= k < tail.len() && tail[k] == 0u8;
                    assert((head + tail)[head.len() + k] == 0u8);
                }
            }
        }
    }
}

/// The round trip of the string bridge: text without an embedded null
/// crosses the boundary outbound and back unchanged.  Over the contracts of
/// [`to_foreign`] and [`from_foreign`], this says the outbound crossing
/// succeeds, the buffer's content decodes, and the decoded text is the
/// original.
pub proof fn lemma_text_round_trip(text: Seq<char>)
    requires
        !text.contains('\0'),
    ensures
        !encode_utf8(text).contains(0u8),
        valid_utf8(encode_utf8(text)),
        decode_utf8(encode_utf8(text)) == text,
{
    lemma_encode_null_free(text);
    encode_utf8_valid_utf8(text);
    encode_utf8_decode_utf8(text);
}

} // verus!
