//! UTF-8 validity: a byte-level specification of well-formed UTF-8, an
//! executable validator proved against it, and a byte-string type that
//! carries validity as its invariant.
use vstd::prelude::*;
use crate::error::Error;

verus! {

/// How many bytes a character starting with this lead byte takes;
/// 0 if the byte cannot start a character.
pub open spec fn spec_utf8_char_len(b: u8) -> int {
    if b < 0x80 {
        1
    } else if 0xC2 <= b && b <= 0xDF {
        2
    } else if 0xE0 <= b && b <= 0xEF {
        3
    } else if 0xF0 <= b && b <= 0xF4 {
        4
    } else {
        0
    }
}

/// Whether a byte is a continuation byte.
pub open spec fn spec_is_cont(b: u8) -> bool {
    0x80 <= b && b <= 0xBF
}

/// The constraint on the second byte of a multi-byte character, which
/// rules out overlong forms, surrogates, and values past U+10FFFF.
pub open spec fn spec_valid_second(b0: u8, b1: u8) -> bool {
    if b0 == 0xE0 {
        0xA0 <= b1 && b1 <= 0xBF
    } else if b0 == 0xED {
        0x80 <= b1 && b1 <= 0x9F
    } else if b0 == 0xF0 {
        0x90 <= b1 && b1 <= 0xBF
    } else if b0 == 0xF4 {
        0x80 <= b1 && b1 <= 0x8F
    } else {
        spec_is_cont(b1)
    }
}

/// Whether a complete, valid character starts at index `i`.
pub open spec fn spec_valid_char_at(s: Seq<u8>, i: int) -> bool {
    let n = spec_utf8_char_len(s[i]);
    n >= 1 && i + n <= s.len() && (n == 1 || (spec_valid_second(s[i], s[i + 1]) && (n <= 2 || (
    spec_is_cont(s[i + 2]) && (n <= 3 || spec_is_cont(s[i + 3]))))))
}

/// Whether the bytes from index `i` on form valid UTF-8.
pub open spec fn spec_is_valid_utf8_from(s: Seq<u8>, i: int) -> bool
    decreases s.len() - i,
    when 0 <= i <= s.len()
{
    if i >= s.len() {
        true
    } else {
        let n = spec_utf8_char_len(s[i]);
        if n == 0 || i + n > s.len() {
            false
        } else {
            spec_valid_char_at(s, i) && spec_is_valid_utf8_from(s, i + n)
        }
    }
}

/// Whether a byte sequence is valid UTF-8.
pub open spec fn spec_is_valid_utf8(s: Seq<u8>) -> bool {
    spec_is_valid_utf8_from(s, 0)
}

/// Whether the bytes from index `i` to the end are the beginning of a
/// single character that is cut short, with every byte in order.
pub open spec fn spec_partial_char_at(s: Seq<u8>, i: int) -> bool {
    let n = spec_utf8_char_len(s[i]);
    i < s.len() && s.len() - i < n && (s.len() - i < 2 || spec_valid_second(s[i], s[i + 1])) && (
    s.len() - i < 3 || spec_is_cont(s[i + 2]))
}

/// Whether the bytes from index `i` on are valid UTF-8 possibly cut short
/// in the middle of the last character.
pub open spec fn spec_is_valid_stream_from(s: Seq<u8>, i: int) -> bool
    decreases s.len() - i,
    when 0 <= i <= s.len()
{
    if i >= s.len() {
        true
    } else {
        let n = spec_utf8_char_len(s[i]);
        if n == 0 {
            false
        } else if i + n > s.len() {
            spec_partial_char_at(s, i)
        } else {
            spec_valid_char_at(s, i) && spec_is_valid_stream_from(s, i + n)
        }
    }
}

/// Whether a byte sequence is valid UTF-8 possibly cut short in the
/// middle of its last character.
pub open spec fn spec_is_valid_stream(s: Seq<u8>) -> bool {
    spec_is_valid_stream_from(s, 0)
}

/// A complete valid sequence is also a valid stream.
pub proof fn lemma_valid_utf8_is_valid_stream(s: Seq<u8>, i: int)
    requires
        0 <= i <= s.len(),
        spec_is_valid_utf8_from(s, i),
    ensures
        spec_is_valid_stream_from(s, i),
    decreases s.len() - i,
{
    if i < s.len() {
        let n = spec_utf8_char_len(s[i]);
        lemma_valid_utf8_is_valid_stream(s, i + n);
    }
}

/// Validity from an index is not affected by bytes appended in front.
pub proof fn lemma_valid_from_shift(a: Seq<u8>, b: Seq<u8>, j: int)
    requires
        0 <= j <= b.len(),
    ensures
        spec_is_valid_utf8_from(a + b, a.len() + j) == spec_is_valid_utf8_from(b, j),
    decreases b.len() - j,
{
    let c = a + b;
    if j < b.len() {
        assert(c[a.len() + j] == b[j]);
        let n = spec_utf8_char_len(b[j]);
        if n != 0 && j + n <= b.len() {
            assert forall|k: int| j <= k < j + n implies c[a.len() + k] == b[k] by {}
            assert(spec_valid_char_at(c, a.len() + j) == spec_valid_char_at(b, j));
            lemma_valid_from_shift(a, b, j + n);
        }
    }
}

/// Appending a valid sequence to a valid sequence keeps it valid.
pub proof fn lemma_valid_utf8_append(a: Seq<u8>, b: Seq<u8>, i: int)
    requires
        0 <= i <= a.len(),
        spec_is_valid_utf8_from(a, i),
        spec_is_valid_utf8(b),
    ensures
        spec_is_valid_utf8_from(a + b, i),
    decreases a.len() - i,
{
    let c = a + b;
    if i == a.len() {
        lemma_valid_from_shift(a, b, 0);
    } else {
        let n = spec_utf8_char_len(a[i]);
        assert(spec_valid_char_at(a, i));
        assert forall|k: int| i <= k < i + n implies c[k] == a[k] by {}
        assert(spec_valid_char_at(c, i));
        lemma_valid_utf8_append(a, b, i + n);
    }
}

/// A valid prefix grows by one complete valid character.
pub proof fn lemma_valid_take_extend(s: Seq<u8>, i: int, n: int)
    requires
        0 <= i,
        n == spec_utf8_char_len(s[i]),
        n >= 1,
        i + n <= s.len(),
        spec_is_valid_utf8(s.take(i)),
        spec_valid_char_at(s, i),
    ensures
        spec_is_valid_utf8(s.take(i + n)),
{
    let a = s.take(i);
    let b = s.subrange(i, i + n);
    assert forall|k: int| 0 <= k < n implies b[k] == s[i + k] by {}
    assert(spec_valid_char_at(b, 0));
    assert(spec_is_valid_utf8_from(b, n));
    assert(spec_is_valid_utf8(b));
    lemma_valid_utf8_append(a, b, 0);
    assert(s.take(i + n) =~= a + b);
}

/// A sequence of plain ASCII bytes is valid UTF-8.
pub proof fn lemma_ascii_is_valid_utf8(s: Seq<u8>, i: int)
    requires
        0 <= i <= s.len(),
        forall|j: int| 0 <= j < s.len() ==> s[j] < 0x80,
    ensures
        spec_is_valid_utf8_from(s, i),
    decreases s.len() - i,
{
    if i < s.len() {
        assert(spec_utf8_char_len(s[i]) == 1);
        lemma_ascii_is_valid_utf8(s, i + 1);
    }
}

/// The outcome of scanning a chunk of a byte stream for UTF-8 validity.
#[derive(Debug, PartialEq, Eq, Clone, Copy, Structural)]
pub enum Utf8Scan {
    /// The whole chunk is complete valid UTF-8.
    Complete,
    /// Valid UTF-8 up to the given index; from there a single character
    /// is cut short.
    Partial(usize),
    /// The chunk holds an invalid sequence.
    Invalid,
}

/// Scan a chunk: find whether it is complete valid UTF-8, valid but cut
/// short in its last character, or invalid.
pub fn scan_utf8(c: &Vec<u8>) -> (r: Utf8Scan)
    ensures
        match r {
            Utf8Scan::Complete => spec_is_valid_utf8(c@) && spec_is_valid_stream(c@),
            Utf8Scan::Partial(b) => b < c@.len() && spec_is_valid_utf8(c@.take(b as int))
                && spec_partial_char_at(c@, b as int) && spec_is_valid_stream(c@)
                && !spec_is_valid_utf8(c@),
            Utf8Scan::Invalid => !spec_is_valid_stream(c@) && !spec_is_valid_utf8(c@),
        },
{
    let len = c.len();
    let mut i: usize = 0;
    while i < len
        invariant
            i <= len,
            len == c@.len(),
            spec_is_valid_utf8(c@.take(i as int)),
            spec_is_valid_stream(c@) == spec_is_valid_stream_from(c@, i as int),
            spec_is_valid_utf8(c@) == spec_is_valid_utf8_from(c@, i as int),
        decreases len - i,
    {
        let n = utf8_char_len(c[i]);
        if n == 0 {
            return Utf8Scan::Invalid;
        }
        if n > len - i {
            let second_ok = len - i < 2 || valid_second(c[i], c[i + 1]);
            let third_ok = len - i < 3 || is_cont(c[i + 2]);
            if second_ok && third_ok {
                assert(spec_partial_char_at(c@, i as int));
                return Utf8Scan::Partial(i);
            } else {
                assert(!spec_partial_char_at(c@, i as int));
                return Utf8Scan::Invalid;
            }
        }
        let mut char_ok = true;
        if n >= 2 {
            if !valid_second(c[i], c[i + 1]) {
                char_ok = false;
            } else if n >= 3 {
                if !is_cont(c[i + 2]) {
                    char_ok = false;
                } else if n >= 4 {
                    if !is_cont(c[i + 3]) {
                        char_ok = false;
                    }
                }
            }
        }
        if !char_ok {
            assert(!spec_valid_char_at(c@, i as int));
            return Utf8Scan::Invalid;
        }
        assert(spec_valid_char_at(c@, i as int));
        proof {
            lemma_valid_take_extend(c@, i as int, n as int);
        }
        i += n;
    }
    assert(c@.take(len as int) =~= c@);
    Utf8Scan::Complete
}

/// How many bytes the character starting with this lead byte takes.
pub fn utf8_char_len(b: u8) -> (r: usize)
    ensures
        r == spec_utf8_char_len(b),
{
    if b < 0x80 {
        1
    } else if 0xC2 <= b && b <= 0xDF {
        2
    } else if 0xE0 <= b && b <= 0xEF {
        3
    } else if 0xF0 <= b && b <= 0xF4 {
        4
    } else {
        0
    }
}

/// Check a continuation byte.
pub fn is_cont(b: u8) -> (r: bool)
    ensures
        r == spec_is_cont(b),
{
    0x80 <= b && b <= 0xBF
}

/// Check the second byte of a multi-byte character.
pub fn valid_second(b0: u8, b1: u8) -> (r: bool)
    ensures
        r == spec_valid_second(b0, b1),
{
    if b0 == 0xE0 {
        0xA0 <= b1 && b1 <= 0xBF
    } else if b0 == 0xED {
        0x80 <= b1 && b1 <= 0x9F
    } else if b0 == 0xF0 {
        0x90 <= b1 && b1 <= 0xBF
    } else if b0 == 0xF4 {
        0x80 <= b1 && b1 <= 0x8F
    } else {
        0x80 <= b1 && b1 <= 0xBF
    }
}

/// Check whether the bytes from index `from` on are valid UTF-8.
pub fn is_valid_utf8_from(s: &Vec<u8>, from: usize) -> (r: bool)
    requires
        from <= s@.len(),
    ensures
        r == spec_is_valid_utf8_from(s@, from as int),
{
    let len = s.len();
    let mut i: usize = from;
    while i < len
        invariant
            from <= i <= len,
            len == s@.len(),
            spec_is_valid_utf8_from(s@, from as int) == spec_is_valid_utf8_from(s@, i as int),
        decreases len - i,
    {
        let n = utf8_char_len(s[i]);
        if n == 0 || n > len - i {
            return false;
        }
        if n >= 2 {
            if !valid_second(s[i], s[i + 1]) {
                return false;
            }
            if n >= 3 {
                if !is_cont(s[i + 2]) {
                    return false;
                }
                if n >= 4 {
                    if !is_cont(s[i + 3]) {
                        return false;
                    }
                }
            }
        }
        assert(spec_valid_char_at(s@, i as int));
        i += n;
    }
    true
}

/// Check whether a byte vector is valid UTF-8.
pub fn is_valid_utf8(s: &Vec<u8>) -> (r: bool)
    ensures
        r == spec_is_valid_utf8(s@),
{
    is_valid_utf8_from(s, 0)
}

/// A byte string whose invariant is that it is valid UTF-8.
#[derive(Debug, Clone, PartialEq, Eq)]
pub struct Utf8Bytes {
    bytes: Vec<u8>,
}

impl View for Utf8Bytes {
    type V = Seq<u8>;

    /// The byte contents.
    closed spec fn view(&self) -> Seq<u8> {
        self.bytes@
    }
}

impl Utf8Bytes {
    /// The invariant: the contents are valid UTF-8.
    pub closed spec fn wf(&self) -> bool {
        spec_is_valid_utf8(self.bytes@)
    }

    /// The invariant says exactly that the view is valid UTF-8.
    pub proof fn lemma_wf_is_valid(&self)
        ensures
            self.wf() == spec_is_valid_utf8(self@),
    {
    }

    /// The empty string.
    pub fn new() -> (r: Utf8Bytes)
        ensures
            r.wf(),
            r@ == Seq::<u8>::empty(),
    {
        let r = Utf8Bytes { bytes: Vec::new() };
        assert(r@ =~= Seq::<u8>::empty());
        r
    }

    /// Take ownership of a byte vector after checking that it is valid
    /// UTF-8; reject it otherwise.
    pub fn from_vec(bytes: Vec<u8>) -> (r: Result<Utf8Bytes, Error>)
        ensures
            match r {
                Ok(u) => u.wf() && u@ == bytes@ && spec_is_valid_utf8(bytes@),
                Err(e) => e == Error::Utf8 && !spec_is_valid_utf8(bytes@),
            },
    {
        if is_valid_utf8(&bytes) {
            Ok(Utf8Bytes { bytes })
        } else {
            Err(Error::Utf8)
        }
    }

    /// Wrap a byte vector that is already known to be valid.
    pub(crate) fn from_vec_unchecked(bytes: Vec<u8>) -> (r: Utf8Bytes)
        requires
            spec_is_valid_utf8(bytes@),
        ensures
            r.wf(),
            r@ == bytes@,
    {
        Utf8Bytes { bytes }
    }

    /// The byte contents.
    pub fn as_bytes(&self) -> (r: &Vec<u8>)
        ensures
            r@ == self@,
    {
        &self.bytes
    }

    /// Give up the byte contents.
    pub fn into_vec(self) -> (r: Vec<u8>)
        ensures
            r@ == self@,
    {
        self.bytes
    }

    /// The length in bytes.
    pub fn len(&self) -> (r: usize)
        ensures
            r == self@.len(),
    {
        self.bytes.len()
    }

    /// Whether the string is empty.
    pub fn is_empty(&self) -> (r: bool)
        ensures
            r == (self@.len() == 0),
    {
        self.bytes.len() == 0
    }
}

} // verus!
