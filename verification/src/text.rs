//! Validation of externally supplied byte buffers as well-formed text.
//!
//! Every buffer that crosses the boundary is a pointer that may be null plus
//! a caller-stated length. Before any use, a buffer must decode to text:
//! a zero-length buffer decodes to empty text, a null pointer with a nonzero
//! length is rejected, and any other buffer must hold well-formed UTF-8.

use vstd::prelude::*;

verus! {

/// True when `b` is a UTF-8 continuation byte (`0x80..=0xBF`).
pub open spec fn is_cont_byte(b: u8) -> bool {
    0x80 <= b && b <= 0xBF
}

/// True when the bytes of `s` from position `i` to the end form well-formed
/// UTF-8: a sequence of encoded scalar values, each in its shortest form and
/// none in the surrogate range.
pub open spec fn utf8_from(s: Seq<u8>, i: int) -> bool
    decreases s.len() - i,
{
    if i < 0 || i >= s.len() {
        true
    } else {
        let b0 = s[i];
        if b0 < 0x80 {
            utf8_from(s, i + 1)
        } else if 0xC2 <= b0 && b0 <= 0xDF {
            if i + 2 <= s.len() {
                is_cont_byte(s[i + 1]) && utf8_from(s, i + 2)
            } else {
                false
            }
        } else if b0 == 0xE0 {
            if i + 3 <= s.len() {
                0xA0 <= s[i + 1] && s[i + 1] <= 0xBF && is_cont_byte(s[i + 2]) && utf8_from(
                    s,
                    i + 3,
                )
            } else {
                false
            }
        } else if b0 == 0xED {
            if i + 3 <= s.len() {
                0x80 <= s[i + 1] && s[i + 1] <= 0x9F && is_cont_byte(s[i + 2]) && utf8_from(
                    s,
                    i + 3,
                )
            } else {
                false
            }
        } else if 0xE1 <= b0 && b0 <= 0xEF {
            if i + 3 <= s.len() {
                is_cont_byte(s[i + 1]) && is_cont_byte(s[i + 2]) && utf8_from(s, i + 3)
            } else {
                false
            }
        } else if b0 == 0xF0 {
            if i + 4 <= s.len() {
                0x90 <= s[i + 1] && s[i + 1] <= 0xBF && is_cont_byte(s[i + 2]) && is_cont_byte(
                    s[i + 3],
                ) && utf8_from(s, i + 4)
            } else {
                false
            }
        } else if b0 == 0xF4 {
            if i + 4 <= s.len() {
                0x80 <= s[i + 1] && s[i + 1] <= 0x8F && is_cont_byte(s[i + 2]) && is_cont_byte(
                    s[i + 3],
                ) && utf8_from(s, i + 4)
            } else {
                false
            }
        } else if 0xF1 <= b0 && b0 <= 0xF3 {
            if i + 4 <= s.len() {
                is_cont_byte(s[i + 1]) && is_cont_byte(s[i + 2]) && is_cont_byte(s[i + 3])
                    && utf8_from(s, i + 4)
            } else {
                false
            }
        } else {
            false
        }
    }
}

/// True when `s` as a whole is well-formed UTF-8 text.
pub open spec fn is_utf8(s: Seq<u8>) -> bool {
    utf8_from(s, 0)
}

/// Checks whether `s` holds well-formed UTF-8, walking one encoded scalar
/// value at a time.
pub fn check_utf8(s: &Vec<u8>) -> (r: bool)
    ensures
        r == is_utf8(s@),
{
    let n: usize = s.len();
    let mut i: usize = 0;
    while i < n
        invariant
            i <= n,
            n == s@.len(),
            is_utf8(s@) == utf8_from(s@, i as int),
        decreases n - i,
    {
        let b0 = s[i];
        if b0 < 0x80 {
            i = i + 1;
        } else if 0xC2 <= b0 && b0 <= 0xDF {
            if n - i >= 2 && 0x80 <= s[i + 1] && s[i + 1] <= 0xBF {
                i = i + 2;
            } else {
                return false;
            }
        } else if b0 == 0xE0 {
            if n - i >= 3 && 0xA0 <= s[i + 1] && s[i + 1] <= 0xBF && 0x80 <= s[i + 2] && s[i + 2]
                <= 0xBF {
                i = i + 3;
            } else {
                return false;
            }
        } else if b0 == 0xED {
            if n - i >= 3 && 0x80 <= s[i + 1] && s[i + 1] <= 0x9F && 0x80 <= s[i + 2] && s[i + 2]
                <= 0xBF {
                i = i + 3;
            } else {
                return false;
            }
        } else if 0xE1 <= b0 && b0 <= 0xEF {
            if n - i >= 3 && 0x80 <= s[i + 1] && s[i + 1] <= 0xBF && 0x80 <= s[i + 2] && s[i + 2]
                <= 0xBF {
                i = i + 3;
            } else {
                return false;
            }
        } else if b0 == 0xF0 {
            if n - i >= 4 && 0x90 <= s[i + 1] && s[i + 1] <= 0xBF && 0x80 <= s[i + 2] && s[i + 2]
                <= 0xBF && 0x80 <= s[i + 3] && s[i + 3] <= 0xBF {
                i = i + 4;
            } else {
                return false;
            }
        } else if b0 == 0xF4 {
            if n - i >= 4 && 0x80 <= s[i + 1] && s[i + 1] <= 0x8F && 0x80 <= s[i + 2] && s[i + 2]
                <= 0xBF && 0x80 <= s[i + 3] && s[i + 3] <= 0xBF {
                i = i + 4;
            } else {
                return false;
            }
        } else if 0xF1 <= b0 && b0 <= 0xF3 {
            if n - i >= 4 && 0x80 <= s[i + 1] && s[i + 1] <= 0xBF && 0x80 <= s[i + 2] && s[i + 2]
                <= 0xBF && 0x80 <= s[i + 3] && s[i + 3] <= 0xBF {
                i = i + 4;
            } else {
                return false;
            }
        } else {
            return false;
        }
    }
    true
}

/// Copies the bytes of `s` into a fresh vector.
pub fn copy_bytes(s: &Vec<u8>) -> (r: Vec<u8>)
    ensures
        r@ == s@,
{
    let mut r: Vec<u8> = Vec::new();
    let n: usize = s.len();
    let mut i: usize = 0;
    while i < n
        invariant
            i <= n,
            n == s@.len(),
            r@ == s@.subrange(0, i as int),
        decreases n - i,
    {
        r.push(s[i]);
        proof {
            assert(r@ =~= s@.subrange(0, i + 1));
        }
        i = i + 1;
    }
    proof {
        assert(s@.subrange(0, n as int) =~= s@);
    }
    r
}

/// An externally supplied byte buffer: a pointer that may be null, together
/// with a caller-stated length.
pub enum Buffer {
    /// A null pointer, with the length the caller passed beside it.
    Null(usize),
    /// A non-null pointer: the bytes the buffer holds.
    Bytes(Vec<u8>),
}

impl Buffer {
    /// The length the caller stated for the buffer.
    pub open spec fn spec_len(&self) -> nat {
        match self {
            Buffer::Null(len) => *len as nat,
            Buffer::Bytes(v) => v@.len(),
        }
    }

    /// A buffer is valid text when its length is zero, or when it is non-null
    /// and holds well-formed UTF-8. A null pointer with a nonzero length, or
    /// bytes that are not UTF-8, are invalid.
    pub open spec fn is_valid_text(&self) -> bool {
        match self {
            Buffer::Null(len) => *len == 0,
            Buffer::Bytes(v) => is_utf8(v@),
        }
    }

    /// The text a valid buffer decodes to: empty for a zero-length buffer,
    /// else the buffer's bytes.
    pub open spec fn text(&self) -> Seq<u8> {
        match self {
            Buffer::Null(_) => Seq::empty(),
            Buffer::Bytes(v) => v@,
        }
    }

    /// The caller-stated length of the buffer.
    pub fn len(&self) -> (n: usize)
        ensures
            n == self.spec_len(),
    {
        match self {
            Buffer::Null(len) => *len,
            Buffer::Bytes(v) => v.len(),
        }
    }

    /// Checks whether the buffer is valid text, without decoding it.
    pub fn is_valid(&self) -> (r: bool)
        ensures
            r == self.is_valid_text(),
    {
        match self {
            Buffer::Null(len) => *len == 0,
            Buffer::Bytes(v) => check_utf8(v),
        }
    }

    /// Decodes the buffer: the text as bytes when it is valid, nothing when
    /// it is not.
    pub fn decode(&self) -> (r: Option<Vec<u8>>)
        ensures
            r is Some <==> self.is_valid_text(),
            r matches Some(t) ==> t@ == self.text(),
    {
        match self {
            Buffer::Null(len) => {
                if *len == 0 {
                    Some(Vec::new())
                } else {
                    None
                }
            },
            Buffer::Bytes(v) => {
                if check_utf8(v) {
                    Some(copy_bytes(v))
                } else {
                    None
                }
            },
        }
    }
}

} // verus!
