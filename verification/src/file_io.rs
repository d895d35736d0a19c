//! Loading files into buffers and telling their text encoding.
use vstd::prelude::*;
use vstd::utf8::{
    valid_utf8, valid_first_scalar, pop_first_scalar, length_of_first_scalar,
    decode_first_codepoint,
};

use crate::buffer::ByteBuffer;

verus! {

/// Name of the encoding of `data`: a UTF-16 little-endian byte order mark, else
/// valid UTF-8, else binary.
pub open spec fn encoding_name(data: Seq<u8>) -> Seq<char> {
    if data.len() >= 2 && data[0] == 0xFF && data[1] == 0xFE {
        "UTF-16LE"@
    } else if valid_utf8(data) {
        "UTF-8"@
    } else {
        "Binary"@
    }
}

/// The first bytes of a file that its encoding is told from.
pub open spec fn header(data: Seq<u8>) -> Seq<u8> {
    if data.len() <= 4 {
        data
    } else {
        data.take(4)
    }
}

/// Length of the well-formed UTF-8 encoding of a scalar at the start of `s`, or 0.
fn first_scalar_len(s: &[u8], i: usize) -> (w: usize)
    requires
        i < s@.len(),
    ensures
        w > 0 <==> valid_first_scalar(s@.subrange(i as int, s@.len() as int)),
        w > 0 ==> w == length_of_first_scalar(s@.subrange(i as int, s@.len() as int)),
        w <= 4,
{
    let ghost t = s@.subrange(i as int, s@.len() as int);
    let n = s.len() - i;
    let b0 = s[i];
    assert(t[0] == b0);
    if b0 <= 0x7F {
        return 1;
    }
    if 0xC0 <= b0 && b0 <= 0xDF {
        if n < 2 {
            return 0;
        }
        let b1 = s[i + 1];
        assert(t[1] == b1);
        if !(0x80 <= b1 && b1 <= 0xBF) {
            return 0;
        }
        let cp: u32 = (((b0 & 0x1F) as u32) << 6) | ((b1 & 0x3F) as u32);
        assert(cp == decode_first_codepoint(t));
        assert(((((b0 & 0x1F) as u32) << 6) | ((b1 & 0x3F) as u32)) <= 0x7FF) by (bit_vector);
        return if cp >= 0x80 {
            2
        } else {
            0
        };
    }
    if 0xE0 <= b0 && b0 <= 0xEF {
        if n < 3 {
            return 0;
        }
        let b1 = s[i + 1];
        let b2 = s[i + 2];
        assert(t[1] == b1 && t[2] == b2);
        if !(0x80 <= b1 && b1 <= 0xBF && 0x80 <= b2 && b2 <= 0xBF) {
            return 0;
        }
        let cp: u32 = (((b0 & 0x0F) as u32) << 12) | (((b1 & 0x3F) as u32) << 6) | ((b2
            & 0x3F) as u32);
        assert(cp == decode_first_codepoint(t));
        return if cp >= 0x800 && !(0xD800 <= cp && cp <= 0xDFFF) {
            3
        } else {
            0
        };
    }
    if 0xF0 <= b0 && b0 <= 0xF7 {
        if n < 4 {
            return 0;
        }
        let b1 = s[i + 1];
        let b2 = s[i + 2];
        let b3 = s[i + 3];
        assert(t[1] == b1 && t[2] == b2 && t[3] == b3);
        if !(0x80 <= b1 && b1 <= 0xBF && 0x80 <= b2 && b2 <= 0xBF && 0x80 <= b3 && b3 <= 0xBF) {
            return 0;
        }
        let cp: u32 = (((b0 & 0x07) as u32) << 18) | (((b1 & 0x3F) as u32) << 12) | (((b2
            & 0x3F) as u32) << 6) | ((b3 & 0x3F) as u32);
        assert(cp == decode_first_codepoint(t));
        return if 0x10000 <= cp && cp <= 0x10FFFF {
            4
        } else {
            0
        };
    }
    0
}

/// Whether `s` is well-formed UTF-8.
fn is_utf8(s: &[u8]) -> (b: bool)
    ensures
        b == valid_utf8(s@),
{
    let n = s.len();
    let mut i: usize = 0;
    assert(s@.subrange(0, n as int) =~= s@);
    while i < n
        invariant
            n == s@.len(),
            i <= n,
            valid_utf8(s@) == valid_utf8(s@.subrange(i as int, n as int)),
        decreases n - i,
    {
        let w = first_scalar_len(s, i);
        let ghost t = s@.subrange(i as int, n as int);
        if w == 0 {
            return false;
        }
        assert(pop_first_scalar(t) =~= s@.subrange(i + w, n as int));
        i = i + w;
    }
    assert(s@.subrange(n as int, n as int).len() == 0);
    true
}

/// Loading of files into buffers.
pub struct FileIo;

impl FileIo {
    /// `"UTF-16LE"` when `data` starts with the UTF-16LE byte order mark, `"UTF-8"`
    /// when it is well-formed UTF-8, `"Binary"` otherwise.
    pub fn detect_encoding(data: &[u8]) -> (r: &'static str)
        ensures
            r@ == encoding_name(data@),
    {
        if data.len() >= 2 && data[0] == 0xFF && data[1] == 0xFE {
            "UTF-16LE"
        } else if is_utf8(data) {
            "UTF-8"
        } else {
            "Binary"
        }
    }

    /// A buffer for the file at `path` whose contents are `data`, and the encoding
    /// told from its first four bytes.
    pub fn open(path: String, data: Vec<u8>) -> (r: (ByteBuffer, &'static str))
        ensures
            r.0@ == data@,
            r.0.path_spec() == Some(path@),
            !r.0.modified_spec(),
            r.1@ == encoding_name(header(data@)),
    {
        let buf = ByteBuffer::open(path, data);
        let size = buf.len();
        let want: usize = if size < 4 {
            size as usize
        } else {
            4
        };
        let empty: [u8; 0] = [];
        let head: &[u8] = match buf.read(0, want) {
            Ok(h) => h,
            Err(_) => &empty,
        };
        proof {
            if buf@.len() == 0 {
                assert(head@ =~= header(buf@));
            } else {
                assert(head@ =~= header(buf@));
            }
        }
        let encoding = Self::detect_encoding(head);
        (buf, encoding)
    }
}

} // verus!
