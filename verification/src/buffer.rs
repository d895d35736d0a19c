//! The editable byte buffer.
use vstd::prelude::*;
use vstd::slice::{slice_subrange, slice_to_vec};

use crate::nibble::{joined, hi, lo, nibbles, lemma_nibble_facts, lemma_mask_digit};

verus! {

/// Bytes of `d` with `bytes` written over the range starting at `off`.
pub open spec fn written(d: Seq<u8>, off: int, bytes: Seq<u8>) -> Seq<u8> {
    d.take(off) + bytes + d.skip(off + bytes.len())
}

/// Bytes of `d` with `bytes` inserted at `off`.
pub open spec fn inserted(d: Seq<u8>, off: int, bytes: Seq<u8>) -> Seq<u8> {
    d.take(off) + bytes + d.skip(off)
}

/// Bytes of `d` with the `n` bytes starting at `off` removed.
pub open spec fn deleted(d: Seq<u8>, off: int, n: int) -> Seq<u8> {
    d.take(off) + d.skip(off + n)
}

/// The error that `read` reports for a buffer of `size` bytes, if any.
pub open spec fn read_error(size: int, offset: u64, len: int) -> Option<Seq<char>> {
    if offset >= size {
        Some("Offset out of bounds"@)
    } else if offset + len > u64::MAX {
        Some("Overflow"@)
    } else if offset + len > size {
        Some("Read out of bounds"@)
    } else {
        None
    }
}

/// The error that `write` reports for a buffer of `size` bytes, if any.
pub open spec fn write_error(size: int, offset: u64, len: int) -> Option<Seq<char>> {
    if offset + len > u64::MAX {
        Some("Overflow"@)
    } else if offset + len > size {
        Some("Write out of bounds"@)
    } else {
        None
    }
}

/// The error that `insert` reports for a buffer of `size` bytes, if any.
pub open spec fn insert_error(size: int, offset: u64) -> Option<Seq<char>> {
    if offset > size {
        Some("Insert offset out of bounds"@)
    } else {
        None
    }
}

/// The error that `delete` reports for a buffer of `size` bytes, if any.
pub open spec fn delete_error(size: int, offset: u64, len: int) -> Option<Seq<char>> {
    if offset + len > u64::MAX {
        Some("Overflow"@)
    } else if offset + len > size {
        Some("Delete out of bounds"@)
    } else {
        None
    }
}

/// Position in the nibble stream of nibble `nibble` (0 = high, otherwise low)
/// of the byte at `off`.
pub open spec fn nibble_pos(off: int, nibble: u8) -> int {
    if nibble == 0 {
        2 * off
    } else {
        2 * off + 1
    }
}

/// The byte at `off` after a digit is inserted into it (nibble 0: before its high
/// nibble; otherwise: between its two nibbles).
pub open spec fn spliced(b: u8, nibble: u8, digit: u8) -> u8 {
    if nibble == 0 {
        (digit << 4) | (b >> 4)
    } else {
        (b & 0xF0) | digit
    }
}

/// Bytes after `digit` (already masked to 4 bits) is inserted as a nibble inside
/// the buffer at byte `off < d.len()`; the last nibble of the buffer drops out.
pub open spec fn nibble_inserted(d: Seq<u8>, off: int, nibble: u8, digit: u8) -> Seq<u8> {
    Seq::new(
        d.len(),
        |j: int|
            if j < off {
                d[j]
            } else if j == off {
                spliced(d[off], nibble, digit)
            } else {
                joined(d[j - 1], d[j])
            },
    )
}

/// Bytes after the nibble at byte `off < d.len()` is deleted; the nibbles after it
/// move one place forward and a zero nibble fills the end.
pub open spec fn nibble_deleted(d: Seq<u8>, off: int, nibble: u8) -> Seq<u8> {
    Seq::new(
        d.len(),
        |j: int|
            if j < off {
                d[j]
            } else if j == off && nibble != 0 {
                if off + 1 < d.len() {
                    (d[off] & 0xF0) | (d[off + 1] >> 4)
                } else {
                    d[off] & 0xF0
                }
            } else if j + 1 < d.len() {
                joined(d[j], d[j + 1])
            } else {
                (d[j] & 0x0F) << 4
            },
    )
}

/// An editable in-memory copy of a file.
pub struct ByteBuffer {
    data: Vec<u8>,
    path: Option<String>,
    modified: bool,
}

impl View for ByteBuffer {
    type V = Seq<u8>;

    closed spec fn view(&self) -> Seq<u8> {
        self.data@
    }
}

impl ByteBuffer {
    /// Whether the buffer differs from what was last loaded or saved.
    pub closed spec fn modified_spec(&self) -> bool {
        self.modified
    }

    /// The file the buffer is associated with.
    pub closed spec fn path_spec(&self) -> Option<Seq<char>> {
        match self.path {
            Some(p) => Some(p@),
            None => None,
        }
    }

    /// A new, unmodified buffer holding a copy of `data`, with no file path.
    pub fn new(data: &[u8]) -> (buf: Self)
        ensures
            buf@ == data@,
            buf.path_spec() is None,
            !buf.modified_spec(),
    {
        ByteBuffer { data: slice_to_vec(data), path: None, modified: false }
    }

    /// A new, unmodified buffer holding the contents `data` read from the file at `path`.
    pub fn open(path: String, data: Vec<u8>) -> (buf: Self)
        ensures
            buf@ == data@,
            buf.path_spec() == Some(path@),
            !buf.modified_spec(),
    {
        ByteBuffer { data, path: Some(path), modified: false }
    }

    /// The file that `save` writes to, or the error `"No path set"`.
    pub fn save_path(&self) -> (r: Result<&String, String>)
        ensures
            match r {
                Ok(p) => self.path_spec() == Some(p@),
                Err(e) => self.path_spec() is None && e@ == "No path set"@,
            },
    {
        match &self.path {
            Some(p) => Ok(p),
            None => Err("No path set".to_string()),
        }
    }

    /// Associates the buffer with the file at `path`; the caller then writes the
    /// bytes out and reports success with `mark_saved`.
    pub fn save_as(&mut self, path: String)
        ensures
            final(self)@ == old(self)@,
            final(self).path_spec() == Some(path@),
            final(self).modified_spec() == old(self).modified_spec(),
    {
        self.path = Some(path);
    }

    /// Records that the bytes were written to the buffer's file.
    pub fn mark_saved(&mut self)
        ensures
            final(self)@ == old(self)@,
            final(self).path_spec() == old(self).path_spec(),
            !final(self).modified_spec(),
    {
        self.modified = false;
    }

    /// The whole contents.
    pub fn as_slice(&self) -> (s: &[u8])
        ensures
            s@ == self@,
    {
        self.data.as_slice()
    }

    /// Number of bytes in the buffer.
    pub fn len(&self) -> (n: u64)
        ensures
            n == self@.len(),
            self@.len() <= usize::MAX,
    {
        self.data.len() as u64
    }

    /// The length of a buffer fits in a `usize`.
    pub proof fn lemma_len_fits(&self)
        ensures
            self@.len() <= usize::MAX,
    {
        assert(self.data.len() == self.data@.len());
    }

    /// Whether the buffer holds no byte.
    pub fn is_empty(&self) -> (b: bool)
        ensures
            b == (self@.len() == 0),
    {
        self.data.len() == 0
    }

    /// The `len` bytes starting at `offset`. The offset must point at a byte of the
    /// buffer and the range must end inside it.
    pub fn read(&self, offset: u64, len: usize) -> (r: Result<&[u8], String>)
        ensures
            match r {
                Ok(s) => read_error(self@.len() as int, offset, len as int) is None && s@
                    == self@.subrange(offset as int, offset + len),
                Err(e) => read_error(self@.len() as int, offset, len as int) == Some(e@),
            },
    {
        let size = self.data.len() as u64;
        if offset >= size {
            return Err("Offset out of bounds".to_string());
        }
        let end = match offset.checked_add(len as u64) {
            Some(e) => e,
            None => return Err("Overflow".to_string()),
        };
        if end > size {
            return Err("Read out of bounds".to_string());
        }
        Ok(slice_subrange(self.data.as_slice(), offset as usize, end as usize))
    }

    /// Overwrites the bytes starting at `offset` with `bytes`.
    pub fn write(&mut self, offset: u64, bytes: &[u8]) -> (r: Result<(), String>)
        ensures
            match r {
                Ok(()) => {
                    &&& write_error(old(self)@.len() as int, offset, bytes@.len() as int) is None
                    &&& final(self)@ == written(old(self)@, offset as int, bytes@)
                    &&& final(self).modified_spec()
                    &&& final(self).path_spec() == old(self).path_spec()
                },
                Err(e) => {
                    &&& write_error(old(self)@.len() as int, offset, bytes@.len() as int) == Some(
                        e@,
                    )
                    &&& *final(self) == *old(self)
                },
            },
    {
        let size = self.data.len() as u64;
        let end = match offset.checked_add(bytes.len() as u64) {
            Some(e) => e,
            None => return Err("Overflow".to_string()),
        };
        if end > size {
            return Err("Write out of bounds".to_string());
        }
        let off = offset as usize;
        let n = bytes.len();
        let ghost d = self.data@;
        assert(d.len() <= usize::MAX);
        let mut i: usize = 0;
        while i < n
            invariant
                0 <= i <= n,
                n == bytes@.len(),
                off + n <= d.len(),
                d.len() <= usize::MAX,
                self.data@.len() == d.len(),
                self.path == old(self).path,
                forall|j: int| 0 <= j < off ==> self.data@[j] == d[j],
                forall|j: int| off <= j < off + i ==> self.data@[j] == bytes@[j - off],
                forall|j: int| off + i <= j < d.len() ==> self.data@[j] == d[j],
            decreases n - i,
        {
            self.data.set(off + i, bytes[i]);
            i = i + 1;
        }
        assert(self.data@ =~= written(d, off as int, bytes@));
        self.modified = true;
        Ok(())
    }

    /// Inserts `bytes` before the byte at `offset` (at the end when `offset` is the length).
    pub fn insert(&mut self, offset: u64, bytes: &[u8]) -> (r: Result<(), String>)
        ensures
            match r {
                Ok(()) => {
                    &&& insert_error(old(self)@.len() as int, offset) is None
                    &&& final(self)@ == inserted(old(self)@, offset as int, bytes@)
                    &&& final(self).modified_spec()
                    &&& final(self).path_spec() == old(self).path_spec()
                },
                Err(e) => {
                    &&& insert_error(old(self)@.len() as int, offset) == Some(e@)
                    &&& *final(self) == *old(self)
                },
            },
    {
        let size = self.data.len() as u64;
        if offset > size {
            return Err("Insert offset out of bounds".to_string());
        }
        let off = offset as usize;
        let ghost d = self.data@;
        let mut new_data: Vec<u8> = Vec::new();
        let mut i: usize = 0;
        while i < off
            invariant
                i <= off <= self.data@.len(),
                self.data@ == d,
                new_data@ == d.take(i as int),
            decreases off - i,
        {
            new_data.push(self.data[i]);
            i = i + 1;
            assert(new_data@ =~= d.take(i as int));
        }
        let mut k: usize = 0;
        while k < bytes.len()
            invariant
                k <= bytes@.len(),
                off <= d.len(),
                new_data@ == d.take(off as int) + bytes@.take(k as int),
            decreases bytes@.len() - k,
        {
            new_data.push(bytes[k]);
            k = k + 1;
            assert(new_data@ =~= d.take(off as int) + bytes@.take(k as int));
        }
        assert(bytes@.take(bytes@.len() as int) =~= bytes@);
        let mut m: usize = off;
        while m < self.data.len()
            invariant
                off <= m <= self.data@.len(),
                self.data@ == d,
                new_data@ == d.take(off as int) + bytes@ + d.subrange(off as int, m as int),
            decreases self.data@.len() - m,
        {
            new_data.push(self.data[m]);
            m = m + 1;
            assert(new_data@ =~= d.take(off as int) + bytes@ + d.subrange(off as int, m as int));
        }
        assert(new_data@ =~= inserted(d, off as int, bytes@));
        self.data = new_data;
        self.modified = true;
        Ok(())
    }

    /// Removes the `len` bytes starting at `offset`.
    pub fn delete(&mut self, offset: u64, len: usize) -> (r: Result<(), String>)
        ensures
            match r {
                Ok(()) => {
                    &&& delete_error(old(self)@.len() as int, offset, len as int) is None
                    &&& final(self)@ == deleted(old(self)@, offset as int, len as int)
                    &&& final(self).modified_spec()
                    &&& final(self).path_spec() == old(self).path_spec()
                },
                Err(e) => {
                    &&& delete_error(old(self)@.len() as int, offset, len as int) == Some(e@)
                    &&& *final(self) == *old(self)
                },
            },
    {
        let size = self.data.len() as u64;
        let end = match offset.checked_add(len as u64) {
            Some(e) => e,
            None => return Err("Overflow".to_string()),
        };
        if end > size {
            return Err("Delete out of bounds".to_string());
        }
        let off = offset as usize;
        let stop = end as usize;
        let ghost d = self.data@;
        let mut new_data: Vec<u8> = Vec::new();
        let mut i: usize = 0;
        while i < off
            invariant
                i <= off <= stop <= self.data@.len(),
                self.data@ == d,
                new_data@ == d.take(i as int),
            decreases off - i,
        {
            new_data.push(self.data[i]);
            i = i + 1;
            assert(new_data@ =~= d.take(i as int));
        }
        let mut m: usize = stop;
        while m < self.data.len()
            invariant
                off <= stop <= m <= self.data@.len(),
                self.data@ == d,
                new_data@ == d.take(off as int) + d.subrange(stop as int, m as int),
            decreases self.data@.len() - m,
        {
            new_data.push(self.data[m]);
            m = m + 1;
            assert(new_data@ =~= d.take(off as int) + d.subrange(stop as int, m as int));
        }
        assert(new_data@ =~= deleted(d, off as int, len as int));
        self.data = new_data;
        self.modified = true;
        Ok(())
    }

    /// Whether the buffer changed since it was loaded or last saved.
    pub fn is_modified(&self) -> (b: bool)
        ensures
            b == self.modified_spec(),
    {
        self.modified
    }

    /// The file the buffer is associated with.
    pub fn path(&self) -> (p: Option<&String>)
        ensures
            match p {
                Some(s) => self.path_spec() == Some(s@),
                None => self.path_spec() is None,
            },
    {
        match &self.path {
            Some(s) => Some(s),
            None => None,
        }
    }

    /// Nibble `nibble` (0 = high, 1 = low) of the byte at `byte_offset`.
    pub fn get_nibble(&self, byte_offset: u64, nibble: u8) -> (r: Result<u8, String>)
        ensures
            match r {
                Ok(v) => {
                    &&& byte_offset < self@.len()
                    &&& nibble <= 1
                    &&& v == if nibble == 0 {
                        hi(self@[byte_offset as int])
                    } else {
                        lo(self@[byte_offset as int])
                    }
                },
                Err(e) => if byte_offset >= self@.len() {
                    e@ == "Offset out of bounds"@
                } else {
                    nibble > 1 && e@ == "nibble must be 0 or 1"@
                },
            },
    {
        proof {
            self.lemma_len_fits();
        }
        let bytes = match self.read(byte_offset, 1) {
            Ok(b) => b,
            Err(e) => return Err(e),
        };
        let byte = bytes[0];
        if nibble == 0 {
            Ok(byte >> 4)
        } else if nibble == 1 {
            Ok(byte & 0x0F)
        } else {
            Err("nibble must be 0 or 1".to_string())
        }
    }

    /// Replaces nibble `nibble` (0 = high, 1 = low) of the byte at `byte_offset`
    /// with the low four bits of `digit`.
    pub fn set_nibble(&mut self, byte_offset: u64, nibble: u8, digit: u8) -> (r: Result<(), String>)
        requires
            byte_offset < old(self)@.len(),
        ensures
            match r {
                Ok(()) => {
                    &&& nibble <= 1
                    &&& final(self)@ == old(self)@.update(
                        byte_offset as int,
                        if nibble == 0 {
                            ((digit & 0x0F) << 4) | (old(self)@[byte_offset as int] & 0x0F)
                        } else {
                            (old(self)@[byte_offset as int] & 0xF0) | (digit & 0x0F)
                        },
                    )
                    &&& nibbles(final(self)@) == nibbles(old(self)@).update(
                        nibble_pos(byte_offset as int, nibble),
                        digit & 0x0F,
                    )
                    &&& final(self).modified_spec()
                    &&& final(self).path_spec() == old(self).path_spec()
                },
                Err(e) => nibble > 1 && e@ == "nibble must be 0 or 1"@ && *final(self) == *old(
                    self,
                ),
            },
    {
        let dg = digit & 0x0F;
        proof {
            lemma_mask_digit(digit);
        }
        proof {
            self.lemma_len_fits();
        }
        let off = byte_offset as usize;
        let byte = self.data[off];
        let new_byte = if nibble == 0 {
            (dg << 4) | (byte & 0x0F)
        } else if nibble == 1 {
            (byte & 0xF0) | dg
        } else {
            return Err("nibble must be 0 or 1".to_string());
        };
        let ghost d = self.data@;
        self.data.set(off, new_byte);
        proof {
            lemma_nibbles_set(d, off as int, nibble, dg);
        }
        self.modified = true;
        Ok(())
    }

    /// Inserts the low four bits of `digit` as a nibble at byte `byte_offset`
    /// (nibble 0: before its high nibble, otherwise before its low nibble). The
    /// following nibbles move one place back and the last nibble of the buffer drops
    /// out, so the length does not change; at the end of the buffer a new byte holding
    /// the digit as its high nibble is appended instead.
    pub fn insert_nibble(&mut self, byte_offset: u64, nibble: u8, digit: u8) -> (r: Result<(), String>)
        ensures
            match r {
                Ok(()) => {
                    &&& byte_offset <= old(self)@.len()
                    &&& byte_offset == old(self)@.len() ==> final(self)@ == old(self)@.push(
                        (digit & 0x0F) << 4,
                    ) && nibbles(final(self)@) == nibbles(old(self)@) + seq![digit & 0x0F, 0u8]
                    &&& byte_offset < old(self)@.len() ==> final(self)@ == nibble_inserted(
                        old(self)@,
                        byte_offset as int,
                        nibble,
                        digit & 0x0F,
                    ) && nibbles(final(self)@) == nibbles(old(self)@).insert(
                        nibble_pos(byte_offset as int, nibble),
                        digit & 0x0F,
                    ).take(2 * old(self)@.len() as int)
                    &&& final(self).modified_spec()
                    &&& final(self).path_spec() == old(self).path_spec()
                },
                Err(e) => byte_offset > old(self)@.len() && e@ == "Insert offset out of bounds"@
                    && *final(self) == *old(self),
            },
    {
        let dg = digit & 0x0F;
        proof {
            lemma_mask_digit(digit);
        }
        let size = self.data.len();
        if byte_offset > size as u64 {
            return Err("Insert offset out of bounds".to_string());
        }
        let ghost d = self.data@;
        if byte_offset == size as u64 {
            self.data.push(dg << 4);
            self.modified = true;
            proof {
                lemma_nibbles_push(d, dg);
            }
            return Ok(());
        }
        let off = byte_offset as usize;
        let orig = self.data[off];
        let orig_low = orig & 0x0F;
        if nibble == 0 {
            self.data.set(off, (dg << 4) | (orig >> 4));
        } else {
            self.data.set(off, (orig & 0xF0) | dg);
        }
        let mut carry = orig_low;
        let mut i = off + 1;
        while i < self.data.len()
            invariant
                off < i <= size,
                size == d.len(),
                self.data@.len() == size,
                self.path == old(self).path,
                self.modified == old(self).modified,
                carry == d[i - 1] & 0x0F,
                forall|j: int| 0 <= j < off ==> self.data@[j] == d[j],
                self.data@[off as int] == spliced(d[off as int], nibble, dg),
                forall|j: int| off < j < i ==> self.data@[j] == joined(d[j - 1], d[j]),
                forall|j: int| i <= j < size ==> self.data@[j] == d[j],
            decreases size - i,
        {
            let b = self.data[i];
            self.data.set(i, (carry << 4) | (b >> 4));
            carry = b & 0x0F;
            i = i + 1;
        }
        assert(self.data@ =~= nibble_inserted(d, off as int, nibble, dg));
        proof {
            lemma_nibbles_insert(d, off as int, nibble, dg);
        }
        self.modified = true;
        Ok(())
    }

    /// Deletes nibble `nibble` (0 = high, otherwise low) of the byte at
    /// `byte_offset`. The following nibbles move one place forward and a zero nibble
    /// fills the end, so the length does not change.
    pub fn delete_nibble(&mut self, byte_offset: u64, nibble: u8) -> (r: Result<(), String>)
        ensures
            match r {
                Ok(()) => {
                    &&& byte_offset < old(self)@.len()
                    &&& final(self)@ == nibble_deleted(old(self)@, byte_offset as int, nibble)
                    &&& nibbles(final(self)@) == nibbles(old(self)@).remove(
                        nibble_pos(byte_offset as int, nibble),
                    ).push(0)
                    &&& final(self).modified_spec()
                    &&& final(self).path_spec() == old(self).path_spec()
                },
                Err(e) => byte_offset >= old(self)@.len() && e@ == "Delete offset out of bounds"@
                    && *final(self) == *old(self),
            },
    {
        let size = self.data.len();
        if byte_offset >= size as u64 {
            return Err("Delete offset out of bounds".to_string());
        }
        let off = byte_offset as usize;
        let ghost d = self.data@;
        let mut i: usize;
        if nibble == 0 {
            i = off;
        } else {
            if off + 1 < size {
                let next_high = self.data[off + 1] >> 4;
                let cur = self.data[off];
                self.data.set(off, (cur & 0xF0) | next_high);
            } else {
                let cur = self.data[off];
                self.data.set(off, cur & 0xF0);
            }
            i = off + 1;
        }
        if i < size {
            while i < size - 1
                invariant
                    off <= i < size,
                    nibble != 0 ==> off < i,
                    size == d.len(),
                    self.data@.len() == size,
                    self.path == old(self).path,
                    self.modified == old(self).modified,
                    forall|j: int| 0 <= j < off ==> self.data@[j] == d[j],
                    nibble != 0 ==> self.data@[off as int] == nibble_deleted(d, off as int, nibble)[off as int],
                    forall|j: int|
                        off <= j < i && (j != off || nibble == 0) ==> self.data@[j] == joined(
                            d[j],
                            d[j + 1],
                        ),
                    forall|j: int| i <= j < size ==> self.data@[j] == d[j],
                decreases size - i,
            {
                let low = self.data[i] & 0x0F;
                let next_high = self.data[i + 1] >> 4;
                self.data.set(i, (low << 4) | next_high);
                i = i + 1;
            }
            let last = self.data[size - 1];
            self.data.set(size - 1, (last & 0x0F) << 4);
        }
        assert(self.data@ =~= nibble_deleted(d, off as int, nibble));
        proof {
            lemma_nibbles_delete(d, off as int, nibble);
        }
        self.modified = true;
        Ok(())
    }
}

/// Replacing one nibble of a byte replaces that nibble in the nibble stream.
pub proof fn lemma_nibbles_set(d: Seq<u8>, off: int, nibble: u8, digit: u8)
    requires
        0 <= off < d.len(),
        nibble <= 1,
        digit < 16,
    ensures
        nibbles(
            d.update(
                off,
                if nibble == 0 {
                    (digit << 4) | (d[off] & 0x0F)
                } else {
                    (d[off] & 0xF0) | digit
                },
            ),
        ) == nibbles(d).update(nibble_pos(off, nibble), digit),
{
    let b = d[off];
    let nb = if nibble == 0 {
        (digit << 4) | (b & 0x0F)
    } else {
        (b & 0xF0) | digit
    };
    assert((((digit << 4) | (b & 0x0F)) >> 4) == digit) by (bit_vector)
        requires
            digit < 16,
    ;
    assert((((digit << 4) | (b & 0x0F)) & 0x0F) == (b & 0x0F)) by (bit_vector);
    lemma_nibble_facts(b, b, digit);
    let e = d.update(off, nb);
    let lhs = nibbles(e);
    let rhs = nibbles(d).update(nibble_pos(off, nibble), digit);
    assert forall|k: int| 0 <= k < lhs.len() implies lhs[k] == rhs[k] by {
        let j = k / 2;
        assert(k == 2 * j || k == 2 * j + 1);
    }
    assert(lhs =~= rhs);
}

/// Appending a byte whose high nibble is `digit` appends `digit` and a zero nibble.
pub proof fn lemma_nibbles_push(d: Seq<u8>, digit: u8)
    requires
        digit < 16,
    ensures
        nibbles(d.push(digit << 4)) == nibbles(d) + seq![digit, 0u8],
{
    lemma_nibble_facts(0, 0, digit);
    let lhs = nibbles(d.push(digit << 4));
    let rhs = nibbles(d) + seq![digit, 0u8];
    assert forall|k: int| 0 <= k < lhs.len() implies lhs[k] == rhs[k] by {
        let j = k / 2;
        assert(k == 2 * j || k == 2 * j + 1);
    }
    assert(lhs =~= rhs);
}

/// Inserting a digit inside the buffer inserts it into the nibble stream, whose
/// last nibble drops out.
pub proof fn lemma_nibbles_insert(d: Seq<u8>, off: int, nibble: u8, digit: u8)
    requires
        0 <= off < d.len(),
        digit < 16,
    ensures
        nibbles(nibble_inserted(d, off, nibble, digit)) == nibbles(d).insert(
            nibble_pos(off, nibble),
            digit,
        ).take(2 * d.len() as int),
{
    let e = nibble_inserted(d, off, nibble, digit);
    let lhs = nibbles(e);
    let rhs = nibbles(d).insert(nibble_pos(off, nibble), digit).take(2 * d.len() as int);
    assert forall|k: int| 0 <= k < lhs.len() implies lhs[k] == rhs[k] by {
        let j = k / 2;
        assert(k == 2 * j || k == 2 * j + 1);
        if j < off {
        } else if j == off {
            lemma_nibble_facts(d[off], d[off], digit);
        } else {
            lemma_nibble_facts(d[j - 1], d[j], digit);
        }
    }
    assert(lhs =~= rhs);
}

/// Deleting a nibble removes it from the nibble stream and appends a zero nibble.
pub proof fn lemma_nibbles_delete(d: Seq<u8>, off: int, nibble: u8)
    requires
        0 <= off < d.len(),
    ensures
        nibbles(nibble_deleted(d, off, nibble)) == nibbles(d).remove(nibble_pos(off, nibble)).push(
            0,
        ),
{
    let e = nibble_deleted(d, off, nibble);
    let lhs = nibbles(e);
    let rhs = nibbles(d).remove(nibble_pos(off, nibble)).push(0);
    assert forall|k: int| 0 <= k < lhs.len() implies lhs[k] == rhs[k] by {
        let j = k / 2;
        assert(k == 2 * j || k == 2 * j + 1);
        if j < off {
        } else if j + 1 < d.len() {
            lemma_nibble_facts(d[j], d[j + 1], 0);
        } else {
            lemma_nibble_facts(d[j], d[j], 0);
        }
    }
    assert(lhs =~= rhs);
}

} // verus!
