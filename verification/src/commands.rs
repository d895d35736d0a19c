//! Reversible edits of a byte buffer.
use vstd::prelude::*;

use crate::buffer::{
    ByteBuffer, written, inserted, deleted, write_error, insert_error, delete_error,
};

verus! {

/// One edit of a buffer, recording what is needed to apply it and to take it back.
pub enum EditCommand {
    /// `new_bytes` written over `old_bytes` at `offset`.
    Overwrite { offset: u64, old_bytes: Vec<u8>, new_bytes: Vec<u8> },
    /// `bytes` inserted at `offset`.
    Insert { offset: u64, bytes: Vec<u8> },
    /// `bytes` removed from `offset`.
    Delete { offset: u64, bytes: Vec<u8> },
}

/// Outcome of a write on bytes `d`: the new bytes or the error message.
pub open spec fn write_outcome(d: Seq<u8>, off: u64, bytes: Seq<u8>) -> Result<Seq<u8>, Seq<char>> {
    match write_error(d.len() as int, off, bytes.len() as int) {
        Some(e) => Err(e),
        None => Ok(written(d, off as int, bytes)),
    }
}

/// Outcome of an insertion on bytes `d`.
pub open spec fn insert_outcome(d: Seq<u8>, off: u64, bytes: Seq<u8>) -> Result<Seq<u8>, Seq<char>> {
    match insert_error(d.len() as int, off) {
        Some(e) => Err(e),
        None => Ok(inserted(d, off as int, bytes)),
    }
}

/// Outcome of a deletion of `n` bytes on bytes `d`.
pub open spec fn delete_outcome(d: Seq<u8>, off: u64, n: int) -> Result<Seq<u8>, Seq<char>> {
    match delete_error(d.len() as int, off, n) {
        Some(e) => Err(e),
        None => Ok(deleted(d, off as int, n)),
    }
}

/// Whether `d` holds `bytes` at `off`.
pub open spec fn holds_at(d: Seq<u8>, off: int, bytes: Seq<u8>) -> bool {
    off + bytes.len() <= d.len() && d.subrange(off, off + bytes.len()) == bytes
}

impl EditCommand {
    /// The offset the edit starts at.
    pub open spec fn offset_spec(&self) -> u64 {
        match self {
            EditCommand::Overwrite { offset, .. } => *offset,
            EditCommand::Insert { offset, .. } => *offset,
            EditCommand::Delete { offset, .. } => *offset,
        }
    }

    /// What applying the edit does to bytes `d`.
    pub open spec fn apply_spec(&self, d: Seq<u8>) -> Result<Seq<u8>, Seq<char>> {
        match self {
            EditCommand::Overwrite { offset, new_bytes, .. } => write_outcome(
                d,
                *offset,
                new_bytes@,
            ),
            EditCommand::Insert { offset, bytes } => insert_outcome(d, *offset, bytes@),
            EditCommand::Delete { offset, bytes } => delete_outcome(
                d,
                *offset,
                bytes@.len() as int,
            ),
        }
    }

    /// What taking the edit back does to bytes `d`.
    pub open spec fn undo_spec(&self, d: Seq<u8>) -> Result<Seq<u8>, Seq<char>> {
        match self {
            EditCommand::Overwrite { offset, old_bytes, .. } => write_outcome(
                d,
                *offset,
                old_bytes@,
            ),
            EditCommand::Insert { offset, bytes } => delete_outcome(
                d,
                *offset,
                bytes@.len() as int,
            ),
            EditCommand::Delete { offset, bytes } => insert_outcome(d, *offset, bytes@),
        }
    }

    /// The edit describes a change from `d`: the bytes it records as replaced or
    /// removed are the ones `d` holds at its offset.
    pub open spec fn recorded_before(&self, d: Seq<u8>) -> bool {
        match self {
            EditCommand::Overwrite { offset, old_bytes, new_bytes } => old_bytes@.len()
                == new_bytes@.len() && holds_at(d, *offset as int, old_bytes@),
            EditCommand::Insert { .. } => true,
            EditCommand::Delete { offset, bytes } => holds_at(d, *offset as int, bytes@),
        }
    }

    /// The edit describes a change to `d`: the bytes it records as written or
    /// inserted are the ones `d` holds at its offset.
    pub open spec fn recorded_after(&self, d: Seq<u8>) -> bool {
        match self {
            EditCommand::Overwrite { offset, old_bytes, new_bytes } => old_bytes@.len()
                == new_bytes@.len() && holds_at(d, *offset as int, new_bytes@),
            EditCommand::Insert { offset, bytes } => holds_at(d, *offset as int, bytes@),
            EditCommand::Delete { .. } => true,
        }
    }

    /// The offset the edit starts at.
    pub fn offset(&self) -> (o: u64)
        ensures
            o == self.offset_spec(),
    {
        match self {
            EditCommand::Overwrite { offset, .. } => *offset,
            EditCommand::Insert { offset, .. } => *offset,
            EditCommand::Delete { offset, .. } => *offset,
        }
    }

    /// Performs the edit on `buf`.
    pub fn apply(&self, buf: &mut ByteBuffer) -> (r: Result<(), String>)
        ensures
            match r {
                Ok(()) => {
                    &&& self.apply_spec(old(buf)@) == Ok::<Seq<u8>, Seq<char>>(final(buf)@)
                    &&& final(buf).modified_spec()
                    &&& final(buf).path_spec() == old(buf).path_spec()
                },
                Err(e) => {
                    &&& self.apply_spec(old(buf)@) == Err::<Seq<u8>, Seq<char>>(e@)
                    &&& *final(buf) == *old(buf)
                },
            },
    {
        match self {
            EditCommand::Overwrite { offset, old_bytes: _, new_bytes } => buf.write(
                *offset,
                new_bytes.as_slice(),
            ),
            EditCommand::Insert { offset, bytes } => buf.insert(*offset, bytes.as_slice()),
            EditCommand::Delete { offset, bytes } => buf.delete(*offset, bytes.len()),
        }
    }

    /// Takes the edit back on `buf`.
    pub fn undo(&self, buf: &mut ByteBuffer) -> (r: Result<(), String>)
        ensures
            match r {
                Ok(()) => {
                    &&& self.undo_spec(old(buf)@) == Ok::<Seq<u8>, Seq<char>>(final(buf)@)
                    &&& final(buf).modified_spec()
                    &&& final(buf).path_spec() == old(buf).path_spec()
                },
                Err(e) => {
                    &&& self.undo_spec(old(buf)@) == Err::<Seq<u8>, Seq<char>>(e@)
                    &&& *final(buf) == *old(buf)
                },
            },
    {
        match self {
            EditCommand::Overwrite { offset, old_bytes, new_bytes: _ } => buf.write(
                *offset,
                old_bytes.as_slice(),
            ),
            EditCommand::Insert { offset, bytes } => buf.delete(*offset, bytes.len()),
            EditCommand::Delete { offset, bytes } => buf.insert(*offset, bytes.as_slice()),
        }
    }
}

/// Taking back an edit that was applied restores the bytes, provided the edit
/// records what it replaced or removed and the edited bytes stay addressable by a
/// `u64` offset; the edit then records what it wrote.
pub proof fn lemma_undo_reverts_apply(cmd: EditCommand, d: Seq<u8>)
    requires
        cmd.recorded_before(d),
        cmd.apply_spec(d) is Ok,
        cmd.apply_spec(d)->Ok_0.len() <= u64::MAX,
    ensures
        cmd.recorded_after(cmd.apply_spec(d)->Ok_0),
        cmd.undo_spec(cmd.apply_spec(d)->Ok_0) == Ok::<Seq<u8>, Seq<char>>(d),
{
    let e = cmd.apply_spec(d)->Ok_0;
    match cmd {
        EditCommand::Overwrite { offset, old_bytes, new_bytes } => {
            let off = offset as int;
            let n = new_bytes@.len() as int;
            assert(e =~= d.take(off) + new_bytes@ + d.skip(off + n));
            assert(e.len() == d.len());
            assert(e.subrange(off, off + n) =~= new_bytes@);
            assert(e.take(off) =~= d.take(off));
            assert(e.skip(off + n) =~= d.skip(off + n));
            assert(d =~= d.take(off) + d.subrange(off, off + n) + d.skip(off + n));
            assert(written(e, off, old_bytes@) =~= d);

        },
        EditCommand::Insert { offset, bytes } => {
            let off = offset as int;
            let n = bytes@.len() as int;
            assert(e.subrange(off, off + n) =~= bytes@);
            assert(deleted(e, off, n) =~= d);
        },
        EditCommand::Delete { offset, bytes } => {
            let off = offset as int;
            let n = bytes@.len() as int;
            assert(d.subrange(off, off + n) =~= bytes@);
            assert(inserted(e, off, bytes@) =~= d);
        },
    }
}

/// Applying an edit again after it was taken back restores the bytes, provided
/// the edit records what it wrote and the restored bytes stay addressable by a
/// `u64` offset; the edit then records what it replaced.
pub proof fn lemma_apply_reverts_undo(cmd: EditCommand, d: Seq<u8>)
    requires
        cmd.recorded_after(d),
        cmd.undo_spec(d) is Ok,
        cmd.undo_spec(d)->Ok_0.len() <= u64::MAX,
    ensures
        cmd.recorded_before(cmd.undo_spec(d)->Ok_0),
        cmd.apply_spec(cmd.undo_spec(d)->Ok_0) == Ok::<Seq<u8>, Seq<char>>(d),
{
    let e = cmd.undo_spec(d)->Ok_0;
    match cmd {
        EditCommand::Overwrite { offset, old_bytes, new_bytes } => {
            let off = offset as int;
            let n = old_bytes@.len() as int;
            assert(e =~= d.take(off) + old_bytes@ + d.skip(off + n));
            assert(e.len() == d.len());
            assert(e.subrange(off, off + n) =~= old_bytes@);
            assert(e.take(off) =~= d.take(off));
            assert(e.skip(off + n) =~= d.skip(off + n));
            assert(d =~= d.take(off) + d.subrange(off, off + n) + d.skip(off + n));
            assert(written(e, off, new_bytes@) =~= d);
        },
        EditCommand::Insert { offset, bytes } => {
            let off = offset as int;
            let n = bytes@.len() as int;
            assert(d.subrange(off, off + n) =~= bytes@);
            assert(inserted(e, off, bytes@) =~= d);
        },
        EditCommand::Delete { offset, bytes } => {
            let off = offset as int;
            let n = bytes@.len() as int;
            assert(e.subrange(off, off + n) =~= bytes@);
            assert(deleted(e, off, n) =~= d);
        },
    }
}

} // verus!
