//! Undo and redo history of edits.
use vstd::prelude::*;

use crate::buffer::ByteBuffer;
use crate::commands::{EditCommand, lemma_undo_reverts_apply, lemma_apply_reverts_undo};

verus! {

/// The undo stack after `cmd` is recorded: `cmd` goes on top and, when the stack
/// then holds more than `max_depth` edits, the oldest one is dropped.
pub open spec fn push_step(undo: Seq<EditCommand>, max_depth: nat, cmd: EditCommand) -> Seq<
    EditCommand,
> {
    let u = undo.push(cmd);
    if u.len() > max_depth {
        u.drop_first()
    } else {
        u
    }
}

/// One undo: the stacks, the bytes and the result after the newest edit is taken
/// back. An edit that cannot be taken back is dropped from the history.
pub open spec fn undo_step(undo: Seq<EditCommand>, redo: Seq<EditCommand>, d: Seq<u8>) -> (
    Seq<EditCommand>,
    Seq<EditCommand>,
    Seq<u8>,
    Result<u64, Seq<char>>,
) {
    if undo.len() == 0 {
        (undo, redo, d, Err("Nothing to undo"@))
    } else {
        let c = undo.last();
        match c.undo_spec(d) {
            Ok(d2) => (undo.drop_last(), redo.push(c), d2, Ok(c.offset_spec())),
            Err(e) => (undo.drop_last(), redo, d, Err(e)),
        }
    }
}

/// One redo: the stacks, the bytes and the result after the most recently undone
/// edit is applied again. An edit that cannot be applied is dropped from the history.
pub open spec fn redo_step(undo: Seq<EditCommand>, redo: Seq<EditCommand>, d: Seq<u8>) -> (
    Seq<EditCommand>,
    Seq<EditCommand>,
    Seq<u8>,
    Result<u64, Seq<char>>,
) {
    if redo.len() == 0 {
        (undo, redo, d, Err("Nothing to redo"@))
    } else {
        let c = redo.last();
        match c.apply_spec(d) {
            Ok(d2) => (undo.push(c), redo.drop_last(), d2, Ok(c.offset_spec())),
            Err(e) => (undo, redo.drop_last(), d, Err(e)),
        }
    }
}

/// Maps the result of an exec call to the result of a step.
pub open spec fn step_result(r: Result<u64, String>) -> Result<u64, Seq<char>> {
    match r {
        Ok(o) => Ok(o),
        Err(e) => Err(e@),
    }
}

/// Redo right after a successful undo restores the bytes and both stacks, when the
/// undone edit records what it wrote and the bytes stay addressable by a `u64` offset.
pub proof fn lemma_redo_reverts_undo(undo: Seq<EditCommand>, redo: Seq<EditCommand>, d: Seq<u8>)
    requires
        undo.len() > 0,
        undo.last().recorded_after(d),
        undo_step(undo, redo, d).3 is Ok,
        undo_step(undo, redo, d).2.len() <= u64::MAX,
    ensures
        ({
            let (u1, r1, d1, res1) = undo_step(undo, redo, d);
            redo_step(u1, r1, d1) == (undo, redo, d, res1)
        }),
{
    let c = undo.last();
    lemma_apply_reverts_undo(c, d);
    assert(undo.drop_last().push(c) =~= undo);
    assert(redo.push(c).drop_last() =~= redo);
}

/// Undo right after a successful redo restores the bytes and both stacks, when the
/// redone edit records what it replaced and the bytes stay addressable by a `u64` offset.
pub proof fn lemma_undo_reverts_redo(undo: Seq<EditCommand>, redo: Seq<EditCommand>, d: Seq<u8>)
    requires
        redo.len() > 0,
        redo.last().recorded_before(d),
        redo_step(undo, redo, d).3 is Ok,
        redo_step(undo, redo, d).2.len() <= u64::MAX,
    ensures
        ({
            let (u1, r1, d1, res1) = redo_step(undo, redo, d);
            undo_step(u1, r1, d1) == (undo, redo, d, res1)
        }),
{
    let c = redo.last();
    lemma_undo_reverts_apply(c, d);
    assert(undo.push(c).drop_last() =~= undo);
    assert(redo.drop_last().push(c) =~= redo);
}

/// After an edit is applied and recorded, undo takes exactly that edit back: it
/// restores the bytes, reports the edit's offset and makes the edit redoable
/// (when the history keeps at least one edit).
pub proof fn lemma_undo_after_push(
    undo: Seq<EditCommand>,
    redo: Seq<EditCommand>,
    max_depth: nat,
    cmd: EditCommand,
    d: Seq<u8>,
)
    requires
        max_depth >= 1,
        cmd.recorded_before(d),
        cmd.apply_spec(d) is Ok,
        cmd.apply_spec(d)->Ok_0.len() <= u64::MAX,
    ensures
        ({
            let u = push_step(undo, max_depth, cmd);
            undo_step(u, redo, cmd.apply_spec(d)->Ok_0) == (
                u.drop_last(),
                redo.push(cmd),
                d,
                Ok::<u64, Seq<char>>(cmd.offset_spec()),
            )
        }),
{
    lemma_undo_reverts_apply(cmd, d);
    let u = push_step(undo, max_depth, cmd);
    assert(u.len() > 0 && u.last() == cmd);
}

/// The undo and redo stacks of a buffer's edits.
pub struct UndoManager {
    undo_stack: Vec<EditCommand>,
    redo_stack: Vec<EditCommand>,
    max_depth: usize,
}

impl UndoManager {
    /// Edits that can be undone, oldest first.
    pub closed spec fn undo_spec(&self) -> Seq<EditCommand> {
        self.undo_stack@
    }

    /// Edits that can be redone, the next one to redo last.
    pub closed spec fn redo_spec(&self) -> Seq<EditCommand> {
        self.redo_stack@
    }

    /// How many edits the undo stack keeps.
    pub closed spec fn max_depth_spec(&self) -> nat {
        self.max_depth as nat
    }

    /// An empty history that keeps at most `max_depth` edits.
    pub fn new(max_depth: usize) -> (um: Self)
        ensures
            um.undo_spec() == Seq::<EditCommand>::empty(),
            um.redo_spec() == Seq::<EditCommand>::empty(),
            um.max_depth_spec() == max_depth,
    {
        UndoManager { undo_stack: Vec::new(), redo_stack: Vec::new(), max_depth }
    }

    /// Records an edit that was just applied; this forgets every undone edit.
    pub fn push(&mut self, cmd: EditCommand)
        ensures
            final(self).undo_spec() == push_step(
                old(self).undo_spec(),
                old(self).max_depth_spec(),
                cmd,
            ),
            final(self).redo_spec() == Seq::<EditCommand>::empty(),
            final(self).max_depth_spec() == old(self).max_depth_spec(),
    {
        self.redo_stack.clear();
        self.undo_stack.push(cmd);
        if self.undo_stack.len() > self.max_depth {
            self.undo_stack.remove(0);
        }
    }

    /// Whether there is an edit to undo.
    pub fn can_undo(&self) -> (b: bool)
        ensures
            b == (self.undo_spec().len() > 0),
    {
        self.undo_stack.len() != 0
    }

    /// Whether there is an edit to redo.
    pub fn can_redo(&self) -> (b: bool)
        ensures
            b == (self.redo_spec().len() > 0),
    {
        self.redo_stack.len() != 0
    }

    /// Takes the newest edit back on `buf` and returns the offset it started at.
    pub fn undo(&mut self, buf: &mut ByteBuffer) -> (r: Result<u64, String>)
        ensures
            (final(self).undo_spec(), final(self).redo_spec(), final(buf)@, step_result(r))
                == undo_step(old(self).undo_spec(), old(self).redo_spec(), old(buf)@),
            final(self).max_depth_spec() == old(self).max_depth_spec(),
            final(buf).path_spec() == old(buf).path_spec(),
            r is Ok ==> final(buf).modified_spec(),
            r is Err ==> *final(buf) == *old(buf),
    {
        let cmd = match self.undo_stack.pop() {
            Some(c) => c,
            None => return Err("Nothing to undo".to_string()),
        };
        let offset = cmd.offset();
        match cmd.undo(buf) {
            Ok(()) => {},
            Err(e) => return Err(e),
        }
        self.redo_stack.push(cmd);
        Ok(offset)
    }

    /// Applies the most recently undone edit again on `buf` and returns the offset
    /// it starts at.
    pub fn redo(&mut self, buf: &mut ByteBuffer) -> (r: Result<u64, String>)
        ensures
            (final(self).undo_spec(), final(self).redo_spec(), final(buf)@, step_result(r))
                == redo_step(old(self).undo_spec(), old(self).redo_spec(), old(buf)@),
            final(self).max_depth_spec() == old(self).max_depth_spec(),
            final(buf).path_spec() == old(buf).path_spec(),
            r is Ok ==> final(buf).modified_spec(),
            r is Err ==> *final(buf) == *old(buf),
    {
        let cmd = match self.redo_stack.pop() {
            Some(c) => c,
            None => return Err("Nothing to redo".to_string()),
        };
        let offset = cmd.offset();
        match cmd.apply(buf) {
            Ok(()) => {},
            Err(e) => return Err(e),
        }
        self.undo_stack.push(cmd);
        Ok(offset)
    }

    /// Changes how many edits the undo stack keeps; the stack is trimmed on the next push.
    pub fn set_max_depth(&mut self, max_depth: usize)
        ensures
            final(self).undo_spec() == old(self).undo_spec(),
            final(self).redo_spec() == old(self).redo_spec(),
            final(self).max_depth_spec() == max_depth,
    {
        self.max_depth = max_depth;
    }
}

} // verus!
