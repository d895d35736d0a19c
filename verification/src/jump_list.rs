//! History of cursor positions to jump back and forth through.
use vstd::prelude::*;

verus! {

/// Abstract state of a jump list.
pub struct JumpState {
    /// Recorded positions, oldest first.
    pub entries: Seq<u64>,
    /// Number of entries before the current place in the history.
    pub index: nat,
    /// Most entries kept.
    pub max_size: nat,
    /// Position the cursor had when the walk back started from the newest entry.
    pub saved_target: Option<u64>,
}

/// No two neighbouring entries are equal.
pub open spec fn no_adjacent_repeats(s: Seq<u64>) -> bool {
    forall|i: int| 0 <= i && i + 1 < s.len() ==> #[trigger] s[i] != s[i + 1]
}

/// The state after `offset` is recorded: entries after the current place are
/// dropped, `offset` is appended unless it repeats the last entry, the oldest
/// entry goes when there are too many, and the place moves to the end.
pub open spec fn push_step(s: JumpState, offset: u64) -> JumpState {
    let kept = if s.index < s.entries.len() {
        s.entries.take(s.index + 1 as int)
    } else {
        s.entries
    };
    let entries = if kept.len() > 0 && kept.last() == offset {
        kept
    } else if kept.len() + 1 > s.max_size {
        kept.push(offset).drop_first()
    } else {
        kept.push(offset)
    };
    JumpState { entries, index: entries.len(), max_size: s.max_size, saved_target: None }
}

/// One step back from cursor position `current`: the state and the position to
/// jump to. Starting from the end of the history saves `current`.
pub open spec fn back_step(s: JumpState, current: u64) -> (JumpState, Option<u64>) {
    let saved = if s.index == s.entries.len() && s.saved_target is None {
        Some(current)
    } else {
        s.saved_target
    };
    if s.index > 0 {
        (
            JumpState { index: (s.index - 1) as nat, saved_target: saved, ..s },
            Some(s.entries[s.index - 1]),
        )
    } else {
        (JumpState { saved_target: saved, ..s }, None)
    }
}

/// One step forward: the state and the position to jump to. Past the newest
/// entry the saved position is returned once.
pub open spec fn forward_step(s: JumpState) -> (JumpState, Option<u64>) {
    if s.index + 1 < s.entries.len() {
        (JumpState { index: s.index + 1, ..s }, Some(s.entries[s.index + 1 as int]))
    } else if s.index + 1 == s.entries.len() {
        match s.saved_target {
            Some(p) => (JumpState { index: s.index + 1, saved_target: None, ..s }, Some(p)),
            None => (s, None),
        }
    } else {
        (s, None)
    }
}

/// Cursor positions visited by jumps, for moving back and forth.
pub struct JumpList {
    entries: Vec<u64>,
    index: usize,
    max_size: usize,
    saved_target: Option<u64>,
}

impl View for JumpList {
    type V = JumpState;

    closed spec fn view(&self) -> JumpState {
        JumpState {
            entries: self.entries@,
            index: self.index as nat,
            max_size: self.max_size as nat,
            saved_target: self.saved_target,
        }
    }
}

impl JumpList {
    /// The place never passes the end, the list never exceeds its size and no
    /// position is recorded twice in a row.
    #[verifier::type_invariant]
    spec fn well_formed(self) -> bool {
        &&& self.index <= self.entries@.len()
        &&& self.entries@.len() <= self.max_size
        &&& no_adjacent_repeats(self.entries@)
    }

    /// An empty list that keeps at most `max_size` positions.
    pub fn new(max_size: usize) -> (jl: Self)
        ensures
            jl@ == (JumpState {
                entries: Seq::empty(),
                index: 0,
                max_size: max_size as nat,
                saved_target: None,
            }),
    {
        JumpList { entries: Vec::new(), index: 0, max_size, saved_target: None }
    }

    /// The recorded positions, oldest first. No two neighbours are equal, there are
    /// no more than the list keeps, and the place in the history is within them.
    pub fn entries(&self) -> (e: &Vec<u64>)
        ensures
            e@ == self@.entries,
            no_adjacent_repeats(e@),
            e@.len() <= self@.max_size,
            self@.index <= e@.len(),
    {
        proof {
            use_type_invariant(self);
        }
        &self.entries
    }

    /// Records the cursor position `offset` before a jump.
    pub fn push(&mut self, offset: u64)
        ensures
            final(self)@ == push_step(old(self)@, offset),
    {
        proof {
            use_type_invariant(&*self);
        }
        let ghost s = self@;
        let keep = if self.index < self.entries.len() {
            self.index + 1
        } else {
            self.entries.len()
        };
        let mut entries: Vec<u64> = Vec::new();
        let mut i: usize = 0;
        while i < keep
            invariant
                i <= keep <= self.entries@.len(),
                entries@ == self.entries@.take(i as int),
            decreases keep - i,
        {
            entries.push(self.entries[i]);
            i = i + 1;
            assert(entries@ =~= self.entries@.take(i as int));
        }
        let ghost kept = entries@;
        assert(kept =~= if s.index < s.entries.len() {
            s.entries.take(s.index + 1 as int)
        } else {
            s.entries
        });
        assert forall|j: int| 0 <= j && j + 1 < kept.len() implies #[trigger] kept[j] != kept[j + 1] by {
            assert(kept[j] == s.entries[j] && kept[j + 1] == s.entries[j + 1]);
        }
        let n = entries.len();
        if n > 0 && entries[n - 1] == offset {
        } else {
            entries.push(offset);
            if entries.len() > self.max_size {
                entries.remove(0);
                assert(entries@ =~= kept.push(offset).drop_first());
            }
        }
        assert forall|j: int| 0 <= j && j + 1 < entries@.len() implies #[trigger] entries@[j] != entries@[j + 1] by {
            if entries@.len() == kept.len() + 1 {
                if j + 1 < kept.len() {
                    assert(entries@[j] == kept[j] && entries@[j + 1] == kept[j + 1]);
                }
            } else if entries@.len() == kept.len() && entries@ != kept {
                assert(entries@[j] == kept.push(offset)[j + 1]);
                assert(entries@[j + 1] == kept.push(offset)[j + 2]);
                if j + 2 < kept.len() {
                    assert(kept[j + 1] != kept[j + 2]);
                }
            }
        }
        let len = entries.len();
        self.index = 0;
        self.entries = entries;
        self.index = len;
        self.saved_target = None;
        assert(self@ =~= push_step(s, offset));
    }

    /// Jumps one step back from the cursor position `current`, returning where to go.
    pub fn back(&mut self, current: u64) -> (r: Option<u64>)
        ensures
            (final(self)@, r) == back_step(old(self)@, current),
    {
        proof {
            use_type_invariant(&*self);
        }
        if self.index == self.entries.len() && self.saved_target.is_none() {
            self.saved_target = Some(current);
        }
        if self.index > 0 {
            self.index = self.index - 1;
            Some(self.entries[self.index])
        } else {
            None
        }
    }

    /// Jumps one step forward, returning where to go.
    pub fn forward(&mut self) -> (r: Option<u64>)
        ensures
            (final(self)@, r) == forward_step(old(self)@),
    {
        proof {
            use_type_invariant(&*self);
        }
        let len = self.entries.len();
        if len > 0 && self.index < len - 1 {
            self.index = self.index + 1;
            Some(self.entries[self.index])
        } else if len > 0 && self.index == len - 1 {
            match self.saved_target {
                Some(pos) => {
                    self.saved_target = None;
                    self.index = self.index + 1;
                    Some(pos)
                },
                None => None,
            }
        } else {
            None
        }
    }

    /// Forgets every recorded position.
    pub fn clear(&mut self)
        ensures
            final(self)@ == (JumpState {
                entries: Seq::empty(),
                index: 0,
                max_size: old(self)@.max_size,
                saved_target: None,
            }),
    {
        proof {
            use_type_invariant(&*self);
        }
        self.index = 0;
        self.entries = Vec::new();
        self.saved_target = None;
    }
}

/// A step back followed by a step forward returns to where the cursor was and
/// restores the list: to `current` when the walk starts at the newest entry, to
/// the entry the cursor is on otherwise.
pub proof fn lemma_forward_reverts_back(s: JumpState, current: u64)
    requires
        0 < s.index <= s.entries.len(),
        s.index == s.entries.len() ==> s.saved_target is None,
    ensures
        ({
            let (s1, _) = back_step(s, current);
            forward_step(s1) == (s, Some(
                if s.index == s.entries.len() {
                    current
                } else {
                    s.entries[s.index as int]
                },
            ))
        }),
{
}

/// A step forward that moves, followed by a step back from the position it
/// returned, restores the list and returns to the entry the cursor was on.
pub proof fn lemma_back_reverts_forward(s: JumpState)
    requires
        s.index < s.entries.len(),
        forward_step(s).1 is Some,
    ensures
        ({
            let (s1, r1) = forward_step(s);
            back_step(s1, r1->Some_0) == (s, Some(s.entries[s.index as int]))
        }),
{
}

/// After a position is recorded, the first step back returns it (when the list
/// keeps at least one position).
pub proof fn lemma_back_after_push(s: JumpState, offset: u64, current: u64)
    requires
        s.index <= s.entries.len(),
        s.max_size >= 1,
    ensures
        back_step(push_step(s, offset), current).1 == Some(offset),
{
    let t = push_step(s, offset);
    assert(t.entries.len() > 0 && t.entries.last() == offset);
}

} // verus!
