//! Choosing an existing note: a clamped cursor over the listed entries for
//! interactive picking, and a uniformly random pick.

use crate::Error;
use vstd::prelude::*;

verus! {

/// The keys the interactive picker reacts to.
#[derive(Debug, Clone, Copy, PartialEq, Eq, Structural)]
pub enum SelectKey {
    Up,
    Down,
    Confirm,
}

/// The interactive picker's whole state: a cursor position within a
/// non-empty list of entries. The caller renders the list and feeds keys;
/// every decision is made here.
#[derive(Debug, Clone, Copy, PartialEq, Eq, Structural)]
pub struct SelectCursor {
    /// How many entries are listed.
    pub len: usize,
    /// The entry the cursor is on.
    pub pos: usize,
}

impl SelectCursor {
    /// The cursor always stands on an entry.
    pub open spec fn wf(self) -> bool {
        self.pos < self.len
    }

    /// Starts the picker over `len` entries with the cursor on the first;
    /// an empty list is refused with `NoNotesFound`.
    pub fn new(len: usize) -> (r: Result<SelectCursor, Error>)
        ensures
            len == 0 <==> r is Err,
            r matches Err(e) ==> e == Error::NoNotesFound,
            r matches Ok(c) ==> c.wf() && c.len == len && c.pos == 0,
    {
        if len == 0 {
            Err(Error::NoNotesFound)
        } else {
            Ok(SelectCursor { len, pos: 0 })
        }
    }

    /// Reacts to one key: `Down` moves the cursor one entry later and `Up`
    /// one earlier, each clamped at the list boundary; `Confirm` ends the
    /// interaction, yielding the entry under the cursor.
    pub fn step(&mut self, key: SelectKey) -> (r: Option<usize>)
        requires
            old(self).wf(),
        ensures
            final(self).wf(),
            final(self).len == old(self).len,
            key is Down ==> r is None && final(self).pos == (if old(self).pos + 1 < old(self).len {
                old(self).pos + 1
            } else {
                old(self).len - 1
            }),
            key is Up ==> r is None && final(self).pos == (if old(self).pos > 0 {
                old(self).pos - 1
            } else {
                0
            }),
            key is Confirm ==> r == Some(old(self).pos) && final(self).pos == old(self).pos,
    {
        match key {
            SelectKey::Down => {
                if self.pos + 1 < self.len {
                    self.pos = self.pos + 1;
                }
                None
            },
            SelectKey::Up => {
                if self.pos > 0 {
                    self.pos = self.pos - 1;
                }
                None
            },
            SelectKey::Confirm => Some(self.pos),
        }
    }
}

/// Relies on rand's `random_range`: the result is uniformly drawn from the
/// given non-empty range, in particular below `n`.
#[verifier::external_body]
fn random_below(n: usize) -> (r: usize)
    requires
        n > 0,
    ensures
        r < n,
{
    rand::random_range(0..n)
}

/// Picks one of `n` entries uniformly at random; an empty list is refused
/// with `NoNotesFound`.
pub fn pick_random(n: usize) -> (r: Result<usize, Error>)
    ensures
        n == 0 <==> r is Err,
        r matches Err(e) ==> e == Error::NoNotesFound,
        r matches Ok(i) ==> i < n,
{
    if n == 0 {
        Err(Error::NoNotesFound)
    } else {
        Ok(random_below(n))
    }
}

} // verus!
