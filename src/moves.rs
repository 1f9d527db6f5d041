//! Cursor positions, document order and motion extents.
use vstd::prelude::*;

verus! {

/// A position `(x, y)`: `x` is a character index inside line `y`.
pub type Pos = (usize, usize);

/// `a` comes no later than `b` in document order.
pub open spec fn pos_le(a: Pos, b: Pos) -> bool {
    a.1 < b.1 || (a.1 == b.1 && a.0 <= b.0)
}

/// The two endpoints of a motion.
#[derive(Debug, Clone, Copy)]
pub struct MoveInfo {
    pub start_pos: Pos,
    pub end_pos: Pos,
}

impl PartialEq for MoveInfo {
    fn eq(&self, o: &MoveInfo) -> (r: bool) {
        self.start_pos.0 == o.start_pos.0 && self.start_pos.1 == o.start_pos.1
            && self.end_pos.0 == o.end_pos.0 && self.end_pos.1 == o.end_pos.1
    }
}

impl vstd::std_specs::cmp::PartialEqSpecImpl for MoveInfo {
    open spec fn obeys_eq_spec() -> bool {
        true
    }

    open spec fn eq_spec(&self, o: &MoveInfo) -> bool {
        *self == *o
    }
}

impl MoveInfo {
    pub open spec fn spec_is_backwards(&self) -> bool {
        pos_le(self.end_pos, self.start_pos) && self.end_pos != self.start_pos
    }

    pub open spec fn spec_ordered(&self) -> MoveInfo {
        if self.spec_is_backwards() {
            MoveInfo { start_pos: self.end_pos, end_pos: self.start_pos }
        } else {
            *self
        }
    }

    /// The start comes strictly after the end.
    pub fn is_backwards(&self) -> (r: bool)
        ensures
            r == self.spec_is_backwards(),
            r == (self.start_pos.1 > self.end_pos.1 || (self.start_pos.1 == self.end_pos.1
                && self.start_pos.0 > self.end_pos.0)),
    {
        self.start_pos.1 > self.end_pos.1 || (self.start_pos.1 == self.end_pos.1
            && self.start_pos.0 > self.end_pos.0)
    }

    /// The same extent with its endpoints in document order.
    pub fn get_ordered(&self) -> (r: MoveInfo)
        ensures
            r == self.spec_ordered(),
            pos_le(r.start_pos, r.end_pos),
    {
        if self.is_backwards() {
            MoveInfo { start_pos: self.end_pos, end_pos: self.start_pos }
        } else {
            *self
        }
    }

    /// Moves the start to `(x, y)` when that lies at or before the start in both
    /// coordinates, else moves the end there; the result is ordered.
    pub fn expand_or_shrink(&self, x: usize, y: usize) -> (r: MoveInfo)
        ensures
            r == (if x <= self.start_pos.0 && y <= self.start_pos.1 {
                MoveInfo { start_pos: (x, y), end_pos: self.end_pos }
            } else {
                MoveInfo { start_pos: self.start_pos, end_pos: (x, y) }
            }).spec_ordered(),
    {
        if x <= self.start_pos.0 && y <= self.start_pos.1 {
            MoveInfo { start_pos: (x, y), end_pos: self.end_pos }.get_ordered()
        } else {
            MoveInfo { start_pos: self.start_pos, end_pos: (x, y) }.get_ordered()
        }
    }
}

/// Ordering an extent twice gives what ordering it once gives.
pub proof fn lemma_ordered_idempotent(m: MoveInfo)
    ensures
        m.spec_ordered().spec_ordered() == m.spec_ordered(),
{
}

} // verus!
