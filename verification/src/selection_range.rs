//! The selected display columns of one row, and how a column lies against them.

use vstd::prelude::*;

use crate::units::ChUnit;

verus! {

/// Where a display column lies with respect to a range.
#[derive(Clone, Copy, Debug, PartialEq, Eq, Hash, Structural)]
pub enum CaretLocationInRange {
    /// Left of the range's start.
    Underflow,
    /// At or right of the start, and left of the end.
    Contained,
    /// At or right of the range's end.
    Overflow,
}

/// The way a caret went between two positions.
#[derive(Clone, Copy, Debug, PartialEq, Eq, Hash, Structural)]
pub enum CaretMovementDirection {
    Up,
    Down,
    Left,
    Right,
    Unchanged,
}

/// The half-open interval `[start, end)` of display columns selected on a row.
/// A range that selects something has `start < end`.
#[derive(Clone, Copy, Debug, PartialEq, Eq, Hash, Structural)]
pub struct SelectionRange {
    pub start_display_col_index: ChUnit,
    pub end_display_col_index: ChUnit,
}

impl SelectionRange {
    /// A range selects something exactly when its start lies left of its end.
    pub open spec fn is_valid(&self) -> bool {
        self.start_display_col_index < self.end_display_col_index
    }

    pub open spec fn spec_locate(&self, col: ChUnit) -> CaretLocationInRange {
        if col < self.start_display_col_index {
            CaretLocationInRange::Underflow
        } else if col < self.end_display_col_index {
            CaretLocationInRange::Contained
        } else {
            CaretLocationInRange::Overflow
        }
    }

    pub open spec fn spec_direction(previous: ChUnit, current: ChUnit) -> CaretMovementDirection {
        if current < previous {
            CaretMovementDirection::Left
        } else if current > previous {
            CaretMovementDirection::Right
        } else {
            CaretMovementDirection::Unchanged
        }
    }

    pub fn new(start_display_col_index: ChUnit, end_display_col_index: ChUnit) -> (r: SelectionRange)
        ensures
            r.start_display_col_index == start_display_col_index,
            r.end_display_col_index == end_display_col_index,
    {
        SelectionRange { start_display_col_index, end_display_col_index }
    }

    /// Classifies a column: the start is inside the range, the end is not.
    pub fn locate(&self, col: ChUnit) -> (loc: CaretLocationInRange)
        ensures
            loc == self.spec_locate(col),
    {
        if col < self.start_display_col_index {
            CaretLocationInRange::Underflow
        } else if col < self.end_display_col_index {
            CaretLocationInRange::Contained
        } else {
            CaretLocationInRange::Overflow
        }
    }

    /// Moves the start left by `amount`.
    pub fn grow_start_by(&self, amount: ChUnit) -> (r: SelectionRange)
        requires
            amount <= self.start_display_col_index,
        ensures
            r.start_display_col_index == self.start_display_col_index - amount,
            r.end_display_col_index == self.end_display_col_index,
    {
        SelectionRange {
            start_display_col_index: self.start_display_col_index - amount,
            end_display_col_index: self.end_display_col_index,
        }
    }

    /// Moves the start right by `amount`.
    pub fn shrink_start_by(&self, amount: ChUnit) -> (r: SelectionRange)
        requires
            self.start_display_col_index + amount <= usize::MAX,
        ensures
            r.start_display_col_index == self.start_display_col_index + amount,
            r.end_display_col_index == self.end_display_col_index,
    {
        SelectionRange {
            start_display_col_index: self.start_display_col_index + amount,
            end_display_col_index: self.end_display_col_index,
        }
    }

    /// Moves the end right by `amount`.
    pub fn grow_end_by(&self, amount: ChUnit) -> (r: SelectionRange)
        requires
            self.end_display_col_index + amount <= usize::MAX,
        ensures
            r.start_display_col_index == self.start_display_col_index,
            r.end_display_col_index == self.end_display_col_index + amount,
    {
        SelectionRange {
            start_display_col_index: self.start_display_col_index,
            end_display_col_index: self.end_display_col_index + amount,
        }
    }

    /// Moves the end left by `amount`.
    pub fn shrink_end_by(&self, amount: ChUnit) -> (r: SelectionRange)
        requires
            amount <= self.end_display_col_index,
        ensures
            r.start_display_col_index == self.start_display_col_index,
            r.end_display_col_index == self.end_display_col_index - amount,
    {
        SelectionRange {
            start_display_col_index: self.start_display_col_index,
            end_display_col_index: self.end_display_col_index - amount,
        }
    }

    /// Compares two columns of one row.
    pub fn caret_movement_direction(previous: ChUnit, current: ChUnit) -> (d: CaretMovementDirection)
        ensures
            d == Self::spec_direction(previous, current),
    {
        if current < previous {
            CaretMovementDirection::Left
        } else if current > previous {
            CaretMovementDirection::Right
        } else {
            CaretMovementDirection::Unchanged
        }
    }
}

} // verus!
