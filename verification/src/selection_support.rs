//! How a selection follows the caret: from the caret's place before a move
//! and its place after it, the selection map is brought up to date.

use vstd::prelude::*;

use crate::editor_buffer::{BufferModel, EditorBuffer};
use crate::selection_map::{all_valid, with_range, RowIndex};
use crate::selection_range::{CaretLocationInRange, CaretMovementDirection, SelectionRange};
use crate::units::{ChUnit, Position};

verus! {

/// The map with the columns from `start` up to `end` selected on `row`, or
/// without an entry for `row` where these do not make a range that selects
/// something.
pub open spec fn with_columns(
    map: Map<RowIndex, SelectionRange>,
    row: RowIndex,
    start: int,
    end: int,
) -> Map<RowIndex, SelectionRange> {
    if 0 <= start < end <= usize::MAX {
        map.insert(
            row,
            SelectionRange {
                start_display_col_index: start as usize,
                end_display_col_index: end as usize,
            },
        )
    } else {
        map.remove(row)
    }
}

/// The selection after the caret went from column `previous` to column
/// `current` on `row`.
///
/// Without a range on the row, the columns between the two are selected.
/// With one, it depends on where the two columns lie against it and on the
/// direction:
/// - from its end or beyond into it, leftwards: the end comes left by the
///   distance moved;
/// - from inside it to the left of its start: the start goes left to the caret;
/// - from its end or beyond further right: the end goes right to the caret;
/// - from inside it rightwards: the start comes right to the caret;
/// - otherwise it stays.
/// A range that would select nothing is taken out instead.
pub open spec fn single_line_selection(
    map: Map<RowIndex, SelectionRange>,
    row: RowIndex,
    previous: ChUnit,
    current: ChUnit,
) -> Map<RowIndex, SelectionRange> {
    if !map.contains_key(row) {
        with_columns(
            map,
            row,
            if previous <= current {
                previous as int
            } else {
                current as int
            },
            if previous <= current {
                current as int
            } else {
                previous as int
            },
        )
    } else {
        let start = map[row].start_display_col_index as int;
        let end = map[row].end_display_col_index as int;
        match (
            map[row].spec_locate(previous),
            map[row].spec_locate(current),
            SelectionRange::spec_direction(previous, current),
        ) {
            (
                CaretLocationInRange::Overflow,
                CaretLocationInRange::Contained,
                CaretMovementDirection::Left,
            ) => with_columns(map, row, start, end - (previous - current)),
            (
                CaretLocationInRange::Contained,
                CaretLocationInRange::Underflow,
                CaretMovementDirection::Left,
            ) => with_columns(map, row, start - (start - current), end),
            (
                CaretLocationInRange::Overflow,
                CaretLocationInRange::Overflow,
                CaretMovementDirection::Right,
            ) => with_columns(map, row, start, end + (current - end)),
            (
                CaretLocationInRange::Contained,
                CaretLocationInRange::Contained,
                CaretMovementDirection::Right,
            ) => with_columns(map, row, start + (current - start), end),
            (
                CaretLocationInRange::Contained,
                CaretLocationInRange::Overflow,
                CaretMovementDirection::Right,
            ) => with_columns(map, row, start + (current - start), end),
            _ => map,
        }
    }
}

/// The map in which every row of the document from `from` up to, not
/// including, `to` is selected from column 0 to its end. A row without
/// columns has nothing to select and so no entry. Other rows keep what
/// they have.
pub open spec fn with_rows_in_full(
    buffer: BufferModel,
    map: Map<RowIndex, SelectionRange>,
    from: int,
    to: int,
) -> Map<RowIndex, SelectionRange> {
    Map::new(
        |row: RowIndex|
            if from <= row < to && row < buffer.lines.len() {
                buffer.width_of_row(row as int) > 0
            } else {
                map.contains_key(row)
            },
        |row: RowIndex|
            if from <= row < to && row < buffer.lines.len() {
                SelectionRange {
                    start_display_col_index: 0,
                    end_display_col_index: buffer.width_of_row(row as int) as usize,
                }
            } else {
                map[row]
            },
    )
}

/// The selection after the caret went from `previous` to `current` on
/// another row.
///
/// The rows strictly between the two are selected in full. Going down, the
/// row left behind is selected from the start of the range it had, or from
/// the caret's old column, to its end, and the row arrived at from column 0
/// to the caret. Going up, the row left behind is selected from column 0 to
/// the end of the range it had, or to the caret's old column, and the row
/// arrived at from the caret to its end. On one row nothing changes.
///
/// Each move is read by itself: a move back towards where a selection began
/// does not take back what the moves before it selected. To begin anew, the
/// selection is cleared first.
pub open spec fn multiline_selection(
    buffer: BufferModel,
    previous: Position,
    current: Position,
) -> Map<RowIndex, SelectionRange> {
    let map = buffer.selection;
    if current.row_index == previous.row_index {
        map
    } else if current.row_index > previous.row_index {
        let first = previous.row_index;
        let last = current.row_index;
        let start = if map.contains_key(first) {
            map[first].start_display_col_index
        } else {
            previous.col_index
        };
        with_columns(
            with_columns(
                with_rows_in_full(buffer, map, first + 1, last as int),
                first,
                start as int,
                buffer.width_of_row(first as int) as int,
            ),
            last,
            0,
            current.col_index as int,
        )
    } else {
        let first = current.row_index;
        let last = previous.row_index;
        let end = if map.contains_key(last) {
            map[last].end_display_col_index
        } else {
            previous.col_index
        };
        with_columns(
            with_columns(
                with_rows_in_full(buffer, map, first + 1, last as int),
                last,
                0,
                end as int,
            ),
            first,
            current.col_index as int,
            buffer.width_of_row(first as int) as int,
        )
    }
}

/// The selection after a move up or down that the first or last row of the
/// document held back, so that the caret stayed on its row.
///
/// With the caret further left than before, the row is selected from column
/// 0 to the end of the range it had, or to the caret's old column. With the
/// caret further right, the range the row had is drawn out to the row's end
/// if the document has the row, and without a range the columns from the
/// caret's old column to its new one are selected. Otherwise, and with the
/// two positions on different rows, nothing changes.
pub open spec fn blocked_move_selection(
    buffer: BufferModel,
    previous: Position,
    current: Position,
) -> Map<RowIndex, SelectionRange> {
    let map = buffer.selection;
    let row = current.row_index;
    if current.row_index != previous.row_index {
        map
    } else if current.col_index < previous.col_index {
        with_columns(
            map,
            row,
            0,
            if map.contains_key(row) {
                map[row].end_display_col_index as int
            } else {
                previous.col_index as int
            },
        )
    } else if current.col_index > previous.col_index {
        if !map.contains_key(row) {
            with_columns(map, row, previous.col_index as int, current.col_index as int)
        } else if row < buffer.lines.len() {
            with_columns(
                map,
                row,
                map[row].start_display_col_index as int,
                buffer.width_of_row(row as int) as int,
            )
        } else {
            map
        }
    } else {
        map
    }
}

/// Whatever the move on a row, no range of the selection is left with its
/// start at or right of its end: such a range is taken out.
pub proof fn lemma_single_line_selection_valid(
    map: Map<RowIndex, SelectionRange>,
    row: RowIndex,
    previous: ChUnit,
    current: ChUnit,
)
    requires
        all_valid(map),
    ensures
        all_valid(single_line_selection(map, row, previous, current)),
        forall|other: RowIndex|
            other != row ==> (single_line_selection(map, row, previous, current).contains_key(other)
                <==> map.contains_key(other)),
        forall|other: RowIndex|
            other != row && map.contains_key(other) ==> single_line_selection(
                map,
                row,
                previous,
                current,
            )[other] == map[other],
{
}

/// The functions that keep a buffer's selection in step with its caret.
pub struct EditorBufferApi;

impl EditorBufferApi {
    /// Brings the selection on `row_index` up to date after the caret went
    /// from one column of that row to another.
    pub fn handle_selection_single_line_caret_movement(
        editor_buffer: &mut EditorBuffer,
        row_index: RowIndex,
        previous_caret_display_col_index: ChUnit,
        current_caret_display_col_index: ChUnit,
    )
        requires
            old(editor_buffer).wf(),
        ensures
            final(editor_buffer).wf(),
            final(editor_buffer)@ == old(editor_buffer)@.with_selection(
                single_line_selection(
                    old(editor_buffer)@.selection,
                    row_index,
                    previous_caret_display_col_index,
                    current_caret_display_col_index,
                ),
            ),
    {
        let previous = previous_caret_display_col_index;
        let current = current_caret_display_col_index;
        let ghost before = editor_buffer@;

        let range = match editor_buffer.get_selection_map().get(row_index) {
            None => {
                let new_range = if previous <= current {
                    SelectionRange::new(previous, current)
                } else {
                    SelectionRange::new(current, previous)
                };
                editor_buffer.set_selection_range(row_index, new_range);
                return ;
            },
            Some(range) => *range,
        };

        match (
            range.locate(previous),
            range.locate(current),
            SelectionRange::caret_movement_direction(previous, current),
        ) {
            // Left, the end comes in.
            (
                CaretLocationInRange::Overflow,
                CaretLocationInRange::Contained,
                CaretMovementDirection::Left,
            ) => {
                let delta = previous - current;
                if delta <= range.end_display_col_index {
                    editor_buffer.set_selection_range(row_index, range.shrink_end_by(delta));
                } else {
                    editor_buffer.remove_selection_range(row_index);
                }
            },
            // Left, the start goes out.
            (
                CaretLocationInRange::Contained,
                CaretLocationInRange::Underflow,
                CaretMovementDirection::Left,
            ) => {
                let delta = range.start_display_col_index - current;
                editor_buffer.set_selection_range(row_index, range.grow_start_by(delta));
            },
            // Right, the end goes out.
            (
                CaretLocationInRange::Overflow,
                CaretLocationInRange::Overflow,
                CaretMovementDirection::Right,
            ) => {
                let delta = current - range.end_display_col_index;
                editor_buffer.set_selection_range(row_index, range.grow_end_by(delta));
            },
            // Right, the start comes in.
            (
                CaretLocationInRange::Contained,
                CaretLocationInRange::Contained,
                CaretMovementDirection::Right,
            ) | (
                CaretLocationInRange::Contained,
                CaretLocationInRange::Overflow,
                CaretMovementDirection::Right,
            ) => {
                let delta = current - range.start_display_col_index;
                editor_buffer.set_selection_range(row_index, range.shrink_start_by(delta));
            },
            _ => {
                proof {
                    assert(before.with_selection(before.selection) == before);
                }
            },
        }
        proof {
            assert(editor_buffer@.selection =~= single_line_selection(
                before.selection,
                row_index,
                previous,
                current,
            ));
        }
    }

    /// Brings the selection up to date after the caret went from one row to
    /// another.
    pub fn handle_selection_multiline_caret_movement(
        editor_buffer: &mut EditorBuffer,
        previous_caret_display_position: Position,
        current_caret_display_position: Position,
    )
        requires
            old(editor_buffer).wf(),
        ensures
            final(editor_buffer).wf(),
            final(editor_buffer)@ == old(editor_buffer)@.with_selection(
                multiline_selection(
                    old(editor_buffer)@,
                    previous_caret_display_position,
                    current_caret_display_position,
                ),
            ),
    {
        let current = current_caret_display_position;
        let previous = previous_caret_display_position;
        let ghost before = editor_buffer@;

        if current.row_index == previous.row_index {
            proof {
                assert(before.with_selection(before.selection) == before);
            }
            return ;
        }
        let going_down = current.row_index > previous.row_index;
        let first = if going_down {
            previous.row_index
        } else {
            current.row_index
        };
        let last = if going_down {
            current.row_index
        } else {
            previous.row_index
        };

        // The rows in between, as far as the document has them.
        let line_count = editor_buffer.get_lines().len();
        let stop = if last < line_count {
            last
        } else {
            line_count
        };
        let mut row_index = first + 1;
        proof {
            assert(before.selection =~= with_rows_in_full(
                before,
                before.selection,
                first + 1,
                row_index as int,
            ));
            assert(before.with_selection(before.selection) == before);
        }
        while row_index < stop
            invariant
                first < row_index <= last,
                stop <= last,
                stop <= line_count == before.lines.len(),
                editor_buffer.wf(),
                editor_buffer@ == before.with_selection(
                    with_rows_in_full(before, before.selection, first + 1, row_index as int),
                ),
            decreases stop - row_index,
        {
            let width = editor_buffer.get_line_display_width(row_index);
            editor_buffer.set_selection_range(row_index, SelectionRange::new(0, width));
            proof {
                assert(editor_buffer@.selection =~= with_rows_in_full(
                    before,
                    before.selection,
                    first + 1,
                    row_index + 1,
                ));
            }
            row_index += 1;
        }
        proof {
            assert(with_rows_in_full(before, before.selection, first + 1, row_index as int)
                =~= with_rows_in_full(before, before.selection, first + 1, last as int));
        }

        // The rows at the two ends.
        if going_down {
            let start = match editor_buffer.get_selection_map().get(first) {
                Some(range) => range.start_display_col_index,
                None => previous.col_index,
            };
            let end = editor_buffer.get_line_display_width(first);
            editor_buffer.set_selection_range(first, SelectionRange::new(start, end));
            editor_buffer.set_selection_range(last, SelectionRange::new(0, current.col_index));
        } else {
            let end = match editor_buffer.get_selection_map().get(last) {
                Some(range) => range.end_display_col_index,
                None => previous.col_index,
            };
            editor_buffer.set_selection_range(last, SelectionRange::new(0, end));
            let width = editor_buffer.get_line_display_width(first);
            editor_buffer.set_selection_range(first, SelectionRange::new(current.col_index, width));
        }
        proof {
            assert(editor_buffer@.selection =~= multiline_selection(before, previous, current));
        }
    }

    /// Brings the selection up to date after a move up or down that the top
    /// or the bottom of the document held back: the caret stayed on its row,
    /// though its column may have changed.
    pub fn handle_selection_multiline_caret_movement_hit_top_or_bottom_of_document(
        editor_buffer: &mut EditorBuffer,
        previous_caret_display_position: Position,
        current_caret_display_position: Position,
    )
        requires
            old(editor_buffer).wf(),
        ensures
            final(editor_buffer).wf(),
            final(editor_buffer)@ == old(editor_buffer)@.with_selection(
                blocked_move_selection(
                    old(editor_buffer)@,
                    previous_caret_display_position,
                    current_caret_display_position,
                ),
            ),
    {
        let current = current_caret_display_position;
        let previous = previous_caret_display_position;
        let ghost before = editor_buffer@;
        proof {
            assert(before.with_selection(before.selection) == before);
        }

        if current.row_index != previous.row_index {
            return ;
        }
        let row_index = current.row_index;
        let existing = match editor_buffer.get_selection_map().get(row_index) {
            Some(range) => Some(*range),
            None => None,
        };

        if current.col_index < previous.col_index {
            // Held back at the top: the range goes out to the left.
            let end = match existing {
                Some(range) => range.end_display_col_index,
                None => previous.col_index,
            };
            editor_buffer.set_selection_range(row_index, SelectionRange::new(0, end));
        } else if current.col_index > previous.col_index {
            // Held back at the bottom: the range goes out to the right.
            match existing {
                Some(range) => {
                    if row_index < editor_buffer.get_lines().len() {
                        let end = editor_buffer.get_line_display_width(row_index);
                        editor_buffer.set_selection_range(
                            row_index,
                            SelectionRange::new(range.start_display_col_index, end),
                        );
                    }
                },
                None => {
                    editor_buffer.set_selection_range(
                        row_index,
                        SelectionRange::new(previous.col_index, current.col_index),
                    );
                },
            }
        }
        proof {
            assert(editor_buffer@.selection =~= blocked_move_selection(before, previous, current));
        }
    }
}

} // verus!
