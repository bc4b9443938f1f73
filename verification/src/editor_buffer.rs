//! The document: its lines, the caret, the scroll offset and the selection.

use vstd::prelude::*;

use crate::selection_map::{all_valid, with_range, RowIndex, SelectionMap};
use crate::selection_range::SelectionRange;
use crate::unicode_string::{
    col_of, index_at, is_boundary, lemma_boundary_index, lemma_col_of_ends, lemma_col_of_monotone,
    lemma_col_of_step, lemma_index_at_bounds, lemma_index_at_unique, lemma_snapped_col_is_boundary,
    lemma_width_of_concat,
    lemma_width_of_single, segments_of, snapped_col, text_of, width_of, SegmentModel,
    UnicodeString,
};
use crate::units::{char_to_string, ChUnit, Position};

verus! {

/// What a buffer is in contracts.
pub struct BufferModel {
    pub lines: Seq<Seq<SegmentModel>>,
    pub caret: Position,
    pub scroll_offset: Position,
    pub selection: Map<RowIndex, SelectionRange>,
    pub file_extension: Option<Seq<char>>,
}

impl BufferModel {
    /// There is at least one line and no more than a `usize` counts, the
    /// caret stands on a line and there on a boundary between segments,
    /// every line's width fits in a `usize`, and no selected range is empty.
    ///
    /// The segments of a line are those of the texts that were put into it,
    /// each cut into grapheme clusters as it came in; no line is cut anew
    /// after a change. That the caret stands on a boundary is said of these
    /// segments.
    pub open spec fn wf(self) -> bool {
        &&& 1 <= self.lines.len() <= usize::MAX
        &&& self.caret.row_index < self.lines.len()
        &&& is_boundary(self.line(), self.caret.col_index as int)
        &&& forall|row: int|
            0 <= row < self.lines.len() ==> width_of(#[trigger] self.lines[row]) <= usize::MAX
        &&& all_valid(self.selection)
    }

    /// The line the caret stands on.
    pub open spec fn line(self) -> Seq<SegmentModel> {
        self.lines[self.caret.row_index as int]
    }

    pub open spec fn col(self) -> int {
        self.caret.col_index as int
    }

    pub open spec fn row(self) -> int {
        self.caret.row_index as int
    }

    /// The buffer with other lines and another caret.
    pub open spec fn with(self, lines: Seq<Seq<SegmentModel>>, col: int, row: int) -> BufferModel {
        BufferModel {
            lines,
            caret: Position { col_index: col as usize, row_index: row as usize },
            ..self
        }
    }

    /// The segments of `chunk` put in at the caret, the caret behind them.
    pub open spec fn insert(self, chunk: Seq<SegmentModel>) -> BufferModel {
        let at = index_at(self.line(), self.col());
        self.with(
            self.lines.update(self.row(), self.line().take(at) + chunk + self.line().skip(at)),
            self.col() + width_of(chunk),
            self.row(),
        )
    }

    /// A chunk can be put into the caret's line when the line's width with
    /// it still fits in a `usize`.
    pub open spec fn takes(self, chunk: Seq<SegmentModel>) -> bool {
        width_of(self.line()) + width_of(chunk) <= usize::MAX
    }

    /// A text put in at the caret, cut into its segments; nothing where the
    /// line cannot take it.
    pub open spec fn insert_text(self, text: Seq<char>) -> BufferModel {
        if self.takes(segments_of(text)) {
            self.insert(segments_of(text))
        } else {
            self
        }
    }

    /// The caret's line cut in two at the caret, the caret at the start of
    /// the second part; nothing where the number of lines is `usize::MAX`.
    pub open spec fn insert_new_line(self) -> BufferModel {
        let at = index_at(self.line(), self.col());
        if self.lines.len() < usize::MAX {
            self.with(
                self.lines.update(self.row(), self.line().take(at)).insert(
                    self.row() + 1,
                    self.line().skip(at),
                ),
                0,
                self.row() + 1,
            )
        } else {
            self
        }
    }

    /// Lines `row` and `row + 1` can be made one when their widths together
    /// fit in a `usize`.
    pub open spec fn can_merge(self, row: int) -> bool {
        &&& 0 <= row
        &&& row + 1 < self.lines.len()
        &&& width_of(self.lines[row]) + width_of(self.lines[row + 1]) <= usize::MAX
    }

    /// Line `row + 1` put behind line `row`.
    pub open spec fn merged(self, row: int) -> Seq<Seq<SegmentModel>> {
        self.lines.update(row, self.lines[row] + self.lines[row + 1]).remove(row + 1)
    }

    /// The segment at the caret taken out; at the end of a line, the next
    /// line put behind it. The caret stays.
    pub open spec fn delete(self) -> BufferModel {
        let at = index_at(self.line(), self.col());
        if at < self.line().len() {
            self.with(
                self.lines.update(self.row(), self.line().remove(at)),
                self.col(),
                self.row(),
            )
        } else if self.can_merge(self.row()) {
            self.with(self.merged(self.row()), self.col(), self.row())
        } else {
            self
        }
    }

    /// The segment left of the caret taken out, the caret where it started;
    /// at the start of a line, the line put behind the one above, the caret
    /// where that one ended.
    pub open spec fn backspace(self) -> BufferModel {
        if self.col() > 0 {
            let at = index_at(self.line(), self.col() - 1);
            self.with(
                self.lines.update(self.row(), self.line().remove(at)),
                col_of(self.line(), at) as int,
                self.row(),
            )
        } else if self.can_merge(self.row() - 1) {
            self.with(
                self.merged(self.row() - 1),
                width_of(self.lines[self.row() - 1]) as int,
                self.row() - 1,
            )
        } else {
            self
        }
    }

    /// The caret one segment to the left or right within its line, or on the
    /// line above or below at the column that `snapped_col` gives. Where
    /// there is nowhere to go, nothing changes.
    pub open spec fn move_caret(self, direction: CaretDirection) -> BufferModel {
        match direction {
            CaretDirection::Left => if self.col() > 0 {
                self.with(
                    self.lines,
                    col_of(self.line(), index_at(self.line(), self.col() - 1)) as int,
                    self.row(),
                )
            } else {
                self
            },
            CaretDirection::Right => if index_at(self.line(), self.col()) < self.line().len() {
                self.with(
                    self.lines,
                    col_of(self.line(), index_at(self.line(), self.col()) + 1) as int,
                    self.row(),
                )
            } else {
                self
            },
            CaretDirection::Up => if self.row() > 0 {
                self.with(
                    self.lines,
                    snapped_col(self.lines[self.row() - 1], self.col()),
                    self.row() - 1,
                )
            } else {
                self
            },
            CaretDirection::Down => if self.row() + 1 < self.lines.len() {
                self.with(
                    self.lines,
                    snapped_col(self.lines[self.row() + 1], self.col()),
                    self.row() + 1,
                )
            } else {
                self
            },
        }
    }

    /// The buffer over other lines: the caret at the start of the first one,
    /// nothing scrolled, nothing selected. A document without lines is one
    /// empty line.
    pub open spec fn with_lines(self, lines: Seq<Seq<SegmentModel>>) -> BufferModel {
        BufferModel {
            lines: if lines.len() == 0 {
                seq![Seq::<SegmentModel>::empty()]
            } else {
                lines
            },
            caret: Position { col_index: 0, row_index: 0 },
            scroll_offset: Position { col_index: 0, row_index: 0 },
            selection: Map::<RowIndex, SelectionRange>::empty(),
            file_extension: self.file_extension,
        }
    }

    /// The buffer with another selection.
    pub open spec fn with_selection(self, selection: Map<RowIndex, SelectionRange>) -> BufferModel {
        BufferModel { selection, ..self }
    }

    /// The display width of a row, and 0 for a row that the document lacks.
    pub open spec fn width_of_row(self, row: int) -> nat {
        if 0 <= row < self.lines.len() {
            width_of(self.lines[row])
        } else {
            0
        }
    }
}

/// The texts of lines, one after the other, with a line feed between each
/// two.
pub open spec fn text_of_lines(lines: Seq<Seq<SegmentModel>>) -> Seq<char>
    decreases lines.len(),
{
    if lines.len() == 0 {
        Seq::empty()
    } else if lines.len() == 1 {
        text_of(lines[0])
    } else {
        text_of_lines(lines.drop_last()) + seq!['\n'] + text_of(lines.last())
    }
}

/// The four ways a caret can go.
#[derive(Clone, Copy, Debug, PartialEq, Eq, Hash, Structural)]
pub enum CaretDirection {
    Up,
    Down,
    Left,
    Right,
}

/// A line keeps its columns up to `k` when segments are put behind it.
pub proof fn lemma_col_of_prefix(a: Seq<SegmentModel>, b: Seq<SegmentModel>, k: int)
    requires
        0 <= k <= a.len(),
    ensures
        col_of(a + b, k) == col_of(a, k),
{
    assert((a + b).take(k) =~= a.take(k));
}

/// Taking a segment out lowers the width by that segment's width and keeps
/// the columns up to it.
pub proof fn lemma_remove_segment(line: Seq<SegmentModel>, at: int)
    requires
        0 <= at < line.len(),
    ensures
        width_of(line.remove(at)) + line[at].width == width_of(line),
        col_of(line.remove(at), at) == col_of(line, at),
{
    assert(line =~= line.take(at) + seq![line[at]] + line.skip(at + 1));
    assert(line.remove(at) =~= line.take(at) + line.skip(at + 1));
    lemma_width_of_concat(line.take(at), seq![line[at]]);
    lemma_width_of_concat(line.take(at) + seq![line[at]], line.skip(at + 1));
    lemma_width_of_concat(line.take(at), line.skip(at + 1));
    lemma_width_of_single(line[at]);
    assert(line.remove(at).take(at) =~= line.take(at));
}

/// Putting segments in raises the width by theirs; the column behind them is
/// the column they were put in at, plus their width.
pub proof fn lemma_insert_segments(line: Seq<SegmentModel>, at: int, chunk: Seq<SegmentModel>)
    requires
        0 <= at <= line.len(),
    ensures
        width_of(line.take(at) + chunk + line.skip(at)) == width_of(line) + width_of(chunk),
        col_of(line.take(at) + chunk + line.skip(at), at + chunk.len()) == col_of(line, at)
            + width_of(chunk),
{
    let longer = line.take(at) + chunk + line.skip(at);
    assert(line =~= line.take(at) + line.skip(at));
    lemma_width_of_concat(line.take(at), line.skip(at));
    lemma_width_of_concat(line.take(at), chunk);
    lemma_width_of_concat(line.take(at) + chunk, line.skip(at));
    assert(longer.take(at + chunk.len()) =~= line.take(at) + chunk);
}

impl BufferModel {
    pub proof fn lemma_insert_wf(self, chunk: Seq<SegmentModel>)
        requires
            self.wf(),
            self.takes(chunk),
        ensures
            self.insert(chunk).wf(),
            self.insert(chunk).col() == self.col() + width_of(chunk),
            self.insert(chunk).row() == self.row(),
            self.insert(chunk).lines.len() == self.lines.len(),
    {
        let line = self.line();
        let at = index_at(line, self.col());
        lemma_boundary_index(line, self.col());
        lemma_index_at_bounds(line, self.col());
        lemma_insert_segments(line, at, chunk);
        let after = self.insert(chunk);
        assert(after.line() == line.take(at) + chunk + line.skip(at));
        assert(col_of(after.line(), at + chunk.len()) == after.col());
        assert forall|row: int| 0 <= row < after.lines.len() implies width_of(
            #[trigger] after.lines[row],
        ) <= usize::MAX by {
            if row != self.row() {
                assert(after.lines[row] == self.lines[row]);
            }
        }
    }

    pub proof fn lemma_insert_new_line_wf(self)
        requires
            self.wf(),
        ensures
            self.insert_new_line().wf(),
            self.lines.len() < usize::MAX ==> {
                &&& self.insert_new_line().lines.len() == self.lines.len() + 1
                &&& self.insert_new_line().col() == 0
                &&& self.insert_new_line().row() == self.row() + 1
            },
    {
        if self.lines.len() == usize::MAX {
            return ;
        }
        let line = self.line();
        let at = index_at(line, self.col());
        lemma_boundary_index(line, self.col());
        lemma_index_at_bounds(line, self.col());
        assert(line =~= line.take(at) + line.skip(at));
        lemma_width_of_concat(line.take(at), line.skip(at));
        let after = self.insert_new_line();
        assert(after.line() == line.skip(at));
        lemma_col_of_ends(after.line());
        assert(col_of(after.line(), 0) == after.col());
        assert forall|row: int| 0 <= row < after.lines.len() implies width_of(
            #[trigger] after.lines[row],
        ) <= usize::MAX by {
            if row < self.row() {
                assert(after.lines[row] == self.lines[row]);
            } else if row > self.row() + 1 {
                assert(after.lines[row] == self.lines[row - 1]);
            }
        }
    }

    /// Two lines made one keep every other line, and the merged line has the
    /// widths of both.
    pub proof fn lemma_merged(self, row: int)
        requires
            self.wf(),
            self.can_merge(row),
        ensures
            self.merged(row).len() == self.lines.len() - 1,
            self.merged(row)[row] == self.lines[row] + self.lines[row + 1],
            forall|r: int|
                0 <= r < self.merged(row).len() ==> width_of(#[trigger] self.merged(row)[r])
                    <= usize::MAX,
    {
        lemma_width_of_concat(self.lines[row], self.lines[row + 1]);
        assert forall|r: int| 0 <= r < self.merged(row).len() implies width_of(
            #[trigger] self.merged(row)[r],
        ) <= usize::MAX by {
            if r < row {
                assert(self.merged(row)[r] == self.lines[r]);
            } else if r > row {
                assert(self.merged(row)[r] == self.lines[r + 1]);
            }
        }
    }

    pub proof fn lemma_delete_wf(self)
        requires
            self.wf(),
        ensures
            self.delete().wf(),
            self.delete().caret == self.caret,
    {
        let line = self.line();
        let at = index_at(line, self.col());
        lemma_boundary_index(line, self.col());
        lemma_index_at_bounds(line, self.col());
        let after = self.delete();
        if at < line.len() {
            lemma_remove_segment(line, at);
            assert(after.line() == line.remove(at));
            assert(col_of(after.line(), at) == after.col());
            assert forall|row: int| 0 <= row < after.lines.len() implies width_of(
                #[trigger] after.lines[row],
            ) <= usize::MAX by {
                if row != self.row() {
                    assert(after.lines[row] == self.lines[row]);
                }
            }
        } else if self.can_merge(self.row()) {
            self.lemma_merged(self.row());
            lemma_col_of_prefix(line, self.lines[self.row() + 1], at);
            assert(col_of(after.line(), at) == after.col());
        }
    }

    pub proof fn lemma_backspace_wf(self)
        requires
            self.wf(),
        ensures
            self.backspace().wf(),
    {
        let line = self.line();
        lemma_boundary_index(line, self.col());
        let after = self.backspace();
        if self.col() > 0 {
            let at = index_at(line, self.col() - 1);
            lemma_index_at_bounds(line, self.col() - 1);
            lemma_remove_segment(line, at);
            lemma_col_of_monotone(line, at, line.len() as int);
            lemma_col_of_ends(line);
            assert(after.line() == line.remove(at));
            assert(col_of(after.line(), at) == after.col());
            assert forall|row: int| 0 <= row < after.lines.len() implies width_of(
                #[trigger] after.lines[row],
            ) <= usize::MAX by {
                if row != self.row() {
                    assert(after.lines[row] == self.lines[row]);
                }
            }
        } else if self.can_merge(self.row() - 1) {
            let above = self.lines[self.row() - 1];
            self.lemma_merged(self.row() - 1);
            lemma_col_of_prefix(above, line, above.len() as int);
            lemma_col_of_ends(above);
            assert(col_of(after.line(), above.len() as int) == after.col());
        }
    }

    pub proof fn lemma_move_caret_wf(self, direction: CaretDirection)
        requires
            self.wf(),
        ensures
            self.move_caret(direction).wf(),
            self.move_caret(direction).lines == self.lines,
    {
        let line = self.line();
        lemma_boundary_index(line, self.col());
        lemma_col_of_ends(line);
        let after = self.move_caret(direction);
        match direction {
            CaretDirection::Left => {
                if self.col() > 0 {
                    let at = index_at(line, self.col() - 1);
                    lemma_index_at_bounds(line, self.col() - 1);
                    lemma_col_of_monotone(line, at, line.len() as int);
                    assert(after.line() == line);
                    assert(col_of(after.line(), at) == after.col());
                }
            },
            CaretDirection::Right => {
                let at = index_at(line, self.col());
                lemma_index_at_bounds(line, self.col());
                if at < line.len() {
                    lemma_col_of_monotone(line, at + 1, line.len() as int);
                    assert(after.line() == line);
                    assert(col_of(after.line(), at + 1) == after.col());
                }
            },
            CaretDirection::Up => {
                if self.row() > 0 {
                    let above = self.lines[self.row() - 1];
                    lemma_snapped_col_is_boundary(above, self.col());
                    assert(after.line() == above);
                    assert(after.col() == snapped_col(above, self.col()));
                }
            },
            CaretDirection::Down => {
                if self.row() + 1 < self.lines.len() {
                    let below = self.lines[self.row() + 1];
                    lemma_snapped_col_is_boundary(below, self.col());
                    assert(after.line() == below);
                    assert(after.col() == snapped_col(below, self.col()));
                }
            },
        }
    }

    /// The caret moved once for each direction of a sequence, in order.
    pub open spec fn move_caret_all(self, directions: Seq<CaretDirection>) -> BufferModel
        decreases directions.len(),
    {
        if directions.len() == 0 {
            self
        } else {
            self.move_caret_all(directions.drop_last()).move_caret(directions.last())
        }
    }

    /// `n` backspaces, one after the other.
    pub open spec fn backspace_times(self, n: nat) -> BufferModel
        decreases n,
    {
        if n == 0 {
            self
        } else {
            self.backspace().backspace_times((n - 1) as nat)
        }
    }

    /// However often and in whatever directions the caret is moved, it stands
    /// on a line of the document and there on a boundary between segments,
    /// never inside a wide one; the lines stay as they are.
    pub proof fn lemma_moves_keep_caret_on_boundary(self, directions: Seq<CaretDirection>)
        requires
            self.wf(),
        ensures
            self.move_caret_all(directions).wf(),
            self.move_caret_all(directions).lines == self.lines,
            is_boundary(
                self.move_caret_all(directions).line(),
                self.move_caret_all(directions).col(),
            ),
        decreases directions.len(),
    {
        if directions.len() > 0 {
            self.lemma_moves_keep_caret_on_boundary(directions.drop_last());
            self.move_caret_all(directions.drop_last()).lemma_move_caret_wf(directions.last());
        }
    }

    /// Segments put in at the caret go in at the boundary where the caret
    /// stands, move the caret right by exactly their width, and leave the
    /// number of lines and every other line as they are.
    pub proof fn lemma_insert_advances_caret(self, chunk: Seq<SegmentModel>)
        requires
            self.wf(),
            self.takes(chunk),
        ensures
            self.insert(chunk).col() == self.col() + width_of(chunk),
            self.insert(chunk).row() == self.row(),
            self.insert(chunk).lines.len() == self.lines.len(),
            col_of(self.line(), index_at(self.line(), self.col())) == self.col(),
            self.insert(chunk).line() == self.line().take(index_at(self.line(), self.col())) + chunk
                + self.line().skip(index_at(self.line(), self.col())),
            forall|r: int|
                0 <= r < self.lines.len() && r != self.row() ==> self.insert(chunk).lines[r]
                    == self.lines[r],
    {
        self.lemma_insert_wf(chunk);
        lemma_boundary_index(self.line(), self.col());
    }

    /// Backspace at column 0 of a row below the first puts the row behind the
    /// one above and the caret where that one ended.
    pub proof fn lemma_backspace_at_line_start(self)
        requires
            self.wf(),
            self.col() == 0,
            self.row() > 0,
            self.can_merge(self.row() - 1),
        ensures
            self.backspace().lines.len() == self.lines.len() - 1,
            self.backspace().lines[self.row() - 1] == self.lines[self.row() - 1] + self.line(),
            forall|r: int| 0 <= r < self.row() - 1 ==> self.backspace().lines[r] == self.lines[r],
            forall|r: int|
                self.row() <= r < self.lines.len() - 1 ==> self.backspace().lines[r]
                    == self.lines[r + 1],
            self.backspace().col() == width_of(self.lines[self.row() - 1]),
            self.backspace().row() == self.row() - 1,
    {
    }

    /// Delete at the end of a line that has a line below puts that line
    /// behind it and leaves the caret where it is.
    pub proof fn lemma_delete_at_line_end(self)
        requires
            self.wf(),
            self.col() == width_of(self.line()),
            self.can_merge(self.row()),
        ensures
            self.delete().lines.len() == self.lines.len() - 1,
            self.delete().lines[self.row()] == self.line() + self.lines[self.row() + 1],
            forall|r: int| 0 <= r < self.row() ==> self.delete().lines[r] == self.lines[r],
            forall|r: int|
                self.row() < r < self.lines.len() - 1 ==> self.delete().lines[r] == self.lines[r
                    + 1],
            self.delete().caret == self.caret,
    {
        lemma_index_at_bounds(self.line(), self.col());
    }

    /// Up on the first row and down on the last change nothing.
    pub proof fn lemma_vertical_move_at_edge(self)
        requires
            self.wf(),
        ensures
            self.row() == 0 ==> self.move_caret(CaretDirection::Up) == self,
            self.row() == self.lines.len() - 1 ==> self.move_caret(CaretDirection::Down) == self,
    {
    }

    /// Delete at the end of a line and then a move right: the line below is
    /// behind the caret's line, and the caret has gone over its first
    /// segment, from where the delete had left it. The first segment of the
    /// line below takes at least one column.
    pub proof fn lemma_delete_at_line_end_then_right(self)
        requires
            self.wf(),
            self.col() == width_of(self.line()),
            self.can_merge(self.row()),
            self.lines[self.row() + 1].len() > 0,
            self.lines[self.row() + 1][0].width >= 1,
        ensures
            self.delete().move_caret(CaretDirection::Right).lines == self.delete().lines,
            self.delete().lines.len() == self.lines.len() - 1,
            self.delete().lines[self.row()] == self.line() + self.lines[self.row() + 1],
            self.delete().move_caret(CaretDirection::Right).row() == self.row(),
            self.delete().move_caret(CaretDirection::Right).col() == width_of(self.line())
                + self.lines[self.row() + 1][0].width,
    {
        let line = self.line();
        let below = self.lines[self.row() + 1];
        let joined = line + below;
        lemma_index_at_bounds(line, self.col());
        self.lemma_delete_wf();
        self.lemma_merged(self.row());
        assert(self.delete().line() == joined);
        lemma_col_of_prefix(line, below, line.len() as int);
        lemma_col_of_ends(line);
        lemma_col_of_step(joined, line.len() as int);
        lemma_index_at_unique(joined, self.col(), line.len() as int);
        lemma_col_of_monotone(joined, (line.len() + 1) as int, joined.len() as int);
        lemma_col_of_ends(joined);
    }

    /// Backspace at column 0 of a row below the first and then segments put
    /// in: the row is behind the one above, the segments stand between the
    /// two, and the caret stands behind the segments. The row that was
    /// joined is empty or begins with a segment of at least one column.
    pub proof fn lemma_backspace_at_line_start_then_insert(self, chunk: Seq<SegmentModel>)
        requires
            self.wf(),
            self.col() == 0,
            self.row() > 0,
            self.can_merge(self.row() - 1),
            self.backspace().takes(chunk),
            self.line().len() == 0 || self.line()[0].width >= 1,
        ensures
            self.backspace().insert(chunk).lines.len() == self.lines.len() - 1,
            self.backspace().insert(chunk).lines[self.row() - 1] == self.lines[self.row() - 1]
                + chunk + self.line(),
            self.backspace().insert(chunk).row() == self.row() - 1,
            self.backspace().insert(chunk).col() == width_of(self.lines[self.row() - 1])
                + width_of(chunk),
    {
        let line = self.line();
        let above = self.lines[self.row() - 1];
        let joined = above + line;
        let merged = self.backspace();
        self.lemma_backspace_wf();
        self.lemma_merged(self.row() - 1);
        assert(merged.line() == joined);
        lemma_col_of_prefix(above, line, above.len() as int);
        lemma_col_of_ends(above);
        if line.len() > 0 {
            lemma_col_of_step(joined, above.len() as int);
        }
        lemma_index_at_unique(joined, merged.col(), above.len() as int);
        merged.lemma_insert_wf(chunk);
        assert(joined.take(above.len() as int) =~= above);
        assert(joined.skip(above.len() as int) =~= line);
    }

    /// A backspace after segments were put in takes the last of them out
    /// again, if that one is at least one column wide.
    pub proof fn lemma_backspace_after_insert(self, chunk: Seq<SegmentModel>)
        requires
            self.wf(),
            self.takes(chunk),
            chunk.len() > 0,
            chunk.last().width >= 1,
        ensures
            self.insert(chunk).backspace() == self.insert(chunk.drop_last()),
            self.takes(chunk.drop_last()),
    {
        let line = self.line();
        let at = index_at(line, self.col());
        let fewer = chunk.drop_last();
        let n = chunk.len() as int;
        lemma_boundary_index(line, self.col());
        lemma_index_at_bounds(line, self.col());
        self.lemma_insert_wf(chunk);
        let longer = line.take(at) + chunk + line.skip(at);
        let put = self.insert(chunk);
        assert(put.line() == longer);
        lemma_insert_segments(line, at, chunk);
        lemma_insert_segments(line, at, fewer);
        assert(longer[at + n - 1] == chunk.last());
        lemma_col_of_step(longer, at + n - 1);
        lemma_index_at_unique(longer, put.col() - 1, at + n - 1);
        assert(longer.remove(at + n - 1) =~= line.take(at) + fewer + line.skip(at));
        assert(put.lines.update(put.row(), longer.remove(at + n - 1)) =~= self.lines.update(
            self.row(),
            line.take(at) + fewer + line.skip(at),
        ));
        assert(chunk =~= fewer + seq![chunk.last()]);
        lemma_width_of_concat(fewer, seq![chunk.last()]);
        lemma_width_of_single(chunk.last());
    }

    /// Putting in segments that are each at least one column wide and then
    /// backspacing once for each of them gives back the buffer as it was:
    /// the same lines and the same caret. Putting the segments in once more
    /// then gives what putting them in gave the first time.
    pub proof fn lemma_insert_then_backspace_round_trip(self, chunk: Seq<SegmentModel>)
        requires
            self.wf(),
            self.takes(chunk),
            forall|i: int| 0 <= i < chunk.len() ==> (#[trigger] chunk[i]).width >= 1,
        ensures
            self.insert(chunk).backspace_times(chunk.len()) == self,
            self.insert(chunk).backspace_times(chunk.len()).insert(chunk) == self.insert(chunk),
        decreases chunk.len(),
    {
        if chunk.len() == 0 {
            let line = self.line();
            let at = index_at(line, self.col());
            lemma_index_at_bounds(line, self.col());
            lemma_boundary_index(line, self.col());
            assert(line.take(at) + chunk + line.skip(at) =~= line);
            assert(self.lines.update(self.row(), line) =~= self.lines);
        } else {
            self.lemma_backspace_after_insert(chunk);
            self.lemma_insert_then_backspace_round_trip(chunk.drop_last());
        }
    }
}

/// A document under edit. Its lines hold the segments of the texts that
/// were put into them, each text cut into grapheme clusters as it came in; a
/// line is not cut anew after a change.
#[derive(Clone, Debug, PartialEq, Eq, Hash)]
pub struct EditorBuffer {
    lines: Vec<UnicodeString>,
    caret: Position,
    scroll_offset: Position,
    selection_map: SelectionMap,
    maybe_file_extension: Option<String>,
}

impl View for EditorBuffer {
    type V = BufferModel;

    closed spec fn view(&self) -> BufferModel {
        BufferModel {
            lines: Seq::new(self.lines@.len(), |row: int| self.lines@[row]@),
            caret: self.caret,
            scroll_offset: self.scroll_offset,
            selection: self.selection_map@,
            file_extension: match self.maybe_file_extension {
                Some(ext) => Some(ext@),
                None => None,
            },
        }
    }
}

impl EditorBuffer {
    pub closed spec fn wf(&self) -> bool {
        &&& self@.wf()
        &&& forall|row: int| 0 <= row < self.lines@.len() ==> (#[trigger] self.lines@[row]).wf()
    }

    /// The models of lines.
    pub open spec fn lines_model(lines: Seq<UnicodeString>) -> Seq<Seq<SegmentModel>> {
        Seq::new(lines.len(), |row: int| lines[row]@)
    }

    /// An empty document: one line without segments, the caret at its start.
    pub fn new_empty(maybe_file_extension: Option<String>) -> (buffer: EditorBuffer)
        ensures
            buffer.wf(),
            buffer@.lines == seq![Seq::<SegmentModel>::empty()],
            buffer@.caret == (Position { col_index: 0, row_index: 0 }),
            buffer@.scroll_offset == (Position { col_index: 0, row_index: 0 }),
            buffer@.selection == Map::<RowIndex, SelectionRange>::empty(),
            buffer@.file_extension == (match maybe_file_extension {
                Some(ext) => Some(ext@),
                None => None,
            }),
    {
        let mut lines: Vec<UnicodeString> = Vec::new();
        lines.push(UnicodeString::empty());
        let buffer = EditorBuffer {
            lines,
            caret: Position { col_index: 0, row_index: 0 },
            scroll_offset: Position { col_index: 0, row_index: 0 },
            selection_map: SelectionMap::new(),
            maybe_file_extension,
        };
        proof {
            assert(buffer@.lines =~= seq![Seq::<SegmentModel>::empty()]);
            lemma_col_of_ends(buffer@.line());
            assert(col_of(buffer@.line(), 0) == 0);
        }
        buffer
    }

    /// A well-formed buffer has a well-formed model.
    pub proof fn lemma_wf(&self)
        requires
            self.wf(),
        ensures
            self@.wf(),
    {
    }

    /// Makes a buffer of its parts. There is none where there is no line,
    /// or the caret does not stand on a line and there on a boundary
    /// between segments.
    pub fn from_parts(
        lines: Vec<UnicodeString>,
        caret: Position,
        scroll_offset: Position,
        selection_map: SelectionMap,
        maybe_file_extension: Option<String>,
    ) -> (r: Option<EditorBuffer>)
        requires
            forall|row: int| 0 <= row < lines@.len() ==> (#[trigger] lines@[row]).wf(),
            selection_map.wf(),
        ensures
            r is Some <==> {
                &&& caret.row_index < lines@.len()
                &&& is_boundary(lines@[caret.row_index as int]@, caret.col_index as int)
            },
            r matches Some(buffer) ==> {
                &&& buffer.wf()
                &&& buffer@.lines == Self::lines_model(lines@)
                &&& buffer@.caret == caret
                &&& buffer@.scroll_offset == scroll_offset
                &&& buffer@.selection == selection_map@
                &&& buffer@.file_extension == (match maybe_file_extension {
                    Some(ext) => Some(ext@),
                    None => None,
                })
            },
    {
        if caret.row_index >= lines.len() {
            return None;
        }
        let snapped = lines[caret.row_index].snap_display_col(caret.col_index);
        proof {
            lemma_snapped_col_is_boundary(lines@[caret.row_index as int]@, caret.col_index as int);
        }
        if snapped != caret.col_index {
            return None;
        }
        proof {
            assert forall|row: int| 0 <= row < lines@.len() implies width_of(
                #[trigger] Self::lines_model(lines@)[row],
            ) <= usize::MAX by {
                lines@[row].lemma_width_fits();
            }
        }
        let buffer = EditorBuffer {
            lines,
            caret,
            scroll_offset,
            selection_map,
            maybe_file_extension,
        };
        proof {
            assert(buffer@.lines =~= Self::lines_model(buffer.lines@));
        }
        Some(buffer)
    }

    /// A copy of the buffer.
    pub fn duplicate(&self) -> (copy: EditorBuffer)
        requires
            self.wf(),
        ensures
            copy.wf(),
            copy@ == self@,
    {
        let mut lines: Vec<UnicodeString> = Vec::new();
        let mut row: usize = 0;
        while row < self.lines.len()
            invariant
                row <= self.lines.len(),
                lines.len() == row,
                self.wf(),
                forall|r: int|
                    0 <= r < row ==> (#[trigger] lines@[r]).wf() && lines@[r]@ == self.lines@[r]@,
            decreases self.lines.len() - row,
        {
            lines.push(self.lines[row].duplicate());
            row += 1;
        }
        let maybe_file_extension = match &self.maybe_file_extension {
            Some(ext) => Some(ext.clone()),
            None => None,
        };
        let copy = EditorBuffer {
            lines,
            caret: self.caret,
            scroll_offset: self.scroll_offset,
            selection_map: self.selection_map.duplicate(),
            maybe_file_extension,
        };
        proof {
            assert(copy@.lines =~= self@.lines);
        }
        copy
    }

    /// Whether the document has no line. A well-formed buffer has one.
    pub fn is_empty(&self) -> (empty: bool)
        ensures
            empty == (self@.lines.len() == 0),
    {
        self.lines.is_empty()
    }

    pub fn get_lines(&self) -> (lines: &Vec<UnicodeString>)
        ensures
            Self::lines_model(lines@) == self@.lines,
            self.wf() ==> forall|row: int| 0 <= row < lines@.len() ==> (#[trigger] lines@[row]).wf(),
    {
        &self.lines
    }

    pub fn get_caret(&self) -> (caret: Position)
        ensures
            caret == self@.caret,
    {
        self.caret
    }

    pub fn get_scroll_offset(&self) -> (offset: Position)
        ensures
            offset == self@.scroll_offset,
    {
        self.scroll_offset
    }

    pub fn get_selection_map(&self) -> (map: &SelectionMap)
        ensures
            map@ == self@.selection,
    {
        &self.selection_map
    }

    pub fn get_maybe_file_extension(&self) -> (ext: &Option<String>)
        ensures
            self@.file_extension == (match *ext {
                Some(e) => Some(e@),
                None => None,
            }),
    {
        &self.maybe_file_extension
    }

    /// The display width of a row, and 0 for a row that the document lacks.
    pub fn get_line_display_width(&self, row_index: RowIndex) -> (width: ChUnit)
        requires
            self.wf(),
        ensures
            width == self@.width_of_row(row_index as int),
    {
        if row_index < self.lines.len() {
            self.lines[row_index].display_width()
        } else {
            0
        }
    }

    /// The text of the segment at the caret; none at the end of a line.
    pub fn string_at_caret(&self) -> (r: Option<String>)
        requires
            self.wf(),
        ensures
            r is Some <==> self@.col() < width_of(self@.line()),
            r matches Some(text) ==> text@ == self@.line()[index_at(self@.line(), self@.col())].text,
    {
        self.lines[self.caret.row_index].get_string_at_display_col(self.caret.col_index)
    }

    /// The text of the line the caret stands on.
    pub fn line_at_caret_to_string(&self) -> (text: String)
        requires
            self.wf(),
        ensures
            text@ == text_of(self@.line()),
    {
        self.lines[self.caret.row_index].get_string()
    }

    /// The text of the document: its lines with a line feed between each two.
    pub fn get_as_string(&self) -> (text: String)
        ensures
            text@ == text_of_lines(self@.lines),
    {
        let mut text = String::new();
        let mut row: usize = 0;
        let ghost lines = self@.lines;
        while row < self.lines.len()
            invariant
                row <= self.lines.len(),
                lines == self@.lines,
                text@ == text_of_lines(lines.take(row as int)),
            decreases self.lines.len() - row,
        {
            proof {
                assert(lines.take(row + 1).drop_last() =~= lines.take(row as int));
                assert(lines.take(row + 1).last() == lines[row as int]);
                assert(lines.take(row + 1)[0] == lines[0]);
            }
            if row > 0 {
                text.append(char_to_string('\n').as_str());
            }
            text.append(self.lines[row].get_string().as_str());
            proof {
                if row > 0 {
                    assert(text@ =~= text_of_lines(lines.take(row as int)) + seq!['\n'] + text_of(
                        lines[row as int],
                    ));
                } else {
                    assert(text@ =~= text_of(lines[0]));
                }
            }
            row += 1;
        }
        proof {
            assert(lines.take(lines.len() as int) =~= lines);
        }
        text
    }

    /// Puts other lines in the document's place. The caret goes to the start
    /// of the first line; nothing is scrolled or selected any more. Without
    /// lines the document is one empty line.
    pub fn set_lines(&mut self, lines: Vec<UnicodeString>)
        requires
            old(self).wf(),
            forall|row: int| 0 <= row < lines@.len() ==> (#[trigger] lines@[row]).wf(),
        ensures
            final(self).wf(),
            final(self)@ == old(self)@.with_lines(Self::lines_model(lines@)),
    {
        let ghost before = self@;
        let ghost given = lines@;
        let mut lines = lines;
        if lines.len() == 0 {
            lines.push(UnicodeString::empty());
        }
        proof {
            assert forall|row: int| 0 <= row < lines@.len() implies width_of(
                #[trigger] lines@[row]@,
            ) <= usize::MAX by {
                lines@[row].lemma_width_fits();
            }
        }
        self.lines = lines;
        self.caret = Position { col_index: 0, row_index: 0 };
        self.scroll_offset = Position { col_index: 0, row_index: 0 };
        self.selection_map.clear();
        proof {
            assert(self@.lines =~= before.with_lines(Self::lines_model(given)).lines);
            lemma_col_of_ends(self@.line());
            assert(col_of(self@.line(), 0) == 0);
        }
    }

    /// Moves the viewport's origin; the document and the caret stay.
    pub fn set_scroll_offset(&mut self, scroll_offset: Position)
        requires
            old(self).wf(),
        ensures
            final(self).wf(),
            final(self)@ == (BufferModel { scroll_offset, ..old(self)@ }),
    {
        self.scroll_offset = scroll_offset;
    }

    /// Sets the range selected on a row; a range that selects nothing leaves
    /// the row without one.
    pub fn set_selection_range(&mut self, row_index: RowIndex, range: SelectionRange)
        requires
            old(self).wf(),
        ensures
            final(self).wf(),
            final(self)@ == old(self)@.with_selection(
                with_range(old(self)@.selection, row_index, range),
            ),
    {
        self.selection_map.insert(row_index, range);
    }

    /// Ends the selection on a row.
    pub fn remove_selection_range(&mut self, row_index: RowIndex)
        requires
            old(self).wf(),
        ensures
            final(self).wf(),
            final(self)@ == old(self)@.with_selection(old(self)@.selection.remove(row_index)),
    {
        self.selection_map.remove(row_index);
    }

    /// Ends the selection on every row.
    pub fn clear_selection(&mut self)
        requires
            old(self).wf(),
        ensures
            final(self).wf(),
            final(self)@ == old(self)@.with_selection(Map::<RowIndex, SelectionRange>::empty()),
    {
        self.selection_map.clear();
    }

    /// Puts the segments of `chunk` into the caret's line at the caret and
    /// moves the caret right by their width.
    pub fn insert_at_caret(&mut self, chunk: UnicodeString)
        requires
            old(self).wf(),
            chunk.wf(),
            old(self)@.takes(chunk@),
        ensures
            final(self).wf(),
            final(self)@ == old(self)@.insert(chunk@),
            final(self)@.caret.col_index == old(self)@.caret.col_index + width_of(chunk@),
            final(self)@.caret.row_index == old(self)@.caret.row_index,
            final(self)@.lines.len() == old(self)@.lines.len(),
    {
        let ghost before = self@;
        let row = self.caret.row_index;
        let col = self.caret.col_index;
        let added = chunk.display_width();
        proof {
            before.lemma_insert_wf(chunk@);
        }
        self.lines[row].insert_at_display_col(col, chunk);
        self.caret.col_index = col + added;
        proof {
            assert(self@.lines =~= before.insert(chunk@).lines);
        }
    }

    /// Cuts `text` into segments and puts them in at the caret. Where the
    /// line's width would no longer fit in a `usize`, nothing changes.
    pub fn insert_str(&mut self, text: &str)
        requires
            old(self).wf(),
        ensures
            final(self).wf(),
            final(self)@ == old(self)@.insert_text(text@),
    {
        let row = self.caret.row_index;
        match UnicodeString::new(text) {
            Some(chunk) => {
                if chunk.display_width() <= usize::MAX - self.lines[row].display_width() {
                    self.insert_at_caret(chunk);
                }
            },
            None => {},
        }
    }

    /// Puts one character in at the caret, as `insert_str` does a text.
    pub fn insert_char(&mut self, character: char)
        requires
            old(self).wf(),
        ensures
            final(self).wf(),
            final(self)@ == old(self)@.insert_text(seq![character]),
    {
        let text = char_to_string(character);
        self.insert_str(text.as_str());
    }

    pub fn insert_str_into_current_line(&mut self, chunk: &str)
        requires
            old(self).wf(),
        ensures
            final(self).wf(),
            final(self)@ == old(self)@.insert_text(chunk@),
    {
        self.insert_str(chunk);
    }

    pub fn insert_char_into_current_line(&mut self, character: char)
        requires
            old(self).wf(),
        ensures
            final(self).wf(),
            final(self)@ == old(self)@.insert_text(seq![character]),
    {
        self.insert_char(character);
    }

    /// Cuts the caret's line in two at the caret. The caret goes to the
    /// start of the second part.
    pub fn insert_new_line(&mut self)
        requires
            old(self).wf(),
        ensures
            final(self).wf(),
            final(self)@ == old(self)@.insert_new_line(),
    {
        let ghost before = self@;
        let row = self.caret.row_index;
        let col = self.caret.col_index;
        proof {
            before.lemma_insert_new_line_wf();
        }
        if self.lines.len() < usize::MAX {
            let rest = self.lines[row].split_at_display_col(col);
            self.lines.insert(row + 1, rest);
            self.caret = Position { col_index: 0, row_index: row + 1 };
            proof {
                assert(self@.lines =~= before.insert_new_line().lines);
            }
        }
    }

    /// Puts line `row + 1` behind line `row`.
    fn merge_with_next(&mut self, row: usize)
        requires
            old(self).wf(),
            old(self)@.can_merge(row as int),
        ensures
            final(self)@ == (BufferModel { lines: old(self)@.merged(row as int), ..old(self)@ }),
            forall|r: int|
                0 <= r < final(self).lines@.len() ==> (#[trigger] final(self).lines@[r]).wf(),
    {
        let ghost before = self@;
        let next = self.lines.remove(row + 1);
        self.lines[row].append(next);
        proof {
            assert(self@.lines =~= before.merged(row as int));
        }
    }

    /// Forward delete: takes out the segment at the caret. At the end of a
    /// line that has a line below, that line is put behind it, unless their
    /// widths together no longer fit in a `usize`. The caret stays.
    pub fn delete(&mut self)
        requires
            old(self).wf(),
        ensures
            final(self).wf(),
            final(self)@ == old(self)@.delete(),
            final(self)@.caret == old(self)@.caret,
    {
        let ghost before = self@;
        let row = self.caret.row_index;
        let col = self.caret.col_index;
        proof {
            before.lemma_delete_wf();
            lemma_boundary_index(before.line(), col as int);
            lemma_index_at_bounds(before.line(), col as int);
        }
        match self.lines[row].segment_at_display_col(col) {
            Some(at) => {
                self.lines[row].remove_segment(at.logical_index);
                proof {
                    assert(self@.lines =~= before.delete().lines);
                }
            },
            None => {
                if row + 1 < self.lines.len() {
                    let below = self.lines[row + 1].display_width();
                    if below <= usize::MAX - self.lines[row].display_width() {
                        self.merge_with_next(row);
                    }
                }
            },
        }
    }

    /// Takes out the segment left of the caret and puts the caret where it
    /// started. At the start of a line that has a line above, the line is
    /// put behind that one and the caret where that one ended, unless their
    /// widths together no longer fit in a `usize`.
    pub fn backspace(&mut self)
        requires
            old(self).wf(),
        ensures
            final(self).wf(),
            final(self)@ == old(self)@.backspace(),
    {
        let ghost before = self@;
        let row = self.caret.row_index;
        let col = self.caret.col_index;
        proof {
            before.lemma_backspace_wf();
            lemma_boundary_index(before.line(), col as int);
        }
        match self.lines[row].segment_left_of_display_col(col) {
            Some(at) => {
                self.lines[row].remove_segment(at.logical_index);
                self.caret.col_index = at.display_col_offset;
                proof {
                    assert(self@.lines =~= before.backspace().lines);
                }
            },
            None => {
                if row > 0 {
                    let above = self.lines[row - 1].display_width();
                    if self.lines[row].display_width() <= usize::MAX - above {
                        self.merge_with_next(row - 1);
                        self.caret = Position { col_index: above, row_index: row - 1 };
                    }
                }
            },
        }
    }

    /// Moves the caret left by the segment that ends at it; at column 0
    /// nothing changes.
    pub fn move_caret_left(&mut self)
        requires
            old(self).wf(),
        ensures
            final(self).wf(),
            final(self)@ == old(self)@.move_caret(CaretDirection::Left),
    {
        let ghost before = self@;
        let row = self.caret.row_index;
        let col = self.caret.col_index;
        proof {
            before.lemma_move_caret_wf(CaretDirection::Left);
            lemma_boundary_index(before.line(), col as int);
        }
        match self.lines[row].segment_left_of_display_col(col) {
            Some(at) => {
                self.caret.col_index = at.display_col_offset;
            },
            None => {},
        }
    }

    /// Moves the caret right by the segment that starts at it; at the end of
    /// the line nothing changes.
    pub fn move_caret_right(&mut self)
        requires
            old(self).wf(),
        ensures
            final(self).wf(),
            final(self)@ == old(self)@.move_caret(CaretDirection::Right),
    {
        let ghost before = self@;
        let row = self.caret.row_index;
        let col = self.caret.col_index;
        proof {
            before.lemma_move_caret_wf(CaretDirection::Right);
            lemma_boundary_index(before.line(), col as int);
            lemma_index_at_bounds(before.line(), col as int);
        }
        match self.lines[row].segment_at_display_col(col) {
            Some(at) => {
                proof {
                    lemma_col_of_step(before.line(), at.logical_index as int);
                }
                self.caret.col_index = at.display_col_offset + at.unicode_width;
            },
            None => {},
        }
    }

    /// Moves the caret to the line above, to the column that `snapped_col`
    /// gives there; on the first line nothing changes.
    pub fn move_caret_up(&mut self)
        requires
            old(self).wf(),
        ensures
            final(self).wf(),
            final(self)@ == old(self)@.move_caret(CaretDirection::Up),
    {
        let ghost before = self@;
        let row = self.caret.row_index;
        let col = self.caret.col_index;
        proof {
            before.lemma_move_caret_wf(CaretDirection::Up);
        }
        if row > 0 {
            let snapped = self.lines[row - 1].snap_display_col(col);
            self.caret = Position { col_index: snapped, row_index: row - 1 };
        }
    }

    /// Moves the caret to the line below, to the column that `snapped_col`
    /// gives there; on the last line nothing changes.
    pub fn move_caret_down(&mut self)
        requires
            old(self).wf(),
        ensures
            final(self).wf(),
            final(self)@ == old(self)@.move_caret(CaretDirection::Down),
    {
        let ghost before = self@;
        let row = self.caret.row_index;
        let col = self.caret.col_index;
        proof {
            before.lemma_move_caret_wf(CaretDirection::Down);
        }
        if row + 1 < self.lines.len() {
            let snapped = self.lines[row + 1].snap_display_col(col);
            self.caret = Position { col_index: snapped, row_index: row + 1 };
        }
    }

    pub fn move_caret(&mut self, direction: CaretDirection)
        requires
            old(self).wf(),
        ensures
            final(self).wf(),
            final(self)@ == old(self)@.move_caret(direction),
    {
        match direction {
            CaretDirection::Up => self.move_caret_up(),
            CaretDirection::Down => self.move_caret_down(),
            CaretDirection::Left => self.move_caret_left(),
            CaretDirection::Right => self.move_caret_right(),
        }
    }
}

impl Default for EditorBuffer {
    fn default() -> (buffer: EditorBuffer)
        ensures
            buffer.wf(),
            buffer@.lines == seq![Seq::<SegmentModel>::empty()],
            buffer@.caret == (Position { col_index: 0, row_index: 0 }),
            buffer@.scroll_offset == (Position { col_index: 0, row_index: 0 }),
            buffer@.selection == Map::<RowIndex, SelectionRange>::empty(),
            buffer@.file_extension == None::<Seq<char>>,
    {
        EditorBuffer::new_empty(None)
    }
}

} // verus!
