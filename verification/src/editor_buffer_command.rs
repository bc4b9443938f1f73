//! The commands that edit a buffer, applied one at a time or as a batch.

use vstd::prelude::*;

use crate::editor_buffer::{BufferModel, CaretDirection, EditorBuffer};
use crate::selection_map::RowIndex;
use crate::selection_range::SelectionRange;
use crate::selection_support::{
    blocked_move_selection, multiline_selection, single_line_selection, EditorBufferApi,
};
use crate::unicode_string::segments_of;

verus! {

/// What can be asked of a buffer.
#[derive(Clone, Debug, PartialEq, Eq, Hash)]
pub enum EditorBufferCommand {
    InsertChar(char),
    InsertString(String),
    InsertNewLine,
    Delete,
    Backspace,
    /// Moves the caret and ends the selection.
    MoveCaret(CaretDirection),
    /// Moves the caret and lets the selection follow it.
    Select(CaretDirection),
}

impl BufferModel {
    /// The buffer with nothing selected.
    pub open spec fn deselected(self) -> BufferModel {
        self.with_selection(Map::<RowIndex, SelectionRange>::empty())
    }

    /// The caret moved and the selection brought up to date: by the rule for
    /// two rows where the row changed, by the rule for one row after a move
    /// left or right, and by the rule for a move held back at the top or
    /// bottom of the document after a move up or down that left the row as
    /// it was.
    pub open spec fn select(self, direction: CaretDirection) -> BufferModel {
        let moved = self.move_caret(direction);
        moved.with_selection(
            if moved.caret.row_index != self.caret.row_index {
                multiline_selection(moved, self.caret, moved.caret)
            } else {
                match direction {
                    CaretDirection::Left | CaretDirection::Right => single_line_selection(
                        moved.selection,
                        moved.caret.row_index,
                        self.caret.col_index,
                        moved.caret.col_index,
                    ),
                    CaretDirection::Up | CaretDirection::Down => blocked_move_selection(
                        moved,
                        self.caret,
                        moved.caret,
                    ),
                }
            },
        )
    }

    /// The buffer after one command. Every command but `Select` ends the
    /// selection.
    pub open spec fn apply(self, command: EditorBufferCommand) -> BufferModel {
        match command {
            EditorBufferCommand::InsertChar(character) => self.insert_text(
                seq![character],
            ).deselected(),
            EditorBufferCommand::InsertString(text) => self.insert_text(text@).deselected(),
            EditorBufferCommand::InsertNewLine => self.insert_new_line().deselected(),
            EditorBufferCommand::Delete => self.delete().deselected(),
            EditorBufferCommand::Backspace => self.backspace().deselected(),
            EditorBufferCommand::MoveCaret(direction) => self.move_caret(direction).deselected(),
            EditorBufferCommand::Select(direction) => self.select(direction),
        }
    }

    /// The buffer after a sequence of commands, each applied to what the one
    /// before it left.
    pub open spec fn apply_all(self, commands: Seq<EditorBufferCommand>) -> BufferModel
        decreases commands.len(),
    {
        if commands.len() == 0 {
            self
        } else {
            self.apply_all(commands.drop_last()).apply(commands.last())
        }
    }
}

impl BufferModel {
    /// A selecting move leaves a well-formed buffer well-formed.
    pub proof fn lemma_select_wf(self, direction: CaretDirection)
        requires
            self.wf(),
        ensures
            self.select(direction).wf(),
    {
        self.lemma_move_caret_wf(direction);
        let moved = self.move_caret(direction);
        let selected = self.select(direction);
        assert(selected.lines == moved.lines);
        assert(selected.caret == moved.caret);
        assert(selected.line() == moved.line());
    }

    /// Whatever the command, a well-formed buffer stays well-formed: it has
    /// a line, the caret stands on a line and there on a boundary between
    /// segments, and no selected range is empty.
    pub proof fn lemma_apply_wf(self, command: EditorBufferCommand)
        requires
            self.wf(),
        ensures
            self.apply(command).wf(),
    {
        let after = self.apply(command);
        match command {
            EditorBufferCommand::InsertChar(character) => {
                if self.takes(segments_of(seq![character])) {
                    self.lemma_insert_wf(segments_of(seq![character]));
                }
                assert(after.line() == self.insert_text(seq![character]).line());
            },
            EditorBufferCommand::InsertString(text) => {
                if self.takes(segments_of(text@)) {
                    self.lemma_insert_wf(segments_of(text@));
                }
                assert(after.line() == self.insert_text(text@).line());
            },
            EditorBufferCommand::InsertNewLine => {
                self.lemma_insert_new_line_wf();
                assert(after.line() == self.insert_new_line().line());
            },
            EditorBufferCommand::Delete => {
                self.lemma_delete_wf();
                assert(after.line() == self.delete().line());
            },
            EditorBufferCommand::Backspace => {
                self.lemma_backspace_wf();
                assert(after.line() == self.backspace().line());
            },
            EditorBufferCommand::MoveCaret(direction) => {
                self.lemma_move_caret_wf(direction);
                assert(after.line() == self.move_caret(direction).line());
            },
            EditorBufferCommand::Select(direction) => {
                self.lemma_select_wf(direction);
            },
        }
    }

    /// Whatever the commands, a well-formed buffer stays well-formed.
    pub proof fn lemma_apply_all_wf(self, commands: Seq<EditorBufferCommand>)
        requires
            self.wf(),
        ensures
            self.apply_all(commands).wf(),
        decreases commands.len(),
    {
        if commands.len() > 0 {
            self.lemma_apply_all_wf(commands.drop_last());
            self.apply_all(commands.drop_last()).lemma_apply_wf(commands.last());
        }
    }
}

impl EditorBuffer {
    /// Moves the caret and brings the selection up to date with where it
    /// was and where it is.
    pub fn select(&mut self, direction: CaretDirection)
        requires
            old(self).wf(),
        ensures
            final(self).wf(),
            final(self)@ == old(self)@.select(direction),
    {
        let previous = self.get_caret();
        self.move_caret(direction);
        let current = self.get_caret();
        if current.row_index != previous.row_index {
            EditorBufferApi::handle_selection_multiline_caret_movement(self, previous, current);
        } else {
            match direction {
                CaretDirection::Left | CaretDirection::Right => {
                    EditorBufferApi::handle_selection_single_line_caret_movement(
                        self,
                        current.row_index,
                        previous.col_index,
                        current.col_index,
                    );
                },
                CaretDirection::Up | CaretDirection::Down => {
                    EditorBufferApi::handle_selection_multiline_caret_movement_hit_top_or_bottom_of_document(
                        self,
                        previous,
                        current,
                    );
                },
            }
        }
    }

    fn apply_command(&mut self, command: &EditorBufferCommand)
        requires
            old(self).wf(),
        ensures
            final(self).wf(),
            final(self)@ == old(self)@.apply(*command),
    {
        match command {
            EditorBufferCommand::InsertChar(character) => {
                self.insert_char(*character);
                self.clear_selection();
            },
            EditorBufferCommand::InsertString(text) => {
                self.insert_str(text.as_str());
                self.clear_selection();
            },
            EditorBufferCommand::InsertNewLine => {
                self.insert_new_line();
                self.clear_selection();
            },
            EditorBufferCommand::Delete => {
                self.delete();
                self.clear_selection();
            },
            EditorBufferCommand::Backspace => {
                self.backspace();
                self.clear_selection();
            },
            EditorBufferCommand::MoveCaret(direction) => {
                self.move_caret(*direction);
                self.clear_selection();
            },
            EditorBufferCommand::Select(direction) => {
                self.select(*direction);
            },
        }
    }

    /// Carries out one command.
    pub fn apply_editor_event(editor_buffer: &mut EditorBuffer, command: EditorBufferCommand)
        requires
            old(editor_buffer).wf(),
        ensures
            final(editor_buffer).wf(),
            final(editor_buffer)@ == old(editor_buffer)@.apply(command),
    {
        editor_buffer.apply_command(&command);
    }

    /// Carries out commands in order, each on what the one before it left.
    pub fn apply_editor_events(editor_buffer: &mut EditorBuffer, commands: Vec<EditorBufferCommand>)
        requires
            old(editor_buffer).wf(),
        ensures
            final(editor_buffer).wf(),
            final(editor_buffer)@ == old(editor_buffer)@.apply_all(commands@),
    {
        let ghost before = editor_buffer@;
        let mut i: usize = 0;
        while i < commands.len()
            invariant
                i <= commands.len(),
                editor_buffer.wf(),
                editor_buffer@ == before.apply_all(commands@.take(i as int)),
            decreases commands.len() - i,
        {
            proof {
                assert(commands@.take(i + 1).drop_last() =~= commands@.take(i as int));
                assert(commands@.take(i + 1).last() == commands@[i as int]);
            }
            editor_buffer.apply_command(&commands[i]);
            i += 1;
        }
        proof {
            assert(commands@.take(commands@.len() as int) =~= commands@);
        }
    }
}

} // verus!
