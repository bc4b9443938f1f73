//! A dialog: a title and a one-line editor in a box that is centred on a
//! surface.

use vstd::prelude::*;

use crate::editor_buffer::{text_of_lines, CaretDirection, EditorBuffer};
use crate::editor_buffer_command::EditorBufferCommand;
use crate::selection_map::TextColor;
use crate::units::{
    add_unsigned, clamped_add, decimal_text, usize_to_string, ChUnit, Position, Size,
};

verus! {

/// Names a box on the screen.
pub type FlexBoxId = u8;

/// The number of columns a dialog needs.
pub const MIN_COL_COUNT: ChUnit = 65;

/// The number of rows a dialog needs.
pub const MIN_ROW_COUNT: ChUnit = 10;

/// The number of rows a dialog takes.
pub const DIALOG_ROW_COUNT: ChUnit = 4;

/// The two sides of the smallest surface that can show a dialog.
#[derive(Clone, Copy, Debug, PartialEq, Eq, Hash, Structural)]
pub enum MinSize {
    Col,
    Row,
}

impl MinSize {
    pub open spec fn spec_int_value(self) -> ChUnit {
        match self {
            MinSize::Col => MIN_COL_COUNT,
            MinSize::Row => MIN_ROW_COUNT,
        }
    }

    pub fn int_value(self) -> (value: ChUnit)
        ensures
            value == self.spec_int_value(),
    {
        match self {
            MinSize::Col => MIN_COL_COUNT,
            MinSize::Row => MIN_ROW_COUNT,
        }
    }
}

/// What went wrong.
#[derive(Clone, Copy, Debug, PartialEq, Eq, Hash, Structural)]
pub enum CommonErrorType {
    /// The display has not the room that is needed.
    DisplaySizeTooSmall,
}

/// An error: its kind and a message.
#[derive(Clone, Debug, PartialEq, Eq, Hash)]
pub struct CommonError {
    pub err_type: CommonErrorType,
    pub err_msg: Option<String>,
}

/// A rectangle of the screen that hosts boxes.
#[derive(Clone, Copy, Debug, PartialEq, Eq, Hash, Structural)]
pub struct Surface {
    pub origin_pos: Position,
    pub box_size: Size,
}

/// How text is to look.
#[derive(Clone, Copy, Debug, PartialEq, Eq, Hash, Structural)]
pub struct Style {
    pub color_fg: Option<TextColor>,
    pub color_bg: Option<TextColor>,
    /// Whether the text is to be painted in the colours of a rainbow.
    pub lolcat: bool,
}

/// A box placed on the screen.
#[derive(Clone, Copy, Debug, PartialEq, Eq, Hash, Structural)]
pub struct FlexBox {
    pub id: FlexBoxId,
    pub style_adjusted_origin_pos: Position,
    pub style_adjusted_bounds_size: Size,
    pub maybe_computed_style: Option<Style>,
}

/// The kinds of dialog.
#[derive(Clone, Copy, Debug, PartialEq, Eq, Hash, Structural)]
pub enum DialogEngineMode {
    ModalSimple,
    ModalAutocomplete,
}

/// The size of the surface a dialog is centred on: that of the surface given,
/// or of the window where none is.
pub open spec fn hosting_size(window_size: Size, maybe_surface: Option<Surface>) -> Size {
    match maybe_surface {
        Some(surface) => surface.box_size,
        None => window_size,
    }
}

/// The place of that surface.
pub open spec fn hosting_origin(maybe_surface: Option<Surface>) -> Position {
    match maybe_surface {
        Some(surface) => surface.origin_pos,
        None => Position { col_index: 0, row_index: 0 },
    }
}

/// A size is too small for a dialog when it has fewer columns or fewer rows
/// than a dialog needs.
pub open spec fn too_small(size: Size) -> bool {
    size.col_count < MIN_COL_COUNT || size.row_count < MIN_ROW_COUNT
}

/// The box of a dialog: nine tenths of the surface's columns wide, four rows
/// high, centred on the surface.
pub open spec fn dialog_box(
    dialog_id: FlexBoxId,
    window_size: Size,
    maybe_surface: Option<Surface>,
) -> FlexBox {
    let surface = hosting_size(window_size, maybe_surface);
    let origin = hosting_origin(maybe_surface);
    let col_count = surface.col_count * 90 / 100;
    FlexBox {
        id: dialog_id,
        style_adjusted_origin_pos: Position {
            col_index: clamped_add(surface.col_count / 2 - col_count / 2, origin.col_index as int) as usize,
            row_index: clamped_add(
                surface.row_count / 2 - DIALOG_ROW_COUNT / 2,
                origin.row_index as int,
            ) as usize,
        },
        style_adjusted_bounds_size: Size { col_count: col_count as usize, row_count: DIALOG_ROW_COUNT },
        maybe_computed_style: None,
    }
}

/// What the error says when the display is too small.
pub open spec fn too_small_message() -> Seq<char> {
    "Window size is too small. Min size is "@ + decimal_text(MIN_COL_COUNT as nat) + " cols x "@
        + decimal_text(MIN_ROW_COUNT as nat) + " rows"@
}

/// Nine tenths of a number, rounded down.
fn nine_tenths(n: ChUnit) -> (r: ChUnit)
    ensures
        r == n * 90 / 100,
{
    let r = n / 100 * 90 + n % 100 * 90 / 100;
    assert(r == n * 90 / 100) by (nonlinear_arith)
        requires
            r == n / 100 * 90 + n % 100 * 90 / 100,
            0 <= n,
    ;
    r
}

/// Places the box of a dialog. The window and the surface that hosts the
/// dialog must each have the columns and rows a dialog needs; otherwise the
/// display is too small.
pub fn make_flex_box_for_dialog(
    dialog_id: &FlexBoxId,
    _mode: &DialogEngineMode,
    window_size: &Size,
    maybe_surface: Option<&Surface>,
) -> (result: Result<FlexBox, CommonError>)
    ensures
        result is Err <==> too_small(*window_size) || too_small(
            hosting_size(
                *window_size,
                match maybe_surface {
                    Some(surface) => Some(*surface),
                    None => None,
                },
            ),
        ),
        result matches Ok(flex_box) ==> flex_box == dialog_box(
            *dialog_id,
            *window_size,
            match maybe_surface {
                Some(surface) => Some(*surface),
                None => None,
            },
        ),
        result matches Err(error) ==> {
            &&& error.err_type == CommonErrorType::DisplaySizeTooSmall
            &&& error.err_msg matches Some(message)
            &&& message@ == too_small_message()
        },
{
    let surface_size = match maybe_surface {
        Some(surface) => surface.box_size,
        None => *window_size,
    };
    let surface_origin_pos = match maybe_surface {
        Some(surface) => surface.origin_pos,
        None => Position { col_index: 0, row_index: 0 },
    };

    // The dialog needs room.
    if window_size.col_count < MinSize::Col.int_value() || window_size.row_count
        < MinSize::Row.int_value() || surface_size.col_count < MinSize::Col.int_value()
        || surface_size.row_count < MinSize::Row.int_value() {
        let mut message = String::from_str("Window size is too small. Min size is ");
        message.append(usize_to_string(MinSize::Col.int_value()).as_str());
        message.append(" cols x ");
        message.append(usize_to_string(MinSize::Row.int_value()).as_str());
        message.append(" rows");
        return Err(
            CommonError { err_type: CommonErrorType::DisplaySizeTooSmall, err_msg: Some(message) },
        );
    }
    let dialog_size = Size {
        col_count: nine_tenths(surface_size.col_count),
        row_count: DIALOG_ROW_COUNT,
    };
    let origin_col = surface_size.col_count / 2 - dialog_size.col_count / 2;
    let origin_row = surface_size.row_count / 2 - dialog_size.row_count / 2;
    Ok(
        FlexBox {
            id: *dialog_id,
            style_adjusted_origin_pos: Position {
                col_index: add_unsigned(origin_col, surface_origin_pos.col_index),
                row_index: add_unsigned(origin_row, surface_origin_pos.row_index),
            },
            style_adjusted_bounds_size: dialog_size,
            maybe_computed_style: None,
        },
    )
}

/// The keys that are no characters.
#[derive(Clone, Copy, Debug, PartialEq, Eq, Hash, Structural)]
pub enum SpecialKey {
    Enter,
    Esc,
    Backspace,
    Delete,
    Up,
    Down,
    Left,
    Right,
}

/// What came in from the keyboard, as far as a dialog and its editor read it.
#[derive(Clone, Copy, Debug, PartialEq, Eq, Hash, Structural)]
pub enum InputEvent {
    /// A character was typed.
    Character(char),
    /// A special key was pressed.
    Special(SpecialKey),
    /// A special key was pressed while shift was held.
    ShiftSpecial(SpecialKey),
    /// Anything else.
    Other,
}

/// What an input means to a dialog.
#[derive(Clone, Copy, Debug, PartialEq, Eq, Hash, Structural)]
pub enum DialogEvent {
    EnterPressed,
    EscPressed,
    /// The input is not for the dialog.
    Ignored,
}

impl DialogEvent {
    pub open spec fn spec_from(input_event: InputEvent) -> DialogEvent {
        match input_event {
            InputEvent::Special(SpecialKey::Enter) => DialogEvent::EnterPressed,
            InputEvent::Special(SpecialKey::Esc) => DialogEvent::EscPressed,
            _ => DialogEvent::Ignored,
        }
    }

    /// Enter and Esc speak to the dialog; nothing else does.
    pub fn from_input_event(input_event: &InputEvent) -> (event: DialogEvent)
        ensures
            event == Self::spec_from(*input_event),
    {
        match input_event {
            InputEvent::Special(SpecialKey::Enter) => DialogEvent::EnterPressed,
            InputEvent::Special(SpecialKey::Esc) => DialogEvent::EscPressed,
            _ => DialogEvent::Ignored,
        }
    }
}

/// The direction of an arrow key.
pub open spec fn direction_of(key: SpecialKey) -> Option<CaretDirection> {
    match key {
        SpecialKey::Up => Some(CaretDirection::Up),
        SpecialKey::Down => Some(CaretDirection::Down),
        SpecialKey::Left => Some(CaretDirection::Left),
        SpecialKey::Right => Some(CaretDirection::Right),
        _ => None,
    }
}

/// What an input asks of an editor: a character is put in, Enter starts a
/// line, Backspace and Delete take out, the arrows move the caret, and with
/// shift held they let the selection follow it. Other input asks nothing.
pub open spec fn command_of(input_event: InputEvent) -> Option<EditorBufferCommand> {
    match input_event {
        InputEvent::Character(character) => Some(EditorBufferCommand::InsertChar(character)),
        InputEvent::Special(SpecialKey::Enter) => Some(EditorBufferCommand::InsertNewLine),
        InputEvent::Special(SpecialKey::Backspace) => Some(EditorBufferCommand::Backspace),
        InputEvent::Special(SpecialKey::Delete) => Some(EditorBufferCommand::Delete),
        InputEvent::Special(key) => match direction_of(key) {
            Some(direction) => Some(EditorBufferCommand::MoveCaret(direction)),
            None => None,
        },
        InputEvent::ShiftSpecial(key) => match direction_of(key) {
            Some(direction) => Some(EditorBufferCommand::Select(direction)),
            None => None,
        },
        InputEvent::Other => None,
    }
}

fn direction_of_key(key: SpecialKey) -> (direction: Option<CaretDirection>)
    ensures
        direction == direction_of(key),
{
    match key {
        SpecialKey::Up => Some(CaretDirection::Up),
        SpecialKey::Down => Some(CaretDirection::Down),
        SpecialKey::Left => Some(CaretDirection::Left),
        SpecialKey::Right => Some(CaretDirection::Right),
        _ => None,
    }
}

/// The command that an input asks of an editor, if it asks one.
pub fn command_from_input_event(input_event: &InputEvent) -> (command: Option<EditorBufferCommand>)
    ensures
        command == command_of(*input_event),
{
    match input_event {
        InputEvent::Character(character) => Some(EditorBufferCommand::InsertChar(*character)),
        InputEvent::Special(SpecialKey::Enter) => Some(EditorBufferCommand::InsertNewLine),
        InputEvent::Special(SpecialKey::Backspace) => Some(EditorBufferCommand::Backspace),
        InputEvent::Special(SpecialKey::Delete) => Some(EditorBufferCommand::Delete),
        InputEvent::Special(key) => match direction_of_key(*key) {
            Some(direction) => Some(EditorBufferCommand::MoveCaret(direction)),
            None => None,
        },
        InputEvent::ShiftSpecial(key) => match direction_of_key(*key) {
            Some(direction) => Some(EditorBufferCommand::Select(direction)),
            None => None,
        },
        InputEvent::Other => None,
    }
}

/// What a dialog holds: its title and the text being typed.
#[derive(Clone, Debug, PartialEq, Eq, Hash)]
pub struct DialogBuffer {
    pub editor_buffer: EditorBuffer,
    pub title: String,
}

impl DialogBuffer {
    /// A dialog without a title and without text.
    pub fn new_empty() -> (buffer: DialogBuffer)
        ensures
            buffer.editor_buffer.wf(),
            buffer.editor_buffer@.lines == seq![Seq::<crate::unicode_string::SegmentModel>::empty()],
            buffer.title@ == Seq::<char>::empty(),
    {
        DialogBuffer { editor_buffer: EditorBuffer::new_empty(None), title: String::new() }
    }
}

/// How a dialog ended.
#[derive(Clone, Debug, PartialEq, Eq, Hash)]
pub enum DialogChoice {
    /// Accepted, with the text that was typed.
    Yes(String),
    /// Dismissed.
    No,
}

/// What an input did to a dialog.
#[derive(Debug)]
pub enum DialogEngineApplyResponse {
    /// The text changed; here is the buffer after the change.
    UpdateEditorBuffer(EditorBuffer),
    /// The dialog ended.
    DialogChoice(DialogChoice),
    /// Nothing happened.
    Noop,
}

/// Enter ends the dialog with the text that was typed, Esc ends it without;
/// other input leaves it open.
pub fn try_handle_dialog_choice(input_event: &InputEvent, dialog_buffer: &DialogBuffer) -> (choice:
    Option<DialogChoice>)
    ensures
        match DialogEvent::spec_from(*input_event) {
            DialogEvent::EnterPressed => {
                &&& choice matches Some(DialogChoice::Yes(text))
                &&& text@ == text_of_lines(dialog_buffer.editor_buffer@.lines)
            },
            DialogEvent::EscPressed => choice == Some(DialogChoice::No),
            DialogEvent::Ignored => choice is None,
        },
{
    match DialogEvent::from_input_event(input_event) {
        DialogEvent::EnterPressed => {
            let text = dialog_buffer.editor_buffer.get_as_string();
            Some(DialogChoice::Yes(text))
        },
        DialogEvent::EscPressed => Some(DialogChoice::No),
        DialogEvent::Ignored => None,
    }
}

/// How a dialog is to look.
#[derive(Clone, Copy, Debug, PartialEq, Eq, Hash, Structural)]
pub struct DialogEngineConfigOptions {
    pub mode: DialogEngineMode,
    pub maybe_style_border: Option<Style>,
    pub maybe_style_title: Option<Style>,
    pub maybe_style_editor: Option<Style>,
}

/// The engine of a dialog. It keeps the box that it placed last, with the
/// window size it was placed for.
#[derive(Clone, Copy, Debug, PartialEq, Eq, Hash)]
pub struct DialogEngine {
    pub dialog_options: DialogEngineConfigOptions,
    pub maybe_flex_box: Option<(Size, FlexBox)>,
}

impl DialogEngine {
    pub fn new(dialog_options: DialogEngineConfigOptions) -> (engine: DialogEngine)
        ensures
            engine.maybe_flex_box is None,
            engine.dialog_options == dialog_options,
    {
        DialogEngine { dialog_options, maybe_flex_box: None }
    }

    /// Carries out an input on a dialog. Enter and Esc end the dialog. Other
    /// input goes to the editor: where it asks a command of it, the answer is
    /// a copy of the buffer with the command carried out; the dialog's own
    /// buffer stays as it is.
    pub fn apply_event(dialog_buffer: &DialogBuffer, input_event: &InputEvent) -> (response:
        DialogEngineApplyResponse)
        requires
            dialog_buffer.editor_buffer.wf(),
        ensures
            match DialogEvent::spec_from(*input_event) {
                DialogEvent::EnterPressed => {
                    &&& response matches DialogEngineApplyResponse::DialogChoice(
                        DialogChoice::Yes(text),
                    )
                    &&& text@ == text_of_lines(dialog_buffer.editor_buffer@.lines)
                },
                DialogEvent::EscPressed => response matches DialogEngineApplyResponse::DialogChoice(
                    DialogChoice::No,
                ),
                DialogEvent::Ignored => match command_of(*input_event) {
                    Some(command) => {
                        &&& response matches DialogEngineApplyResponse::UpdateEditorBuffer(buffer)
                        &&& buffer.wf()
                        &&& buffer@ == dialog_buffer.editor_buffer@.apply(command)
                    },
                    None => response is Noop,
                },
            },
    {
        match try_handle_dialog_choice(input_event, dialog_buffer) {
            Some(choice) => {
                return DialogEngineApplyResponse::DialogChoice(choice);
            },
            None => {},
        }
        match command_from_input_event(input_event) {
            Some(command) => {
                let mut buffer = dialog_buffer.editor_buffer.duplicate();
                EditorBuffer::apply_editor_event(&mut buffer, command);
                DialogEngineApplyResponse::UpdateEditorBuffer(buffer)
            },
            None => DialogEngineApplyResponse::Noop,
        }
    }
}

} // verus!
