//! A text-editing buffer: lines of grapheme segments, a caret kept in display
//! columns, and a per-row selection map.

pub mod dialog;
pub mod dialog_render;
pub mod editor_buffer;
pub mod editor_buffer_command;
pub mod selection_map;
pub mod selection_range;
pub mod selection_support;
pub mod state;
pub mod unicode_string;
pub mod units;

pub use dialog::{
    make_flex_box_for_dialog, try_handle_dialog_choice, CommonError, CommonErrorType, DialogBuffer,
    DialogChoice, DialogEngine, DialogEngineApplyResponse, DialogEngineConfigOptions,
    DialogEngineMode, DialogEvent, FlexBox,
    FlexBoxId, InputEvent, MinSize, SpecialKey, Style, Surface,
};
pub use dialog_render::{
    render_border, render_editor, render_title, DialogRender, RenderOp, RenderOps,
};
pub use editor_buffer::{BufferModel, CaretDirection, EditorBuffer};
pub use editor_buffer_command::EditorBufferCommand;
pub use selection_map::{RowIndex, SelectionMap, StyledString, TextColor};
pub use selection_range::{CaretLocationInRange, CaretMovementDirection, SelectionRange};
pub use selection_support::EditorBufferApi;
pub use state::{get_content, get_file_extension, Id, State, DEFAULT_SYN_HI_FILE_EXT};
pub use unicode_string::{GraphemeClusterSegment, SegmentLocation, SegmentModel, UnicodeString};
pub use units::{add_unsigned, sub_unsigned, usize_to_string, ChUnit, Position, Size};
