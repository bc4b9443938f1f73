//! What a dialog paints: its border, its title, and the place of its editor.

use vstd::prelude::*;

use crate::dialog::{
    dialog_box, make_flex_box_for_dialog, too_small, CommonError, DialogEngine, FlexBox, FlexBoxId,
    Style,
};
use crate::unicode_string::{index_at, segments_of, text_of, width_of, UnicodeString};
use crate::units::{add_unsigned, clamped_add, clamped_sub, sub_unsigned, ChUnit, Position, Size};

verus! {

/// One step of painting.
#[derive(Clone, Debug, PartialEq, Eq, Hash)]
pub enum RenderOp {
    ResetColor,
    MoveCursorPositionAbs(Position),
    ApplyColors(Option<Style>),
    PaintTextWithAttributes(String, Option<Style>),
}

/// What a step of painting is in contracts.
pub enum RenderOpModel {
    ResetColor,
    MoveCursorPositionAbs(Position),
    ApplyColors(Option<Style>),
    PaintTextWithAttributes(Seq<char>, Option<Style>),
}

impl View for RenderOp {
    type V = RenderOpModel;

    open spec fn view(&self) -> RenderOpModel {
        match *self {
            RenderOp::ResetColor => RenderOpModel::ResetColor,
            RenderOp::MoveCursorPositionAbs(position) => RenderOpModel::MoveCursorPositionAbs(
                position,
            ),
            RenderOp::ApplyColors(style) => RenderOpModel::ApplyColors(style),
            RenderOp::PaintTextWithAttributes(text, style) => RenderOpModel::PaintTextWithAttributes(
                text@,
                style,
            ),
        }
    }
}

/// Steps of painting, in order.
pub type RenderOps = Vec<RenderOp>;

/// The models of steps of painting.
pub open spec fn ops_model(ops: Seq<RenderOp>) -> Seq<RenderOpModel> {
    ops.map_values(|op: RenderOp| op@)
}

/// A text `n` times over.
pub open spec fn repeated(glyph: Seq<char>, n: nat) -> Seq<char>
    decreases n,
{
    if n == 0 {
        Seq::empty()
    } else {
        repeated(glyph, (n - 1) as nat) + glyph
    }
}

/// The place of the row `down` rows below a position.
pub open spec fn row_below(origin: Position, down: int) -> Position {
    Position {
        col_index: origin.col_index,
        row_index: clamped_add(origin.row_index as int, down) as usize,
    }
}

/// The text of one row of a border: corners with a line between them on the
/// first and last row, and sides with blanks between them on the others.
pub open spec fn border_row_text(row: int, size: Size) -> Seq<char> {
    let inner = clamped_sub(size.col_count as int, 2) as nat;
    if row == 0 {
        "╭"@ + repeated("─"@, inner) + "╮"@
    } else if row == size.row_count - 1 {
        "╰"@ + repeated("─"@, inner) + "╯"@
    } else {
        "│"@ + repeated(" "@, inner) + "│"@
    }
}

/// The steps that paint one row of a border. A border of a single row has
/// no text.
pub open spec fn border_row_ops(
    row: int,
    origin: Position,
    size: Size,
    style: Option<Style>,
) -> Seq<RenderOpModel> {
    let start = seq![
        RenderOpModel::ResetColor,
        RenderOpModel::MoveCursorPositionAbs(row_below(origin, row)),
        RenderOpModel::ApplyColors(style),
    ];
    if row == 0 && row == size.row_count - 1 {
        start
    } else {
        start.push(RenderOpModel::PaintTextWithAttributes(border_row_text(row, size), style))
    }
}

/// The steps that paint the first `rows` rows of a border.
pub open spec fn border_ops(
    rows: nat,
    origin: Position,
    size: Size,
    style: Option<Style>,
) -> Seq<RenderOpModel>
    decreases rows,
{
    if rows == 0 {
        Seq::empty()
    } else {
        border_ops((rows - 1) as nat, origin, size, style) + border_row_ops(
            rows - 1,
            origin,
            size,
            style,
        )
    }
}

/// The part of a title that fits into `cols` columns: its segments from the
/// start, as many as fit. A title whose width does not fit in a `usize` is
/// left out.
pub open spec fn fitting_title(title: Seq<char>, cols: int) -> Seq<char> {
    if width_of(segments_of(title)) <= usize::MAX {
        text_of(segments_of(title).take(index_at(segments_of(title), cols)))
    } else {
        Seq::empty()
    }
}

/// The steps that paint a title: one column and one row inside the box, cut
/// to the box's width less its two sides.
pub open spec fn title_ops(
    origin: Position,
    size: Size,
    title: Seq<char>,
    style: Option<Style>,
) -> Seq<RenderOpModel> {
    seq![
        RenderOpModel::ResetColor,
        RenderOpModel::MoveCursorPositionAbs(
            Position {
                col_index: clamped_add(origin.col_index as int, 1) as usize,
                row_index: clamped_add(origin.row_index as int, 1) as usize,
            },
        ),
        RenderOpModel::ApplyColors(style),
        RenderOpModel::PaintTextWithAttributes(
            fitting_title(title, clamped_sub(size.col_count as int, 2)),
            style,
        ),
    ]
}

/// The box of the editor of a dialog: one column and two rows inside the
/// dialog's box, as wide as that box less its two sides, one row high.
pub open spec fn editor_box(
    id: FlexBoxId,
    origin: Position,
    size: Size,
    style: Option<Style>,
) -> FlexBox {
    FlexBox {
        id,
        style_adjusted_origin_pos: Position {
            col_index: clamped_add(origin.col_index as int, 1) as usize,
            row_index: clamped_add(origin.row_index as int, 2) as usize,
        },
        style_adjusted_bounds_size: Size {
            col_count: clamped_sub(size.col_count as int, 2) as usize,
            row_count: 1,
        },
        maybe_computed_style: style,
    }
}

fn repeat_str(glyph: &str, n: usize) -> (text: String)
    ensures
        text@ == repeated(glyph@, n as nat),
{
    let mut text = String::new();
    let mut i: usize = 0;
    while i < n
        invariant
            i <= n,
            text@ == repeated(glyph@, i as nat),
        decreases n - i,
    {
        text.append(glyph);
        i += 1;
    }
    text
}

fn framed(left: &str, fill: &str, right: &str, inner: usize) -> (text: String)
    ensures
        text@ == left@ + repeated(fill@, inner as nat) + right@,
{
    let mut text = String::from_str(left);
    text.append(repeat_str(fill, inner).as_str());
    text.append(right);
    text
}

/// The steps that paint the border of a dialog, row by row.
pub fn render_border(origin_pos: &Position, bounds_size: &Size, dialog_engine: &DialogEngine) -> (ops:
    RenderOps)
    ensures
        ops_model(ops@) == border_ops(
            bounds_size.row_count as nat,
            *origin_pos,
            *bounds_size,
            dialog_engine.dialog_options.maybe_style_border,
        ),
{
    let mut ops: Vec<RenderOp> = Vec::new();
    let inner = sub_unsigned(bounds_size.col_count, 2);
    let maybe_style = dialog_engine.dialog_options.maybe_style_border;
    let mut row_idx: usize = 0;
    proof {
        assert(ops_model(ops@) =~= Seq::<RenderOpModel>::empty());
    }
    while row_idx < bounds_size.row_count
        invariant
            row_idx <= bounds_size.row_count,
            inner == clamped_sub(bounds_size.col_count as int, 2),
            maybe_style == dialog_engine.dialog_options.maybe_style_border,
            ops_model(ops@) == border_ops(row_idx as nat, *origin_pos, *bounds_size, maybe_style),
        decreases bounds_size.row_count - row_idx,
    {
        let ghost before = ops_model(ops@);
        let row_pos = Position {
            col_index: origin_pos.col_index,
            row_index: add_unsigned(origin_pos.row_index, row_idx),
        };
        let is_first_line = row_idx == 0;
        let is_last_line = row_idx == bounds_size.row_count - 1;

        ops.push(RenderOp::ResetColor);
        ops.push(RenderOp::MoveCursorPositionAbs(row_pos));
        ops.push(RenderOp::ApplyColors(maybe_style));

        if is_first_line && !is_last_line {
            ops.push(RenderOp::PaintTextWithAttributes(framed("╭", "─", "╮", inner), maybe_style));
        } else if !is_first_line && is_last_line {
            ops.push(RenderOp::PaintTextWithAttributes(framed("╰", "─", "╯", inner), maybe_style));
        } else if !is_first_line && !is_last_line {
            ops.push(RenderOp::PaintTextWithAttributes(framed("│", " ", "│", inner), maybe_style));
        }
        proof {
            assert(ops_model(ops@) =~= before + border_row_ops(
                row_idx as int,
                *origin_pos,
                *bounds_size,
                maybe_style,
            ));
        }
        row_idx += 1;
    }
    ops
}

/// The steps that paint the title of a dialog.
pub fn render_title(
    origin_pos: &Position,
    bounds_size: &Size,
    title: &str,
    dialog_engine: &DialogEngine,
) -> (ops: RenderOps)
    ensures
        ops_model(ops@) == title_ops(
            *origin_pos,
            *bounds_size,
            title@,
            dialog_engine.dialog_options.maybe_style_title,
        ),
{
    let mut ops: Vec<RenderOp> = Vec::new();
    let row_pos = Position {
        col_index: add_unsigned(origin_pos.col_index, 1),
        row_index: add_unsigned(origin_pos.row_index, 1),
    };
    let text_content = match UnicodeString::new(title) {
        Some(line) => line.truncate_to_fit_display_cols(sub_unsigned(bounds_size.col_count, 2)),
        None => String::new(),
    };
    let maybe_style = dialog_engine.dialog_options.maybe_style_title;
    ops.push(RenderOp::ResetColor);
    ops.push(RenderOp::MoveCursorPositionAbs(row_pos));
    ops.push(RenderOp::ApplyColors(maybe_style));
    ops.push(RenderOp::PaintTextWithAttributes(text_content, maybe_style));
    proof {
        assert(ops_model(ops@) =~= title_ops(*origin_pos, *bounds_size, title@, maybe_style));
    }
    ops
}

/// The box in which the editor of a dialog is painted.
pub fn render_editor(
    origin_pos: &Position,
    bounds_size: &Size,
    self_id: FlexBoxId,
    dialog_engine: &DialogEngine,
) -> (flex_box: FlexBox)
    ensures
        flex_box == editor_box(
            self_id,
            *origin_pos,
            *bounds_size,
            dialog_engine.dialog_options.maybe_style_editor,
        ),
{
    FlexBox {
        id: self_id,
        style_adjusted_origin_pos: Position {
            col_index: add_unsigned(origin_pos.col_index, 1),
            row_index: add_unsigned(origin_pos.row_index, 2),
        },
        style_adjusted_bounds_size: Size {
            col_count: sub_unsigned(bounds_size.col_count, 2),
            row_count: 1,
        },
        maybe_computed_style: dialog_engine.dialog_options.maybe_style_editor,
    }
}

/// What a dialog paints but for the text of its editor.
#[derive(Clone, Debug, PartialEq, Eq, Hash)]
pub struct DialogRender {
    /// The steps that paint the border and, after them, the title.
    pub ops: RenderOps,
    /// The box in which the editor is to be painted.
    pub editor_flex_box: FlexBox,
}

impl DialogEngine {
    /// The box the engine goes by for a window: the one it kept, if it kept
    /// it for a window of this size, and otherwise a box placed anew.
    pub open spec fn box_for(self, self_id: FlexBoxId, window_size: Size) -> Option<FlexBox> {
        match self.maybe_flex_box {
            Some((saved_window_size, saved_flex_box)) if saved_window_size == window_size => Some(
                saved_flex_box,
            ),
            _ => if too_small(window_size) {
                None
            } else {
                Some(dialog_box(self_id, window_size, None))
            },
        }
    }

    /// Paints a dialog: border, then title, and the box for its editor. The
    /// engine keeps the box it went by, with the window size. Where a box has
    /// to be placed and the window is too small for a dialog, nothing is
    /// painted and the engine keeps what it had.
    pub fn render_engine(
        dialog_engine: &mut DialogEngine,
        self_id: FlexBoxId,
        window_size: &Size,
        title: &str,
    ) -> (result: Result<DialogRender, CommonError>)
        ensures
            final(dialog_engine).dialog_options == old(dialog_engine).dialog_options,
            match old(dialog_engine).box_for(self_id, *window_size) {
                Some(flex_box) => {
                    &&& final(dialog_engine).maybe_flex_box == Some((*window_size, flex_box))
                    &&& result matches Ok(render)
                    &&& ops_model(render.ops@) == border_ops(
                        flex_box.style_adjusted_bounds_size.row_count as nat,
                        flex_box.style_adjusted_origin_pos,
                        flex_box.style_adjusted_bounds_size,
                        old(dialog_engine).dialog_options.maybe_style_border,
                    ) + title_ops(
                        flex_box.style_adjusted_origin_pos,
                        flex_box.style_adjusted_bounds_size,
                        title@,
                        old(dialog_engine).dialog_options.maybe_style_title,
                    )
                    &&& render.editor_flex_box == editor_box(
                        self_id,
                        flex_box.style_adjusted_origin_pos,
                        flex_box.style_adjusted_bounds_size,
                        old(dialog_engine).dialog_options.maybe_style_editor,
                    )
                },
                None => {
                    &&& result is Err
                    &&& final(dialog_engine).maybe_flex_box == old(dialog_engine).maybe_flex_box
                },
            },
    {
        let saved = match dialog_engine.maybe_flex_box {
            Some((saved_window_size, saved_flex_box)) => {
                if saved_window_size.col_count == window_size.col_count
                    && saved_window_size.row_count == window_size.row_count {
                    Some(saved_flex_box)
                } else {
                    None
                }
            },
            None => None,
        };
        let current_box = match saved {
            Some(saved_flex_box) => saved_flex_box,
            None => {
                match make_flex_box_for_dialog(
                    &self_id,
                    &dialog_engine.dialog_options.mode,
                    window_size,
                    None,
                ) {
                    Ok(flex_box) => {
                        dialog_engine.maybe_flex_box = Some((*window_size, flex_box));
                        flex_box
                    },
                    Err(error) => {
                        return Err(error);
                    },
                }
            },
        };
        let origin_pos = current_box.style_adjusted_origin_pos;
        let bounds_size = current_box.style_adjusted_bounds_size;

        let mut ops = render_border(&origin_pos, &bounds_size, dialog_engine);
        let ghost border = ops_model(ops@);
        let mut title_part = render_title(&origin_pos, &bounds_size, title, dialog_engine);
        let ghost titled = ops_model(title_part@);
        ops.append(&mut title_part);
        proof {
            assert(ops_model(ops@) =~= border + titled);
        }
        Ok(
            DialogRender {
                ops,
                editor_flex_box: render_editor(&origin_pos, &bounds_size, self_id, dialog_engine),
            },
        )
    }
}

} // verus!
