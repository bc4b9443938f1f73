use editor_buffer::{DialogEngineMode, FlexBoxId, Position, Size, Surface};

#[test]
fn make_flex_box_for_dialog() {
    // 1. The surface and window_size are not the same width and height.
    // 2. The surface is also not starting from the top left corner of the window.
    let surface = Surface { origin_pos: Position::new(2, 2), box_size: Size::new(65, 10) };
    let window_size = Size::new(70, 15);
    let self_id: FlexBoxId = 0;

    // The dialog box should be centered inside the surface.
    let result_flex_box = editor_buffer::make_flex_box_for_dialog(
        &self_id,
        &DialogEngineMode::ModalSimple,
        &window_size,
        Some(&surface),
    );

    assert_eq!(result_flex_box.is_ok(), true);

    let flex_box = result_flex_box.unwrap();
    assert_eq!(flex_box.id, self_id);
    assert_eq!(flex_box.style_adjusted_bounds_size, Size::new(58, 4));
    assert_eq!(flex_box.style_adjusted_origin_pos, Position::new(5, 5));
}
