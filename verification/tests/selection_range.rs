use editor_buffer::{CaretLocationInRange, SelectionRange};

#[test]
fn locate_classifies_columns_against_a_range() {
    let range = SelectionRange::new(0, 5);
    assert_eq!(range.locate(7), CaretLocationInRange::Overflow);
    assert_eq!(range.locate(3), CaretLocationInRange::Contained);
    assert_eq!(range.locate(0), CaretLocationInRange::Contained);
    assert_eq!(range.locate(5), CaretLocationInRange::Overflow);
}
