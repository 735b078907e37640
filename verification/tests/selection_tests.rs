use lunch_tray::popup_logic::{SelectableBoundary, SelectableRow};
use lunch_tray::selection::{
    hit_test_row, hit_test_row_for_item, SelectableLayout, SelectionFinish, SelectionRange, SelectionState,
};

fn row(item_id: usize, start: usize, end: usize, top: i32, chars: usize) -> SelectableRow {
    SelectableRow {
        item_id,
        start,
        end,
        left: 10,
        top,
        bottom: top + 20,
        boundaries: (0..=chars).map(|i| SelectableBoundary { byte_index: i, x_offset: 8 * i as i32 }).collect(),
    }
}

fn layout(window: u64) -> SelectableLayout {
    SelectableLayout {
        window,
        items: vec!["Tofu wok".to_string(), "Rice".to_string()],
        rows: vec![row(0, 0, 4, 0, 4), row(0, 5, 8, 21, 3), row(1, 0, 4, 50, 4)],
    }
}

fn state() -> SelectionState {
    let mut s = SelectionState::new();
    s.store_selection_layout(layout(1));
    s
}

#[test]
fn rows_are_hit_by_height_then_by_width() {
    let l = layout(1);
    assert_eq!(hit_test_row(&l.rows, 27, 5), Some((0, 2)));
    assert_eq!(hit_test_row(&l.rows, 0, 60), Some((2, 0)));
    assert_eq!(hit_test_row(&l.rows, 27, 45), None);
    assert_eq!(hit_test_row_for_item(&l.rows, 0, 100, 45), Some((1, 8)));
    assert_eq!(hit_test_row_for_item(&l.rows, 1, 18, 0), Some((2, 1)));
    assert_eq!(hit_test_row_for_item(&l.rows, 7, 18, 0), None);
}

#[test]
fn dragging_selects_a_snippet_to_toggle() {
    let mut s = state();
    assert!(s.begin_text_selection(1, 27, 5));
    assert!(s.text_selection_active(1));
    assert!(!s.text_selection_active(2));
    assert!(s.update_text_selection(1, 30, 30));
    assert!(!s.update_text_selection(1, 30, 30));
    assert_eq!(s.current_selection_range(1), Some(SelectionRange { item_id: 0, start: 2, end: 7 }));
    assert_eq!(s.finish_text_selection(1, 30, 30), SelectionFinish::Toggle("fu wo".to_string()));
    assert!(!s.text_selection_active(1));
    assert_eq!(s.current_selection_range(1), None);
    assert_eq!(s.finish_text_selection(1, 30, 30), SelectionFinish::Ignored);
}

#[test]
fn a_click_without_a_drag_clears_the_selection() {
    let mut s = state();
    assert!(s.begin_text_selection(1, 27, 5));
    assert_eq!(s.finish_text_selection(1, 27, 5), SelectionFinish::Cleared);
}

#[test]
fn presses_outside_rows_or_windows_start_nothing() {
    let mut s = state();
    assert!(!s.begin_text_selection(1, 27, 100));
    assert!(!s.begin_text_selection(2, 27, 5));
    assert!(!s.text_selection_active(1));
    let mut empty = SelectionState::new();
    assert!(!empty.begin_text_selection(1, 27, 5));
    assert!(!empty.cancel_text_selection());
}

#[test]
fn cancelling_or_repainting_elsewhere_drops_the_drag() {
    let mut s = state();
    assert!(s.begin_text_selection(1, 27, 5));
    assert!(s.cancel_text_selection());
    assert!(!s.text_selection_active(1));

    assert!(s.begin_text_selection(1, 27, 5));
    s.store_selection_layout(layout(1));
    assert!(s.text_selection_active(1));
    s.store_selection_layout(layout(2));
    assert!(!s.text_selection_active(2));
}

#[test]
fn selected_ranges_are_clipped_to_the_text() {
    let mut s = SelectionState::new();
    let mut l = layout(1);
    l.rows[2] = row(1, 0, 9, 50, 9);
    s.store_selection_layout(l);
    assert!(s.begin_text_selection(1, 18, 55));
    assert!(s.update_text_selection(1, 90, 55));
    assert_eq!(s.current_selection_range(1), Some(SelectionRange { item_id: 1, start: 1, end: 4 }));
    assert_eq!(s.finish_text_selection(1, 90, 55), SelectionFinish::Cleared);
}
