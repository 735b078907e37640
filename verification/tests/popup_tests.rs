use lunch_tray::popup_logic::{
    build_suffix_segments, flatten_suffix_segments, header_button_at, header_layout, ranges_overlap,
    row_byte_index_from_x, selected_range, HeaderButtonAction, SelectableBoundary, SelectableRow,
};

#[test]
fn header_buttons_sit_left_and_right() {
    let layout = header_layout(400);
    assert_eq!((layout.prev.left, layout.prev.top, layout.prev.right, layout.prev.bottom), (12, 8, 42, 38));
    assert_eq!((layout.next.left, layout.next.right), (50, 80));
    assert_eq!((layout.close.left, layout.close.right), (358, 388));
    assert_eq!(header_button_at(400, 12, 8), Some(HeaderButtonAction::Prev));
    assert_eq!(header_button_at(400, 80, 38), Some(HeaderButtonAction::Next));
    assert_eq!(header_button_at(400, 370, 20), Some(HeaderButtonAction::Close));
    assert_eq!(header_button_at(400, 200, 20), None);
    assert_eq!(header_button_at(400, 20, 39), None);
}

#[test]
fn selection_ranges_are_ordered_and_overlaps_half_open() {
    assert_eq!(selected_range(5, 2), (2, 5));
    assert_eq!(selected_range(2, 5), (2, 5));
    assert!(ranges_overlap((0, 5), (4, 8)));
    assert!(!ranges_overlap((0, 5), (5, 8)));
    assert!(!ranges_overlap((3, 3), (0, 8)));
}

fn row(boundaries: Vec<(usize, i32)>) -> SelectableRow {
    SelectableRow {
        item_id: 0,
        start: 10,
        end: 14,
        left: 100,
        top: 0,
        bottom: 20,
        boundaries: boundaries
            .into_iter()
            .map(|(byte_index, x_offset)| SelectableBoundary { byte_index, x_offset })
            .collect(),
    }
}

#[test]
fn clicks_select_the_last_boundary_left_of_them() {
    let r = row(vec![(0, 0), (1, 8), (2, 16), (3, 24), (4, 32)]);
    assert_eq!(row_byte_index_from_x(&r, 90), 0);
    assert_eq!(row_byte_index_from_x(&r, 117), 2);
    assert_eq!(row_byte_index_from_x(&r, 500), 4);
    assert_eq!(row_byte_index_from_x(&row(vec![]), 500), 0);
    assert_eq!(row_byte_index_from_x(&row(vec![(0, 0), (9, 1)]), 500), 4);
}

#[test]
fn allergen_tokens_are_highlighted_when_enabled() {
    let segments = build_suffix_segments("(G, Veg, L, M)", true, true, false);
    let expected: Vec<(String, bool)> = vec![
        ("(".to_string(), false),
        ("G".to_string(), true),
        (", ".to_string(), false),
        ("Veg".to_string(), true),
        (", ".to_string(), false),
        ("L".to_string(), false),
        (", ".to_string(), false),
        ("M".to_string(), false),
        (")".to_string(), false),
    ];
    assert_eq!(segments, expected);
    assert_eq!(flatten_suffix_segments(&segments), "(G, Veg, L, M)");
    assert!(build_suffix_segments("", true, true, true).is_empty());
}
