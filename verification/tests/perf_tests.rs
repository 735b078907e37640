use lunch_tray::perf::{
    batch_candidate_calls, begin_mouse_move, begin_popup_paint, count_animated_paint, count_gdi_call,
    count_layout_budget_cache_parse, count_layout_budget_cache_read, count_regex_compilation,
    count_row_boundary_hit, count_row_boundary_miss, count_snapshot_clone, count_text_width_call,
    count_text_width_hit, count_text_width_miss, current_gdi_batch_limit, record_paint_region, reset,
    snapshot, total_gdi_calls, GdiCall, GDI_CALL_COUNT,
};

#[test]
fn paint_calls_are_counted_only_inside_a_paint() {
    let mut c = reset();
    count_gdi_call(&mut c, GdiCall::TextOut);
    {
        let paint = begin_popup_paint(&mut c);
        count_gdi_call(&mut c, GdiCall::TextOut);
        count_gdi_call(&mut c, GdiCall::SelectObject);
        paint.finish(&mut c, 1_000);
    }
    let counters = snapshot(&c, 5);
    assert_eq!(counters.paints, 1);
    assert_eq!(counters.gdi_calls[GdiCall::TextOut.index()], 1);
    assert_eq!(counters.gdi_calls[GdiCall::SelectObject.index()], 1);
    assert_eq!(counters.max_calls_per_paint, 2);
    assert_eq!(counters.paint_ns, 1_000);
    assert_eq!(counters.elapsed_ms, 5);
}

#[test]
fn report_distinguishes_batch_candidates_from_barriers() {
    let mut c = reset();
    let paint = begin_popup_paint(&mut c);
    count_gdi_call(&mut c, GdiCall::TextOut);
    count_gdi_call(&mut c, GdiCall::BitBlt);
    count_gdi_call(&mut c, GdiCall::SelectObject);
    paint.finish(&mut c, 10);
    let s = snapshot(&c, 0);
    let total = total_gdi_calls(&s);
    let batch = batch_candidate_calls(&s);
    assert_eq!(total, 3);
    assert_eq!(batch, 2);
    assert_eq!(total - batch, 1);
}

#[test]
fn call_kinds_have_their_win32_names_and_slots() {
    let all = GdiCall::all();
    assert_eq!(all.len(), GDI_CALL_COUNT);
    for (i, call) in all.iter().enumerate() {
        assert_eq!(call.index(), i);
    }
    assert_eq!(GdiCall::CreateFont.name(), "CreateFontW");
    assert_eq!(GdiCall::TextOut.name(), "TextOutW");
    assert!(GdiCall::MaskBlt.is_documented_batch_candidate());
    assert!(!GdiCall::FillRect.is_documented_batch_candidate());
    assert_eq!(current_gdi_batch_limit(), None);
}

#[test]
fn process_wide_counters_wrap_and_popup_counters_count() {
    let mut c = reset();
    c.regex_compilations = u64::MAX;
    count_regex_compilation(&mut c);
    assert_eq!(c.regex_compilations, 0);
    count_text_width_call(&mut c);
    count_layout_budget_cache_read(&mut c);
    count_layout_budget_cache_parse(&mut c);
    count_snapshot_clone(&mut c, 100, 3);
    count_animated_paint(&mut c);
    count_row_boundary_hit(&mut c);
    count_row_boundary_miss(&mut c);
    count_text_width_hit(&mut c);
    count_text_width_miss(&mut c);
    assert_eq!(c.text_width_calls, 1);
    assert_eq!(c.layout_budget_cache_reads, 1);
    assert_eq!(c.layout_budget_cache_parses, 1);
    assert_eq!((c.snapshot_cloned_bytes, c.snapshot_cloned_strings), (100, 3));
    assert_eq!((c.animated_paints, c.row_boundary_hits, c.row_boundary_misses), (1, 1, 1));
    assert_eq!((c.text_width_hits, c.text_width_misses), (1, 1));
    let m = begin_mouse_move(&mut c);
    m.finish(&mut c, 7);
    let m = begin_mouse_move(&mut c);
    m.finish(&mut c, 3);
    assert_eq!((c.mouse_moves, c.mouse_move_ns, c.max_mouse_move_ns), (2, 10, 7));
}

#[test]
fn paint_regions_add_areas_and_count_full_paints() {
    let mut c = reset();
    record_paint_region(&mut c, 100, 50, 0, 0, 100, 50);
    record_paint_region(&mut c, 100, 50, 10, 10, 20, 15);
    record_paint_region(&mut c, -5, 50, 30, 10, 20, 15);
    assert_eq!(c.client_pixels, 10_000);
    assert_eq!(c.dirty_pixels, 5_000 + 50);
    assert_eq!(c.full_client_paints, 1);
}

#[test]
fn a_second_paint_adds_its_own_calls_and_keeps_the_largest_count() {
    let mut c = reset();
    let first = begin_popup_paint(&mut c);
    for _ in 0..3 {
        count_gdi_call(&mut c, GdiCall::TextOut);
    }
    first.finish(&mut c, 100);
    let second = begin_popup_paint(&mut c);
    count_gdi_call(&mut c, GdiCall::TextOut);
    count_gdi_call(&mut c, GdiCall::FillRect);
    second.finish(&mut c, 50);
    let s = snapshot(&c, 1);
    assert_eq!(s.paints, 2);
    assert_eq!(s.gdi_calls[GdiCall::TextOut.index()], 4);
    assert_eq!(s.gdi_calls[GdiCall::FillRect.index()], 1);
    assert_eq!(s.max_calls_per_paint, 3);
    assert_eq!(s.paint_ns, 150);
    assert_eq!(s.max_paint_ns, 100);
    assert_eq!(s.mouse_moves, 0);
}
