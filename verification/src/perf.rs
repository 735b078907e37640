//! Diagnostic counters of the popup: paint API calls, paints, input events
//! and cache hits, kept as one value that the caller owns.
//!
//! Durations are measured by the caller and handed in (`elapsed_ns`,
//! `elapsed_ms`). Counters that the popup bumps once per event panic on
//! overflow and so require room; the process-wide ones wrap.

use vstd::prelude::*;

verus! {

/// Win32/GDI entry points called by the popup paint implementation.
///
/// These are API-call counts, not syscall counts. GDI may batch eligible calls
/// in its user-mode client before entering the kernel.
#[derive(Clone, Copy, Debug, PartialEq, Eq, Structural)]
pub enum GdiCall {
    BeginPaint,
    EndPaint,
    BitBlt,
    MaskBlt,
    CreateBitmap,
    CreateCompatibleBitmap,
    CreateCompatibleDc,
    CreateFont,
    CreateSolidBrush,
    DeleteDc,
    DeleteObject,
    FillRect,
    GetDeviceCaps,
    GetTextExtent,
    GetTextMetrics,
    IntersectClipRect,
    RestoreDc,
    SaveDc,
    SelectObject,
    SetBkMode,
    SetTextColor,
    TextOut,
}

/// How many kinds of paint API calls are counted.
pub const GDI_CALL_COUNT: usize = 22;

/// Every paint API call kind, in counter order.
pub open spec fn all_calls() -> Seq<GdiCall> {
    seq![
        GdiCall::BeginPaint, GdiCall::EndPaint, GdiCall::BitBlt, GdiCall::MaskBlt,
        GdiCall::CreateBitmap, GdiCall::CreateCompatibleBitmap, GdiCall::CreateCompatibleDc,
        GdiCall::CreateFont, GdiCall::CreateSolidBrush, GdiCall::DeleteDc, GdiCall::DeleteObject,
        GdiCall::FillRect, GdiCall::GetDeviceCaps, GdiCall::GetTextExtent, GdiCall::GetTextMetrics,
        GdiCall::IntersectClipRect, GdiCall::RestoreDc, GdiCall::SaveDc, GdiCall::SelectObject,
        GdiCall::SetBkMode, GdiCall::SetTextColor, GdiCall::TextOut,
    ]
}

impl GdiCall {
    /// The counter slot of a call kind: its position in `all_calls()`.
    pub open spec fn slot(self) -> int {
        match self {
            GdiCall::BeginPaint => 0,
            GdiCall::EndPaint => 1,
            GdiCall::BitBlt => 2,
            GdiCall::MaskBlt => 3,
            GdiCall::CreateBitmap => 4,
            GdiCall::CreateCompatibleBitmap => 5,
            GdiCall::CreateCompatibleDc => 6,
            GdiCall::CreateFont => 7,
            GdiCall::CreateSolidBrush => 8,
            GdiCall::DeleteDc => 9,
            GdiCall::DeleteObject => 10,
            GdiCall::FillRect => 11,
            GdiCall::GetDeviceCaps => 12,
            GdiCall::GetTextExtent => 13,
            GdiCall::GetTextMetrics => 14,
            GdiCall::IntersectClipRect => 15,
            GdiCall::RestoreDc => 16,
            GdiCall::SaveDc => 17,
            GdiCall::SelectObject => 18,
            GdiCall::SetBkMode => 19,
            GdiCall::SetTextColor => 20,
            GdiCall::TextOut => 21,
        }
    }

    /// The counter slot of a call kind.
    pub fn index(self) -> (r: usize)
        ensures
            r == self.slot(),
            r < GDI_CALL_COUNT,
            all_calls()[r as int] == self,
    {
        match self {
            GdiCall::BeginPaint => 0,
            GdiCall::EndPaint => 1,
            GdiCall::BitBlt => 2,
            GdiCall::MaskBlt => 3,
            GdiCall::CreateBitmap => 4,
            GdiCall::CreateCompatibleBitmap => 5,
            GdiCall::CreateCompatibleDc => 6,
            GdiCall::CreateFont => 7,
            GdiCall::CreateSolidBrush => 8,
            GdiCall::DeleteDc => 9,
            GdiCall::DeleteObject => 10,
            GdiCall::FillRect => 11,
            GdiCall::GetDeviceCaps => 12,
            GdiCall::GetTextExtent => 13,
            GdiCall::GetTextMetrics => 14,
            GdiCall::IntersectClipRect => 15,
            GdiCall::RestoreDc => 16,
            GdiCall::SaveDc => 17,
            GdiCall::SelectObject => 18,
            GdiCall::SetBkMode => 19,
            GdiCall::SetTextColor => 20,
            GdiCall::TextOut => 21,
        }
    }

    /// The Win32 name of the call.
    pub open spec fn api_name(self) -> Seq<char> {
        match self {
            GdiCall::BeginPaint => "BeginPaint"@,
            GdiCall::EndPaint => "EndPaint"@,
            GdiCall::BitBlt => "BitBlt"@,
            GdiCall::MaskBlt => "MaskBlt"@,
            GdiCall::CreateBitmap => "CreateBitmap"@,
            GdiCall::CreateCompatibleBitmap => "CreateCompatibleBitmap"@,
            GdiCall::CreateCompatibleDc => "CreateCompatibleDC"@,
            GdiCall::CreateFont => "CreateFontW"@,
            GdiCall::CreateSolidBrush => "CreateSolidBrush"@,
            GdiCall::DeleteDc => "DeleteDC"@,
            GdiCall::DeleteObject => "DeleteObject"@,
            GdiCall::FillRect => "FillRect"@,
            GdiCall::GetDeviceCaps => "GetDeviceCaps"@,
            GdiCall::GetTextExtent => "GetTextExtentPoint32W"@,
            GdiCall::GetTextMetrics => "GetTextMetricsW"@,
            GdiCall::IntersectClipRect => "IntersectClipRect"@,
            GdiCall::RestoreDc => "RestoreDC"@,
            GdiCall::SaveDc => "SaveDC"@,
            GdiCall::SelectObject => "SelectObject"@,
            GdiCall::SetBkMode => "SetBkMode"@,
            GdiCall::SetTextColor => "SetTextColor"@,
            GdiCall::TextOut => "TextOutW"@,
        }
    }

    /// The Win32 name of the call.
    pub fn name(self) -> (r: &'static str)
        ensures
            r@ == self.api_name(),
    {
        match self {
            GdiCall::BeginPaint => "BeginPaint",
            GdiCall::EndPaint => "EndPaint",
            GdiCall::BitBlt => "BitBlt",
            GdiCall::MaskBlt => "MaskBlt",
            GdiCall::CreateBitmap => "CreateBitmap",
            GdiCall::CreateCompatibleBitmap => "CreateCompatibleBitmap",
            GdiCall::CreateCompatibleDc => "CreateCompatibleDC",
            GdiCall::CreateFont => "CreateFontW",
            GdiCall::CreateSolidBrush => "CreateSolidBrush",
            GdiCall::DeleteDc => "DeleteDC",
            GdiCall::DeleteObject => "DeleteObject",
            GdiCall::FillRect => "FillRect",
            GdiCall::GetDeviceCaps => "GetDeviceCaps",
            GdiCall::GetTextExtent => "GetTextExtentPoint32W",
            GdiCall::GetTextMetrics => "GetTextMetricsW",
            GdiCall::IntersectClipRect => "IntersectClipRect",
            GdiCall::RestoreDc => "RestoreDC",
            GdiCall::SaveDc => "SaveDC",
            GdiCall::SelectObject => "SelectObject",
            GdiCall::SetBkMode => "SetBkMode",
            GdiCall::SetTextColor => "SetTextColor",
            GdiCall::TextOut => "TextOutW",
        }
    }

    /// Whether GDI documents the call as one it may batch.
    pub open spec fn batch_candidate(self) -> bool {
        self is BitBlt || self is MaskBlt || self is TextOut
    }

    /// Whether GDI documents the call as one it may batch.
    pub fn is_documented_batch_candidate(self) -> (r: bool)
        ensures
            r == self.batch_candidate(),
    {
        matches!(self, GdiCall::BitBlt | GdiCall::MaskBlt | GdiCall::TextOut)
    }

    /// Every call kind, in counter order.
    pub fn all() -> (r: Vec<GdiCall>)
        ensures
            r@ == all_calls(),
    {
        let r = vec![
            GdiCall::BeginPaint, GdiCall::EndPaint, GdiCall::BitBlt, GdiCall::MaskBlt,
            GdiCall::CreateBitmap, GdiCall::CreateCompatibleBitmap, GdiCall::CreateCompatibleDc,
            GdiCall::CreateFont, GdiCall::CreateSolidBrush, GdiCall::DeleteDc, GdiCall::DeleteObject,
            GdiCall::FillRect, GdiCall::GetDeviceCaps, GdiCall::GetTextExtent, GdiCall::GetTextMetrics,
            GdiCall::IntersectClipRect, GdiCall::RestoreDc, GdiCall::SaveDc, GdiCall::SelectObject,
            GdiCall::SetBkMode, GdiCall::SetTextColor, GdiCall::TextOut,
        ];
        assert(r@ =~= all_calls());
        r
    }
}

// ---------------------------------------------------------------- counters

/// All counters: the process-wide ones (regex, text width, snapshot
/// clones, layout cache) and those of the popup window.
pub struct PerfCounters {
    pub regex_compilations: u64,
    pub text_width_calls: u64,
    pub snapshot_cloned_bytes: u64,
    pub snapshot_cloned_strings: u64,
    pub layout_budget_cache_reads: u64,
    pub layout_budget_cache_parses: u64,
    pub paint_active: bool,
    pub current_paint_calls: u64,
    pub paints: u64,
    pub animated_paints: u64,
    pub repaint_requests: u64,
    pub mouse_moves: u64,
    pub mouse_wheels: u64,
    pub key_downs: u64,
    pub animation_ticks: u64,
    pub selection_changes: u64,
    pub restaurant_switches: u64,
    pub mouse_move_ns: u64,
    pub max_mouse_move_ns: u64,
    pub paint_ns: u64,
    pub max_paint_ns: u64,
    pub client_pixels: u64,
    pub dirty_pixels: u64,
    pub full_client_paints: u64,
    pub max_calls_per_paint: u64,
    pub row_boundary_hits: u64,
    pub row_boundary_misses: u64,
    pub text_width_hits: u64,
    pub text_width_misses: u64,
    pub gdi_calls: Vec<u64>,
}

impl PerfCounters {
    /// One counter per paint API call kind.
    pub open spec fn wf(&self) -> bool {
        self.gdi_calls@.len() == GDI_CALL_COUNT
    }

    /// All counters zero.
    pub open spec fn is_zero(&self) -> bool {
        &&& self.wf()
        &&& forall|i: int| 0 <= i < GDI_CALL_COUNT ==> self.gdi_calls@[i] == 0
        &&& self.regex_compilations == 0 && self.text_width_calls == 0
        &&& self.snapshot_cloned_bytes == 0 && self.snapshot_cloned_strings == 0
        &&& self.layout_budget_cache_reads == 0 && self.layout_budget_cache_parses == 0
        &&& !self.paint_active && self.current_paint_calls == 0 && self.paints == 0
        &&& self.animated_paints == 0 && self.repaint_requests == 0 && self.mouse_moves == 0
        &&& self.mouse_wheels == 0 && self.key_downs == 0 && self.animation_ticks == 0
        &&& self.selection_changes == 0 && self.restaurant_switches == 0
        &&& self.mouse_move_ns == 0 && self.max_mouse_move_ns == 0
        &&& self.paint_ns == 0 && self.max_paint_ns == 0
        &&& self.client_pixels == 0 && self.dirty_pixels == 0 && self.full_client_paints == 0
        &&& self.max_calls_per_paint == 0
        &&& self.row_boundary_hits == 0 && self.row_boundary_misses == 0
        &&& self.text_width_hits == 0 && self.text_width_misses == 0
    }
}

/// Counters with nothing counted yet.
pub fn reset() -> (c: PerfCounters)
    ensures
        c.is_zero(),
{
    let mut gdi_calls: Vec<u64> = Vec::new();
    let mut i: usize = 0;
    while i < GDI_CALL_COUNT
        invariant
            i <= GDI_CALL_COUNT,
            gdi_calls@.len() == i,
            forall|j: int| 0 <= j < i ==> gdi_calls@[j] == 0,
        decreases GDI_CALL_COUNT - i,
    {
        gdi_calls.push(0);
        i += 1;
    }
    PerfCounters {
        regex_compilations: 0,
        text_width_calls: 0,
        snapshot_cloned_bytes: 0,
        snapshot_cloned_strings: 0,
        layout_budget_cache_reads: 0,
        layout_budget_cache_parses: 0,
        paint_active: false,
        current_paint_calls: 0,
        paints: 0,
        animated_paints: 0,
        repaint_requests: 0,
        mouse_moves: 0,
        mouse_wheels: 0,
        key_downs: 0,
        animation_ticks: 0,
        selection_changes: 0,
        restaurant_switches: 0,
        mouse_move_ns: 0,
        max_mouse_move_ns: 0,
        paint_ns: 0,
        max_paint_ns: 0,
        client_pixels: 0,
        dirty_pixels: 0,
        full_client_paints: 0,
        max_calls_per_paint: 0,
        row_boundary_hits: 0,
        row_boundary_misses: 0,
        text_width_hits: 0,
        text_width_misses: 0,
        gdi_calls,
    }
}

/// `a + b` wrapped to 64 bits (as an atomic add does).
pub open spec fn wrap_add(a: u64, b: u64) -> u64 {
    ((a as nat + b as nat) % 0x1_0000_0000_0000_0000nat) as u64
}

/// `a + b`, at most `u64::MAX`.
pub open spec fn sat_add_u64(a: u64, b: u64) -> u64 {
    if a as nat + b as nat > u64::MAX as nat { u64::MAX } else { (a + b) as u64 }
}

/// The larger of two counts.
pub open spec fn max_u64(a: u64, b: u64) -> u64 {
    if a >= b { a } else { b }
}

/// What counting one paint API call does: within a paint, one more call of
/// its kind and one more call in this paint; outside a paint, nothing.
pub open spec fn counted_call(before: PerfCounters, after: PerfCounters, call: GdiCall) -> bool {
    &&& after.wf()
    &&& !before.paint_active ==> after == before
    &&& before.paint_active ==> after.gdi_calls@ == before.gdi_calls@.update(call.slot(), (before.gdi_calls@[call.slot()] + 1) as u64)
        && after == (PerfCounters {
            current_paint_calls: (before.current_paint_calls + 1) as u64,
            gdi_calls: after.gdi_calls,
            ..before
        })
}

/// What starting a paint does: one more paint, counting API calls from
/// zero.
pub open spec fn began_paint(before: PerfCounters, after: PerfCounters) -> bool {
    after == (PerfCounters { paints: (before.paints + 1) as u64, paint_active: true, current_paint_calls: 0, ..before })
}

/// What ending a paint that took `elapsed_ns` does: counting stops, the time
/// is added, and the largest time and call count per paint are kept.
pub open spec fn finished_paint(before: PerfCounters, after: PerfCounters, elapsed_ns: u64) -> bool {
    after == (PerfCounters {
        paint_active: false,
        paint_ns: sat_add_u64(before.paint_ns, elapsed_ns),
        max_paint_ns: max_u64(before.max_paint_ns, elapsed_ns),
        max_calls_per_paint: max_u64(before.max_calls_per_paint, before.current_paint_calls),
        ..before
    })
}

/// Counts one regex compilation.
pub fn count_regex_compilation(c: &mut PerfCounters)
    ensures
        *final(c) == (PerfCounters { regex_compilations: wrap_add(old(c).regex_compilations, 1), ..*old(c) }),
{
    c.regex_compilations = c.regex_compilations.wrapping_add(1);
}

/// Counts one text width measurement.
pub fn count_text_width_call(c: &mut PerfCounters)
    ensures
        *final(c) == (PerfCounters { text_width_calls: wrap_add(old(c).text_width_calls, 1), ..*old(c) }),
{
    c.text_width_calls = c.text_width_calls.wrapping_add(1);
}

/// Counts one state snapshot clone of `bytes` bytes in `strings` strings.
pub fn count_snapshot_clone(c: &mut PerfCounters, bytes: usize, strings: usize)
    ensures
        *final(c) == (PerfCounters {
            snapshot_cloned_bytes: wrap_add(old(c).snapshot_cloned_bytes, bytes as u64),
            snapshot_cloned_strings: wrap_add(old(c).snapshot_cloned_strings, strings as u64),
            ..*old(c)
        }),
{
    c.snapshot_cloned_bytes = c.snapshot_cloned_bytes.wrapping_add(bytes as u64);
    c.snapshot_cloned_strings = c.snapshot_cloned_strings.wrapping_add(strings as u64);
}

/// Counts one read of the layout budget cache.
pub fn count_layout_budget_cache_read(c: &mut PerfCounters)
    ensures
        *final(c) == (PerfCounters { layout_budget_cache_reads: wrap_add(old(c).layout_budget_cache_reads, 1), ..*old(c) }),
{
    c.layout_budget_cache_reads = c.layout_budget_cache_reads.wrapping_add(1);
}

/// Counts one parse of the layout budget cache.
pub fn count_layout_budget_cache_parse(c: &mut PerfCounters)
    ensures
        *final(c) == (PerfCounters { layout_budget_cache_parses: wrap_add(old(c).layout_budget_cache_parses, 1), ..*old(c) }),
{
    c.layout_budget_cache_parses = c.layout_budget_cache_parses.wrapping_add(1);
}

/// Counts one executed paint API call, but only while a paint is active.
pub fn count_gdi_call(c: &mut PerfCounters, call: GdiCall)
    requires
        old(c).wf(),
        old(c).paint_active ==> old(c).gdi_calls@[call.slot()] < u64::MAX && old(c).current_paint_calls < u64::MAX,
    ensures
        counted_call(*old(c), *final(c), call),
{
    if c.paint_active {
        let i = call.index();
        let v = c.gdi_calls[i] + 1;
        c.gdi_calls.set(i, v);
        c.current_paint_calls = c.current_paint_calls + 1;
    }
}

/// Times one invocation of the popup's complete paint handler; `finish`
/// records it.
pub struct PopupPaintGuard {}

/// Starts a popup paint: counts it and starts counting its API calls.
pub fn begin_popup_paint(c: &mut PerfCounters) -> (g: PopupPaintGuard)
    requires
        old(c).paints < u64::MAX,
    ensures
        began_paint(*old(c), *final(c)),
{
    c.paints = c.paints + 1;
    c.paint_active = true;
    c.current_paint_calls = 0;
    PopupPaintGuard {}
}

impl PopupPaintGuard {
    /// Ends the paint, which took `elapsed_ns`: stops counting API calls,
    /// adds the time, and keeps the largest time and call count per paint.
    pub fn finish(self, c: &mut PerfCounters, elapsed_ns: u64)
        ensures
            finished_paint(*old(c), *final(c), elapsed_ns),
    {
        c.paint_active = false;
        c.paint_ns = c.paint_ns.saturating_add(elapsed_ns);
        c.max_paint_ns = if c.max_paint_ns >= elapsed_ns { c.max_paint_ns } else { elapsed_ns };
        c.max_calls_per_paint = if c.max_calls_per_paint >= c.current_paint_calls {
            c.max_calls_per_paint
        } else {
            c.current_paint_calls
        };
    }
}

/// Times the complete popup mouse-move handler; `finish` records it.
pub struct MouseMoveGuard {}

/// Starts a mouse-move handler: counts it.
pub fn begin_mouse_move(c: &mut PerfCounters) -> (g: MouseMoveGuard)
    requires
        old(c).mouse_moves < u64::MAX,
    ensures
        *final(c) == (PerfCounters { mouse_moves: (old(c).mouse_moves + 1) as u64, ..*old(c) }),
{
    c.mouse_moves = c.mouse_moves + 1;
    MouseMoveGuard {}
}

impl MouseMoveGuard {
    /// Ends the handler, which took `elapsed_ns`.
    pub fn finish(self, c: &mut PerfCounters, elapsed_ns: u64)
        ensures
            *final(c) == (PerfCounters {
                mouse_move_ns: sat_add_u64(old(c).mouse_move_ns, elapsed_ns),
                max_mouse_move_ns: max_u64(old(c).max_mouse_move_ns, elapsed_ns),
                ..*old(c)
            }),
    {
        c.mouse_move_ns = c.mouse_move_ns.saturating_add(elapsed_ns);
        c.max_mouse_move_ns = if c.max_mouse_move_ns >= elapsed_ns { c.max_mouse_move_ns } else { elapsed_ns };
    }
}

/// Counts one animated paint.
pub fn count_animated_paint(c: &mut PerfCounters)
    requires
        old(c).animated_paints < u64::MAX,
    ensures
        *final(c) == (PerfCounters { animated_paints: (old(c).animated_paints + 1) as u64, ..*old(c) }),
{
    c.animated_paints = c.animated_paints + 1;
}

/// Counts one repaint request.
pub fn count_repaint_request(c: &mut PerfCounters)
    requires
        old(c).repaint_requests < u64::MAX,
    ensures
        *final(c) == (PerfCounters { repaint_requests: (old(c).repaint_requests + 1) as u64, ..*old(c) }),
{
    c.repaint_requests = c.repaint_requests + 1;
}

/// Counts one mouse wheel event.
pub fn count_mouse_wheel(c: &mut PerfCounters)
    requires
        old(c).mouse_wheels < u64::MAX,
    ensures
        *final(c) == (PerfCounters { mouse_wheels: (old(c).mouse_wheels + 1) as u64, ..*old(c) }),
{
    c.mouse_wheels = c.mouse_wheels + 1;
}

/// Counts one key press.
pub fn count_key_down(c: &mut PerfCounters)
    requires
        old(c).key_downs < u64::MAX,
    ensures
        *final(c) == (PerfCounters { key_downs: (old(c).key_downs + 1) as u64, ..*old(c) }),
{
    c.key_downs = c.key_downs + 1;
}

/// Counts one animation tick.
pub fn count_animation_tick(c: &mut PerfCounters)
    requires
        old(c).animation_ticks < u64::MAX,
    ensures
        *final(c) == (PerfCounters { animation_ticks: (old(c).animation_ticks + 1) as u64, ..*old(c) }),
{
    c.animation_ticks = c.animation_ticks + 1;
}

/// Counts one change of the text selection.
pub fn count_selection_change(c: &mut PerfCounters)
    requires
        old(c).selection_changes < u64::MAX,
    ensures
        *final(c) == (PerfCounters { selection_changes: (old(c).selection_changes + 1) as u64, ..*old(c) }),
{
    c.selection_changes = c.selection_changes + 1;
}

/// Counts one switch of the shown restaurant.
pub fn count_restaurant_switch(c: &mut PerfCounters)
    requires
        old(c).restaurant_switches < u64::MAX,
    ensures
        *final(c) == (PerfCounters { restaurant_switches: (old(c).restaurant_switches + 1) as u64, ..*old(c) }),
{
    c.restaurant_switches = c.restaurant_switches + 1;
}

/// Rows whose character geometry was reused from a previous paint.
pub fn count_row_boundary_hit(c: &mut PerfCounters)
    requires
        old(c).row_boundary_hits < u64::MAX,
    ensures
        *final(c) == (PerfCounters { row_boundary_hits: (old(c).row_boundary_hits + 1) as u64, ..*old(c) }),
{
    c.row_boundary_hits = c.row_boundary_hits + 1;
}

/// Rows whose character geometry had to be measured.
pub fn count_row_boundary_miss(c: &mut PerfCounters)
    requires
        old(c).row_boundary_misses < u64::MAX,
    ensures
        *final(c) == (PerfCounters { row_boundary_misses: (old(c).row_boundary_misses + 1) as u64, ..*old(c) }),
{
    c.row_boundary_misses = c.row_boundary_misses + 1;
}

/// Strings whose width was reused from an earlier measurement.
pub fn count_text_width_hit(c: &mut PerfCounters)
    requires
        old(c).text_width_hits < u64::MAX,
    ensures
        *final(c) == (PerfCounters { text_width_hits: (old(c).text_width_hits + 1) as u64, ..*old(c) }),
{
    c.text_width_hits = c.text_width_hits + 1;
}

/// Strings that had to be measured through GDI.
pub fn count_text_width_miss(c: &mut PerfCounters)
    requires
        old(c).text_width_misses < u64::MAX,
    ensures
        *final(c) == (PerfCounters { text_width_misses: (old(c).text_width_misses + 1) as u64, ..*old(c) }),
{
    c.text_width_misses = c.text_width_misses + 1;
}

/// `a * b`, at most `u64::MAX`.
pub open spec fn sat_mul_u64(a: u64, b: u64) -> u64 {
    if a as nat * b as nat > u64::MAX as nat { u64::MAX } else { (a * b) as u64 }
}

/// A length that is not negative: `v` when it is positive, else zero.
pub open spec fn non_negative(v: int) -> u64 {
    if v > 0 { v as u64 } else { 0 }
}

fn saturating_mul_u64(a: u64, b: u64) -> (r: u64)
    ensures
        r == sat_mul_u64(a, b),
{
    assert((a as u128) * (b as u128) <= u128::MAX) by (nonlinear_arith)
        requires a <= u64::MAX, b <= u64::MAX;
    let wide: u128 = (a as u128) * (b as u128);
    if wide > u64::MAX as u128 { u64::MAX } else { wide as u64 }
}

/// Whether the dirty rectangle covers the whole client area.
pub open spec fn covers_client(client_width: i32, client_height: i32, dirty_left: i32, dirty_top: i32, dirty_right: i32, dirty_bottom: i32) -> bool {
    dirty_left <= 0 && dirty_top <= 0
        && dirty_right as u64 >= non_negative(client_width as int)
        && dirty_bottom as u64 >= non_negative(client_height as int)
}

/// Records the client size and the dirty rectangle of one paint: adds
/// both areas (saturating), and counts the paint as a full-client paint
/// when the dirty rectangle covers the client area.
pub fn record_paint_region(
    c: &mut PerfCounters,
    client_width: i32,
    client_height: i32,
    dirty_left: i32,
    dirty_top: i32,
    dirty_right: i32,
    dirty_bottom: i32,
)
    requires
        i32::MIN <= dirty_right - dirty_left <= i32::MAX,
        i32::MIN <= dirty_bottom - dirty_top <= i32::MAX,
        covers_client(client_width, client_height, dirty_left, dirty_top, dirty_right, dirty_bottom)
            ==> old(c).full_client_paints < u64::MAX,
    ensures
        *final(c) == (PerfCounters {
            client_pixels: sat_add_u64(old(c).client_pixels,
                sat_mul_u64(non_negative(client_width as int), non_negative(client_height as int))),
            dirty_pixels: sat_add_u64(old(c).dirty_pixels,
                sat_mul_u64(non_negative(dirty_right - dirty_left), non_negative(dirty_bottom - dirty_top))),
            full_client_paints: if covers_client(client_width, client_height, dirty_left, dirty_top, dirty_right, dirty_bottom) {
                (old(c).full_client_paints + 1) as u64
            } else {
                old(c).full_client_paints
            },
            ..*old(c)
        }),
{
    let client_w: u64 = if client_width > 0 { client_width as u64 } else { 0 };
    let client_h: u64 = if client_height > 0 { client_height as u64 } else { 0 };
    let dw: i32 = dirty_right - dirty_left;
    let dh: i32 = dirty_bottom - dirty_top;
    let dirty_w: u64 = if dw > 0 { dw as u64 } else { 0 };
    let dirty_h: u64 = if dh > 0 { dh as u64 } else { 0 };
    c.client_pixels = c.client_pixels.saturating_add(saturating_mul_u64(client_w, client_h));
    c.dirty_pixels = c.dirty_pixels.saturating_add(saturating_mul_u64(dirty_w, dirty_h));
    if dirty_left <= 0 && dirty_top <= 0 && dirty_right as u64 >= client_w && dirty_bottom as u64 >= client_h {
        c.full_client_paints = c.full_client_paints + 1;
    }
}

// ---------------------------------------------------------------- snapshots

/// The counters at one moment, with the time since they were reset.
pub struct Snapshot {
    pub regex_compilations: u64,
    pub text_width_calls: u64,
    pub snapshot_cloned_bytes: u64,
    pub snapshot_cloned_strings: u64,
    pub layout_budget_cache_reads: u64,
    pub layout_budget_cache_parses: u64,
    pub elapsed_ms: u64,
    pub paints: u64,
    pub animated_paints: u64,
    pub repaint_requests: u64,
    pub mouse_moves: u64,
    pub mouse_wheels: u64,
    pub key_downs: u64,
    pub animation_ticks: u64,
    pub selection_changes: u64,
    pub restaurant_switches: u64,
    pub mouse_move_ns: u64,
    pub max_mouse_move_ns: u64,
    pub paint_ns: u64,
    pub max_paint_ns: u64,
    pub client_pixels: u64,
    pub dirty_pixels: u64,
    pub full_client_paints: u64,
    pub max_calls_per_paint: u64,
    pub row_boundary_hits: u64,
    pub row_boundary_misses: u64,
    pub text_width_hits: u64,
    pub text_width_misses: u64,
    pub gdi_calls: Vec<u64>,
}

/// The snapshot of the counters `c`, `elapsed_ms` after they were reset.
pub open spec fn snapshot_of(c: PerfCounters, elapsed_ms: u64, s: Snapshot) -> bool {
    &&& s.regex_compilations == c.regex_compilations
    &&& s.text_width_calls == c.text_width_calls
    &&& s.snapshot_cloned_bytes == c.snapshot_cloned_bytes
    &&& s.snapshot_cloned_strings == c.snapshot_cloned_strings
    &&& s.layout_budget_cache_reads == c.layout_budget_cache_reads
    &&& s.layout_budget_cache_parses == c.layout_budget_cache_parses
    &&& s.elapsed_ms == elapsed_ms
    &&& s.paints == c.paints
    &&& s.animated_paints == c.animated_paints
    &&& s.repaint_requests == c.repaint_requests
    &&& s.mouse_moves == c.mouse_moves
    &&& s.mouse_wheels == c.mouse_wheels
    &&& s.key_downs == c.key_downs
    &&& s.animation_ticks == c.animation_ticks
    &&& s.selection_changes == c.selection_changes
    &&& s.restaurant_switches == c.restaurant_switches
    &&& s.mouse_move_ns == c.mouse_move_ns
    &&& s.max_mouse_move_ns == c.max_mouse_move_ns
    &&& s.paint_ns == c.paint_ns
    &&& s.max_paint_ns == c.max_paint_ns
    &&& s.client_pixels == c.client_pixels
    &&& s.dirty_pixels == c.dirty_pixels
    &&& s.full_client_paints == c.full_client_paints
    &&& s.max_calls_per_paint == c.max_calls_per_paint
    &&& s.row_boundary_hits == c.row_boundary_hits
    &&& s.row_boundary_misses == c.row_boundary_misses
    &&& s.text_width_hits == c.text_width_hits
    &&& s.text_width_misses == c.text_width_misses
    &&& s.gdi_calls@ == c.gdi_calls@
}

/// The counters now; `elapsed_ms` is the time since they were reset.
pub fn snapshot(c: &PerfCounters, elapsed_ms: u64) -> (s: Snapshot)
    ensures
        snapshot_of(*c, elapsed_ms, s),
{
    let mut gdi_calls: Vec<u64> = Vec::new();
    let mut i: usize = 0;
    while i < c.gdi_calls.len()
        invariant
            i <= c.gdi_calls.len(),
            gdi_calls@ == c.gdi_calls@.subrange(0, i as int),
        decreases c.gdi_calls.len() - i,
    {
        gdi_calls.push(c.gdi_calls[i]);
        i += 1;
        assert(gdi_calls@ =~= c.gdi_calls@.subrange(0, i as int));
    }
    assert(gdi_calls@ =~= c.gdi_calls@);
    Snapshot {
        regex_compilations: c.regex_compilations,
        text_width_calls: c.text_width_calls,
        snapshot_cloned_bytes: c.snapshot_cloned_bytes,
        snapshot_cloned_strings: c.snapshot_cloned_strings,
        layout_budget_cache_reads: c.layout_budget_cache_reads,
        layout_budget_cache_parses: c.layout_budget_cache_parses,
        elapsed_ms,
        paints: c.paints,
        animated_paints: c.animated_paints,
        repaint_requests: c.repaint_requests,
        mouse_moves: c.mouse_moves,
        mouse_wheels: c.mouse_wheels,
        key_downs: c.key_downs,
        animation_ticks: c.animation_ticks,
        selection_changes: c.selection_changes,
        restaurant_switches: c.restaurant_switches,
        mouse_move_ns: c.mouse_move_ns,
        max_mouse_move_ns: c.max_mouse_move_ns,
        paint_ns: c.paint_ns,
        max_paint_ns: c.max_paint_ns,
        client_pixels: c.client_pixels,
        dirty_pixels: c.dirty_pixels,
        full_client_paints: c.full_client_paints,
        max_calls_per_paint: c.max_calls_per_paint,
        row_boundary_hits: c.row_boundary_hits,
        row_boundary_misses: c.row_boundary_misses,
        text_width_hits: c.text_width_hits,
        text_width_misses: c.text_width_misses,
        gdi_calls,
    }
}

/// The sum of some counts.
pub open spec fn count_sum(s: Seq<u64>) -> int
    decreases s.len(),
{
    if s.len() == 0 { 0 } else { count_sum(s.drop_last()) + s.last() }
}

/// The sum of the counts of the call kinds GDI may batch.
pub open spec fn batch_sum(s: Seq<u64>) -> int
    decreases s.len(),
{
    if s.len() == 0 {
        0
    } else {
        batch_sum(s.drop_last()) + if all_calls()[s.len() - 1].batch_candidate() { s.last() as int } else { 0 }
    }
}

proof fn lemma_batch_sum_le(s: Seq<u64>)
    ensures
        0 <= batch_sum(s) <= count_sum(s),
    decreases s.len(),
{
    if s.len() > 0 {
        lemma_batch_sum_le(s.drop_last());
    }
}

proof fn lemma_sum_prefix(s: Seq<u64>, i: int)
    requires
        0 <= i <= s.len(),
    ensures
        count_sum(s.subrange(0, i)) <= count_sum(s),
    decreases s.len() - i,
{
    if i < s.len() {
        lemma_sum_prefix(s, i + 1);
        assert(s.subrange(0, i + 1).drop_last() =~= s.subrange(0, i));
    } else {
        assert(s.subrange(0, i) =~= s);
    }
}

/// All paint API calls counted in a snapshot.
pub fn total_gdi_calls(s: &Snapshot) -> (r: u64)
    requires
        count_sum(s.gdi_calls@) <= u64::MAX,
    ensures
        r == count_sum(s.gdi_calls@),
{
    let mut total: u64 = 0;
    let mut i: usize = 0;
    while i < s.gdi_calls.len()
        invariant
            i <= s.gdi_calls.len(),
            count_sum(s.gdi_calls@) <= u64::MAX,
            total == count_sum(s.gdi_calls@.subrange(0, i as int)),
        decreases s.gdi_calls.len() - i,
    {
        proof {
            assert(s.gdi_calls@.subrange(0, i + 1).drop_last() =~= s.gdi_calls@.subrange(0, i as int));
            lemma_sum_prefix(s.gdi_calls@, i + 1);
        }
        total = total + s.gdi_calls[i];
        i += 1;
    }
    assert(s.gdi_calls@.subrange(0, s.gdi_calls.len() as int) =~= s.gdi_calls@);
    total
}

/// The paint API calls of a snapshot that GDI documents as batchable.
pub fn batch_candidate_calls(s: &Snapshot) -> (r: u64)
    requires
        s.gdi_calls@.len() == GDI_CALL_COUNT,
        count_sum(s.gdi_calls@) <= u64::MAX,
    ensures
        r == batch_sum(s.gdi_calls@),
        r <= count_sum(s.gdi_calls@),
{
    let calls = GdiCall::all();
    let mut total: u64 = 0;
    let mut i: usize = 0;
    while i < s.gdi_calls.len()
        invariant
            i <= s.gdi_calls.len(),
            s.gdi_calls@.len() == GDI_CALL_COUNT,
            calls@ == all_calls(),
            count_sum(s.gdi_calls@) <= u64::MAX,
            total == batch_sum(s.gdi_calls@.subrange(0, i as int)),
        decreases s.gdi_calls.len() - i,
    {
        proof {
            let pre = s.gdi_calls@.subrange(0, i + 1);
            assert(pre.drop_last() =~= s.gdi_calls@.subrange(0, i as int));
            lemma_batch_sum_le(pre);
            lemma_sum_prefix(s.gdi_calls@, i + 1);
        }
        if calls[i].is_documented_batch_candidate() {
            total = total + s.gdi_calls[i];
        }
        i += 1;
    }
    assert(s.gdi_calls@.subrange(0, s.gdi_calls.len() as int) =~= s.gdi_calls@);
    proof {
        lemma_batch_sum_le(s.gdi_calls@);
    }
    total
}

/// The GDI batch limit, where the platform has one to ask for; none here.
pub fn current_gdi_batch_limit() -> (r: Option<u32>)
    ensures
        r is None,
{
    None
}

} // verus!
