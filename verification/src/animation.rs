//! The popup's open, close and switch animations: what each shows, and
//! what a timer tick leads to. The caller runs the timer, draws the frames
//! and hides the window when told to.

use vstd::prelude::*;
use crate::app_state::{sat_sub, saturating_sub_i64, AppState};
use crate::popup_lines::{build_lines, header_title, Line};

verus! {

/// How long opening takes.
pub const POPUP_OPEN_ANIM_MS: i64 = 120;
/// How long closing takes.
pub const POPUP_CLOSE_ANIM_MS: i64 = 90;
/// How long switching restaurants takes.
pub const POPUP_SWITCH_ANIM_MS: i64 = 120;

/// What an animation shows.
pub enum PopupAnimationKind {
    Open { lines: Vec<Line>, title: String },
    Close { lines: Vec<Line>, title: String },
    Switch { old_lines: Vec<Line>, new_lines: Vec<Line>, old_title: String, new_title: String, direction: i32 },
}

/// A running animation: its window, when it started and how long it takes.
pub struct PopupAnimation {
    pub window: u64,
    pub start_epoch_ms: i64,
    pub duration_ms: i64,
    pub kind: PopupAnimationKind,
}

/// What a timer tick leads to.
#[derive(Clone, Copy, Debug, PartialEq, Eq, Structural)]
pub enum AnimationTick {
    /// No animation runs in this window: stop the timer.
    StopTimer,
    /// The animation is over: stop the timer, and hide the window after a
    /// closing animation (else redraw).
    Finished { hide: bool },
    /// The animation goes on: redraw.
    Redraw,
}

/// An animation of `kind` in `window` starting at `now`, taking at least
/// one millisecond.
pub fn start_animation(window: u64, now: i64, duration_ms: i64, kind: PopupAnimationKind) -> (r: PopupAnimation)
    ensures
        r.window == window,
        r.start_epoch_ms == now,
        r.duration_ms == (if duration_ms >= 1 { duration_ms } else { 1 }),
        r.kind == kind,
{
    PopupAnimation { window, start_epoch_ms: now, duration_ms: if duration_ms >= 1 { duration_ms } else { 1 }, kind }
}

/// The opening animation of the popup for a state.
pub fn begin_open_animation(window: u64, now: i64, state: &AppState, expensive: &Vec<bool>) -> (r: PopupAnimation)
    ensures
        r.window == window,
        r.start_epoch_ms == now,
        r.duration_ms == POPUP_OPEN_ANIM_MS,
        r.kind is Open,
{
    let lines = build_lines(state, now, expensive);
    let title = header_title(state);
    start_animation(window, now, POPUP_OPEN_ANIM_MS, PopupAnimationKind::Open { lines, title })
}

/// The closing animation of the popup for a state.
pub fn begin_close_animation(window: u64, now: i64, state: &AppState, expensive: &Vec<bool>) -> (r: PopupAnimation)
    ensures
        r.window == window,
        r.start_epoch_ms == now,
        r.duration_ms == POPUP_CLOSE_ANIM_MS,
        r.kind is Close,
{
    let lines = build_lines(state, now, expensive);
    let title = header_title(state);
    start_animation(window, now, POPUP_CLOSE_ANIM_MS, PopupAnimationKind::Close { lines, title })
}

/// The animation from one restaurant's popup to another's, sliding in
/// `direction`.
pub fn begin_switch_animation(
    window: u64,
    now: i64,
    old_state: &AppState,
    new_state: &AppState,
    old_expensive: &Vec<bool>,
    new_expensive: &Vec<bool>,
    direction: i32,
) -> (r: PopupAnimation)
    ensures
        r.window == window,
        r.start_epoch_ms == now,
        r.duration_ms == POPUP_SWITCH_ANIM_MS,
        r.kind is Switch,
{
    let old_lines = build_lines(old_state, now, old_expensive);
    let new_lines = build_lines(new_state, now, new_expensive);
    let old_title = header_title(old_state);
    let new_title = header_title(new_state);
    start_animation(
        window,
        now,
        POPUP_SWITCH_ANIM_MS,
        PopupAnimationKind::Switch { old_lines, new_lines, old_title, new_title, direction },
    )
}

/// How long an animation lasts (at least one millisecond).
pub open spec fn span_of(a: PopupAnimation) -> int {
    if a.duration_ms >= 1 { a.duration_ms as int } else { 1 }
}

/// Whether an animation is over at `now`.
pub open spec fn over_at(a: PopupAnimation, now: i64) -> bool {
    sat_sub(now as int, a.start_epoch_ms as int) >= span_of(a)
}

/// How far an animation is at `now`, in milliseconds from its start, within
/// its duration (the caller turns it into a fraction for drawing).
pub fn animation_elapsed(anim: &PopupAnimation, now: i64) -> (r: i64)
    ensures
        r as int == ({
            let e = sat_sub(now as int, anim.start_epoch_ms as int) as int;
            if e < 0 { 0 } else if e > span_of(*anim) { span_of(*anim) } else { e }
        }),
{
    let e = saturating_sub_i64(now, anim.start_epoch_ms);
    let span = if anim.duration_ms >= 1 { anim.duration_ms } else { 1 };
    if e < 0 {
        0
    } else if e > span {
        span
    } else {
        e
    }
}

/// What a timer tick at `now` in `window` leads to; a finished animation
/// is dropped.
pub fn tick_animation(anim: &mut Option<PopupAnimation>, window: u64, now: i64) -> (r: AnimationTick)
    ensures
        match *old(anim) {
            Some(a) => if a.window != window {
                r == AnimationTick::StopTimer && *final(anim) == *old(anim)
            } else if over_at(a, now) {
                r == (AnimationTick::Finished { hide: a.kind is Close }) && *final(anim) is None
            } else {
                r == AnimationTick::Redraw && *final(anim) == *old(anim)
            },
            None => r == AnimationTick::StopTimer && *final(anim) is None,
        },
{
    let outcome = match anim {
        Some(a) => {
            if a.window != window {
                AnimationTick::StopTimer
            } else {
                let elapsed = saturating_sub_i64(now, a.start_epoch_ms);
                let span = if a.duration_ms >= 1 { a.duration_ms } else { 1 };
                if elapsed >= span {
                    let hide = match a.kind {
                        PopupAnimationKind::Close { .. } => true,
                        _ => false,
                    };
                    AnimationTick::Finished { hide }
                } else {
                    AnimationTick::Redraw
                }
            }
        },
        None => AnimationTick::StopTimer,
    };
    if let AnimationTick::Finished { .. } = outcome {
        *anim = None;
    }
    outcome
}

/// Drops the animation of `window`, if that is the one running.
pub fn clear_animation_state(anim: &mut Option<PopupAnimation>, window: u64)
    ensures
        match *old(anim) {
            Some(a) => if a.window == window { *final(anim) is None } else { *final(anim) == *old(anim) },
            None => *final(anim) is None,
        },
{
    let mine = match anim {
        Some(a) => a.window == window,
        None => false,
    };
    if mine {
        *anim = None;
    }
}

} // verus!
