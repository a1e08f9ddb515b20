//! The scale at which the interface is drawn on a window of a given size.
use vstd::prelude::*;

verus! {

/// The smallest window, in pixels, that one step of interface scale needs.
pub const GUI_MIN_WIDTH: u32 = 320;

/// The smallest window height, in pixels, that one step of interface scale needs.
pub const GUI_MIN_HEIGHT: u32 = 240;

/// A window of `w` by `h` pixels is large enough for interface scale `s`.
pub open spec fn fits_scale(w: int, h: int, s: int) -> bool {
    w >= GUI_MIN_WIDTH * s && h >= GUI_MIN_HEIGHT * s
}

/// The largest interface scale that a window of `screen_w` by `screen_h`
/// pixels holds: the largest `s` with at least 320 by 240 pixels per step,
/// and 1 where the window is smaller than that.
pub fn max_gui_scale(screen_w: u32, screen_h: u32) -> (r: u32)
    ensures
        r >= 1,
        r == 1 || fits_scale(screen_w as int, screen_h as int, r as int),
        !fits_scale(screen_w as int, screen_h as int, r + 1),
{
    let mut scale: u32 = 1;
    while (screen_w as u64) >= 320u64 * (scale as u64 + 1)
        && (screen_h as u64) >= 240u64 * (scale as u64 + 1)
        invariant
            1 <= scale <= 0x100_0000,
            scale == 1 || fits_scale(screen_w as int, screen_h as int, scale as int),
            scale as int * GUI_MIN_WIDTH <= screen_w as int + GUI_MIN_WIDTH,
        decreases screen_w as int + GUI_MIN_WIDTH - scale as int * GUI_MIN_WIDTH,
    {
        scale = scale + 1;
    }
    scale
}

/// The interface scale in use: the largest that fits where `setting` is 0,
/// else `setting`, but no larger than what fits.
pub fn gui_scale(screen_w: u32, screen_h: u32, setting: u32) -> (r: u32)
    ensures
        ({
            let m = max_gui_scale_spec(screen_w as int, screen_h as int);
            &&& setting == 0 ==> r == m
            &&& setting != 0 ==> r == if setting < m { setting as int } else { m }
            &&& 1 <= r <= m
        }),
{
    let max = max_gui_scale(screen_w, screen_h);
    proof {
        lemma_max_scale_unique(screen_w as int, screen_h as int, max as int);
    }
    if setting == 0 {
        max
    } else if setting < max {
        setting
    } else {
        max
    }
}

/// The largest interface scale that fits, as a number: `min(w / 320, h / 240)`,
/// and at least 1.
pub open spec fn max_gui_scale_spec(w: int, h: int) -> int {
    let a = w / GUI_MIN_WIDTH as int;
    let b = h / GUI_MIN_HEIGHT as int;
    let m = if a < b { a } else { b };
    if m < 1 { 1 } else { m }
}

/// What `max_gui_scale` promises has one answer, `max_gui_scale_spec`.
pub proof fn lemma_max_scale_unique(w: int, h: int, r: int)
    requires
        w >= 0,
        h >= 0,
        r >= 1,
        r == 1 || fits_scale(w, h, r),
        !fits_scale(w, h, r + 1),
    ensures
        r == max_gui_scale_spec(w, h),
{
}

/// A larger window never gets a smaller interface scale.
pub proof fn law_scale_grows_with_window(w1: int, h1: int, w2: int, h2: int)
    requires
        0 <= w1 <= w2,
        0 <= h1 <= h2,
    ensures
        max_gui_scale_spec(w1, h1) <= max_gui_scale_spec(w2, h2),
{
    assert(w1 / 320 <= w2 / 320) by (nonlinear_arith) requires 0 <= w1 <= w2;
    assert(h1 / 240 <= h2 / 240) by (nonlinear_arith) requires 0 <= h1 <= h2;
}

} // verus!
