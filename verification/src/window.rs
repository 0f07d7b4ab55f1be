//! Showing and hiding the flyout window, and where it appears next to the tray.

use vstd::prelude::*;

verus! {

/// What the flyout's placement is computed from, in physical pixels: the window's outer
/// size, the position and size of the monitor it is on, and two spacings that scale
/// with the monitor (`margin`: 8 pixels at 100%, `top_offset`: 24 pixels at 100%).
#[derive(Clone, Copy, Debug)]
pub struct FlyoutFrame {
    pub width: i32,
    pub height: i32,
    pub monitor_x: i32,
    pub monitor_y: i32,
    pub monitor_width: i32,
    pub monitor_height: i32,
    pub margin: i32,
    pub top_offset: i32,
}

/// Integer division rounding toward zero, as Rust's `/` on `i32` does.
pub open spec fn div_toward_zero(a: int, b: int) -> int {
    if a >= 0 {
        a / b
    } else {
        -((-a) / b)
    }
}

/// `v` is a value of `i32`.
pub open spec fn fits_i32(v: int) -> bool {
    i32::MIN <= v <= i32::MAX
}

/// The first horizontal candidate: centred on the tray point.
pub open spec fn centred_x(f: FlyoutFrame, tray_x: int) -> int {
    tray_x - div_toward_zero(f.width as int, 2)
}

/// After the left edge correction: a window that would start left of the monitor is
/// moved to one margin inside it.
pub open spec fn left_corrected_x(f: FlyoutFrame, tray_x: int) -> int {
    let x = centred_x(f, tray_x);
    if x < f.monitor_x {
        f.monitor_x + f.margin
    } else {
        x
    }
}

/// The right end of the monitor.
pub open spec fn monitor_right(f: FlyoutFrame) -> int {
    f.monitor_x + f.monitor_width
}

/// The top fifth of the monitor begins at its top and ends here.
pub open spec fn top_band_end(f: FlyoutFrame) -> int {
    f.monitor_y + div_toward_zero(f.monitor_height as int, 5)
}

/// Where the flyout's top left corner goes for a click at (`tray_x`, `tray_y`).
///
/// It is centred above the point, one margin higher than the window is tall. A window
/// that would start left of the monitor starts one margin inside it; one that would end
/// right of the monitor ends one margin inside it. A click in the top fifth of the
/// monitor (a tray at the top) puts the window `top_offset` below the point instead.
pub open spec fn flyout_position(f: FlyoutFrame, tray_x: int, tray_y: int) -> (int, int) {
    let x1 = left_corrected_x(f, tray_x);
    let x = if x1 + f.width > monitor_right(f) {
        monitor_right(f) - f.width - f.margin
    } else {
        x1
    };
    let y = if tray_y < top_band_end(f) {
        tray_y + f.top_offset
    } else {
        tray_y - f.height - f.margin
    };
    (x, y)
}

/// Every intermediate value of the placement is an `i32`, as the computation in `i32`
/// needs (it fails on overflow otherwise).
pub open spec fn flyout_fits(f: FlyoutFrame, tray_x: int, tray_y: int) -> bool {
    let x0 = centred_x(f, tray_x);
    let x1 = left_corrected_x(f, tray_x);
    &&& fits_i32(x0)
    &&& fits_i32(tray_y - f.height)
    &&& fits_i32(tray_y - f.height - f.margin)
    &&& (x0 < f.monitor_x ==> fits_i32(f.monitor_x + f.margin))
    &&& fits_i32(x1 + f.width)
    &&& fits_i32(monitor_right(f))
    &&& (x1 + f.width > monitor_right(f) ==> fits_i32(monitor_right(f) - f.width) && fits_i32(
        monitor_right(f) - f.width - f.margin,
    ))
    &&& fits_i32(top_band_end(f))
    &&& (tray_y < top_band_end(f) ==> fits_i32(tray_y + f.top_offset))
}

/// What the window is to do.
#[derive(PartialEq, Eq, Structural, Clone, Copy, Debug)]
pub enum WindowAction {
    /// Hide the flyout.
    Hide,
    /// Move the flyout's top left corner to (`x`, `y`), show it on top, focus it, and tell
    /// the front end that it became visible.
    Show { x: i32, y: i32 },
}

/// Whether the flyout is visible once `action` is carried out.
pub open spec fn visible_after(action: WindowAction) -> bool {
    action is Show
}

/// What a toggle does: hide a visible flyout, show a hidden one where a click at
/// `tray_pos` places it.
pub open spec fn toggled(is_visible: bool, frame: Option<FlyoutFrame>, tray_pos: (i32, i32)) -> WindowAction {
    if is_visible {
        WindowAction::Hide
    } else {
        let p = flyout_position(frame.unwrap(), tray_pos.0 as int, tray_pos.1 as int);
        WindowAction::Show { x: p.0 as i32, y: p.1 as i32 }
    }
}

/// Shows the flyout next to the tray and hides it again.
#[derive(Debug, Default)]
pub struct WindowManager {}

impl WindowManager {
    /// Where the flyout goes for a click at `tray_pos` (see `flyout_position`).
    pub fn calculate_position(&self, frame: &FlyoutFrame, tray_pos: (i32, i32)) -> (pos: (i32, i32))
        requires
            flyout_fits(*frame, tray_pos.0 as int, tray_pos.1 as int),
        ensures
            (pos.0 as int, pos.1 as int) == flyout_position(*frame, tray_pos.0 as int, tray_pos.1 as int),
    {
        let (tray_x, tray_y) = tray_pos;
        let mut target_x = tray_x - frame.width / 2;
        let mut target_y = tray_y - frame.height - frame.margin;
        if target_x < frame.monitor_x {
            target_x = frame.monitor_x + frame.margin;
        }
        if target_x + frame.width > frame.monitor_x + frame.monitor_width {
            target_x = frame.monitor_x + frame.monitor_width - frame.width - frame.margin;
        }
        if tray_y < frame.monitor_y + frame.monitor_height / 5 {
            target_y = tray_y + frame.top_offset;
        }
        (target_x, target_y)
    }

    /// The placement for a click at `tray_pos`, or `None` where its computation would
    /// overflow `i32`.
    pub fn checked_position(&self, frame: &FlyoutFrame, tray_pos: (i32, i32)) -> (pos: Option<(i32, i32)>)
        ensures
            match pos {
                Some(p) => flyout_fits(*frame, tray_pos.0 as int, tray_pos.1 as int) && (p.0 as int, p.1 as int)
                    == flyout_position(*frame, tray_pos.0 as int, tray_pos.1 as int),
                None => !flyout_fits(*frame, tray_pos.0 as int, tray_pos.1 as int),
            },
    {
        let (tray_x, tray_y) = tray_pos;
        let w = frame.width as i64;
        let h = frame.height as i64;
        let mx = frame.monitor_x as i64;
        let my = frame.monitor_y as i64;
        let mw = frame.monitor_width as i64;
        let mh = frame.monitor_height as i64;
        let m = frame.margin as i64;
        let top = frame.top_offset as i64;
        let tx = tray_x as i64;
        let ty = tray_y as i64;
        let lo = i32::MIN as i64;
        let hi = i32::MAX as i64;
        let half = (frame.width / 2) as i64;
        let fifth = (frame.monitor_height / 5) as i64;
        let x0 = tx - half;
        let x1 = if x0 < mx { mx + m } else { x0 };
        let fits = lo <= x0 && x0 <= hi && lo <= ty - h && ty - h <= hi && lo <= ty - h - m && ty - h - m <= hi
            && (x0 >= mx || (lo <= mx + m && mx + m <= hi)) && lo <= x1 + w && x1 + w <= hi && lo <= mx + mw
            && mx + mw <= hi && (x1 + w <= mx + mw || (lo <= mx + mw - w && mx + mw - w <= hi && lo <= mx + mw - w - m
            && mx + mw - w - m <= hi)) && lo <= my + fifth && my + fifth <= hi && (ty >= my + fifth || (lo <= ty + top
            && ty + top <= hi));
        if fits {
            Some(self.calculate_position(frame, tray_pos))
        } else {
            None
        }
    }

    /// Toggles the flyout: a visible one is hidden; a hidden one is shown at the place
    /// for a click at `tray_pos`. The placement is only looked at (`frame`, which may be
    /// left out for a visible flyout) when the flyout is hidden.
    pub fn toggle(&mut self, is_visible: bool, frame: Option<FlyoutFrame>, tray_pos: (i32, i32)) -> (action: WindowAction)
        requires
            !is_visible ==> frame is Some && flyout_fits(frame.unwrap(), tray_pos.0 as int, tray_pos.1 as int),
        ensures
            action == toggled(is_visible, frame, tray_pos),
            is_visible ==> action == WindowAction::Hide,
            !is_visible ==> (action matches WindowAction::Show { x, y } && (x as int, y as int)
                == flyout_position(frame.unwrap(), tray_pos.0 as int, tray_pos.1 as int)),
    {
        if is_visible {
            WindowAction::Hide
        } else {
            match frame {
                Some(f) => {
                    let (x, y) = self.calculate_position(&f, tray_pos);
                    WindowAction::Show { x, y }
                },
                None => WindowAction::Hide,
            }
        }
    }

    /// Hides the flyout.
    pub fn hide_flyout(&mut self) -> (action: WindowAction)
        ensures
            action == WindowAction::Hide,
    {
        WindowAction::Hide
    }
}

/// A flyout that fits on its monitor with a margin to spare stays on the monitor: it
/// starts at or right of the monitor's left edge and ends at or left of its right edge.
pub proof fn lemma_flyout_stays_on_monitor(f: FlyoutFrame, tray_x: int, tray_y: int)
    requires
        f.margin >= 0,
        f.width >= 0,
        f.width + f.margin <= f.monitor_width,
    ensures
        f.monitor_x <= flyout_position(f, tray_x, tray_y).0,
        flyout_position(f, tray_x, tray_y).0 + f.width <= monitor_right(f),
{
}

/// A toggle flips the flyout's visibility, and a second toggle (from anywhere on the
/// tray) restores it.
pub proof fn lemma_toggle_twice(
    visible: bool,
    first_frame: Option<FlyoutFrame>,
    first_pos: (i32, i32),
    second_frame: Option<FlyoutFrame>,
    second_pos: (i32, i32),
)
    ensures
        visible_after(toggled(visible, first_frame, first_pos)) == !visible,
        visible_after(
            toggled(visible_after(toggled(visible, first_frame, first_pos)), second_frame, second_pos),
        ) == visible,
{
}

/// The flyout opens above the click, one margin higher than it is tall, unless the click
/// lies in the top fifth of its own monitor (measured from the monitor's top edge), where
/// it opens `top_offset` below the click.
pub proof fn lemma_flyout_vertical(f: FlyoutFrame, tray_x: int, tray_y: int)
    requires
        f.monitor_height >= 0,
    ensures
        tray_y >= f.monitor_y + (f.monitor_height as int) / 5 ==> flyout_position(f, tray_x, tray_y).1
            == tray_y - f.height - f.margin,
        tray_y < f.monitor_y + (f.monitor_height as int) / 5 ==> flyout_position(f, tray_x, tray_y).1
            == tray_y + f.top_offset,
{
}

/// Placement follows the monitor: moving the monitor and the click by the same amount,
/// down or right, moves the flyout by that amount and leaves the other coordinate as it
/// was.
pub proof fn lemma_flyout_translation(f: FlyoutFrame, tray_x: int, tray_y: int, dx: i32, dy: i32)
    requires
        fits_i32(f.monitor_x + dx),
        fits_i32(f.monitor_y + dy),
    ensures
        ({
            let g = FlyoutFrame { monitor_y: (f.monitor_y + dy) as i32, ..f };
            &&& flyout_position(g, tray_x, tray_y + dy).1 == flyout_position(f, tray_x, tray_y).1 + dy
            &&& flyout_position(g, tray_x, tray_y + dy).0 == flyout_position(f, tray_x, tray_y).0
        }),
        ({
            let g = FlyoutFrame { monitor_x: (f.monitor_x + dx) as i32, ..f };
            &&& flyout_position(g, tray_x + dx, tray_y).0 == flyout_position(f, tray_x, tray_y).0 + dx
            &&& flyout_position(g, tray_x + dx, tray_y).1 == flyout_position(f, tray_x, tray_y).1
        }),
{
}

/// Placement never overflows for screens of any real size: where the window, the monitor,
/// the spacings and the click all lie within 2^20 pixels of the origin, every
/// intermediate value is an `i32`, so `checked_position` gives `Some`.
pub proof fn lemma_flyout_fits_real_screens(f: FlyoutFrame, tray_x: int, tray_y: int)
    requires
        -0x100000 <= f.width <= 0x100000,
        -0x100000 <= f.height <= 0x100000,
        -0x100000 <= f.monitor_x <= 0x100000,
        -0x100000 <= f.monitor_y <= 0x100000,
        -0x100000 <= f.monitor_width <= 0x100000,
        -0x100000 <= f.monitor_height <= 0x100000,
        -0x100000 <= f.margin <= 0x100000,
        -0x100000 <= f.top_offset <= 0x100000,
        -0x100000 <= tray_x <= 0x100000,
        -0x100000 <= tray_y <= 0x100000,
    ensures
        flyout_fits(f, tray_x, tray_y),
{
}

/// Horizontally the flyout is centred on the click where it then lies on the monitor; one
/// that would start left of the monitor starts one margin inside its left edge, and one
/// that would end right of the monitor ends one margin inside its right edge.
pub proof fn lemma_flyout_horizontal(f: FlyoutFrame, tray_x: int, tray_y: int)
    requires
        f.width >= 0,
    ensures
        ({
            let c = tray_x - (f.width as int) / 2;
            let x = flyout_position(f, tray_x, tray_y).0;
            &&& (f.monitor_x <= c && c + f.width <= f.monitor_x + f.monitor_width) ==> x == c
            &&& (c < f.monitor_x && f.monitor_x + f.margin + f.width <= f.monitor_x + f.monitor_width) ==> x
                == f.monitor_x + f.margin
            &&& (c >= f.monitor_x && c + f.width > f.monitor_x + f.monitor_width) ==> x == f.monitor_x
                + f.monitor_width - f.width - f.margin
        }),
{
}

} // verus!
