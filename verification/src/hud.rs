//! Layout of the overlay panels: frame rate at the top right, remaining
//! time at the bottom left, coin count at the bottom right.

use vstd::prelude::*;

verus! {

/// Distance of every panel from the edges of the screen.
pub const MARGIN: i32 = 12;

/// Offset of a panel's shadow, to the right and down.
pub const SHADOW: i32 = 3;

/// Width kept free for the icon left of a panel's text.
pub const ICON_ROOM: i32 = 40;

/// Where a panel and its parts go, in screen pixels.
#[derive(Clone, Copy, Debug, PartialEq, Eq, Structural)]
pub struct Panel {
    pub x: i32,
    pub y: i32,
    pub width: i32,
    pub height: i32,
    /// Top left corner of the shadow.
    pub shadow_x: i32,
    pub shadow_y: i32,
    /// Where the text starts.
    pub text_x: i32,
    pub text_y: i32,
    pub font_size: i32,
    /// Centre of the icon; equal to the panel's corner in a panel without one.
    pub icon_x: i32,
    pub icon_y: i32,
}

/// A panel's measures before they are known to fit the machine's integers.
pub struct PanelPlan {
    pub x: int,
    pub y: int,
    pub width: int,
    pub height: int,
    pub shadow_x: int,
    pub shadow_y: int,
    pub text_x: int,
    pub text_y: int,
    pub font_size: int,
    pub icon_x: int,
    pub icon_y: int,
}

/// Whether a value fits a signed 32-bit integer.
pub open spec fn in_i32(v: int) -> bool {
    i32::MIN <= v <= i32::MAX
}

impl PanelPlan {
    /// Whether every measure fits a signed 32-bit integer.
    pub open spec fn fits(self) -> bool {
        &&& in_i32(self.x)
        &&& in_i32(self.y)
        &&& in_i32(self.width)
        &&& in_i32(self.height)
        &&& in_i32(self.shadow_x)
        &&& in_i32(self.shadow_y)
        &&& in_i32(self.text_x)
        &&& in_i32(self.text_y)
        &&& in_i32(self.font_size)
        &&& in_i32(self.icon_x)
        &&& in_i32(self.icon_y)
    }
}

impl View for Panel {
    type V = PanelPlan;

    open spec fn view(&self) -> PanelPlan {
        PanelPlan {
            x: self.x as int,
            y: self.y as int,
            width: self.width as int,
            height: self.height as int,
            shadow_x: self.shadow_x as int,
            shadow_y: self.shadow_y as int,
            text_x: self.text_x as int,
            text_y: self.text_y as int,
            font_size: self.font_size as int,
            icon_x: self.icon_x as int,
            icon_y: self.icon_y as int,
        }
    }
}

/// A panel with its corner at `(x, y)` around a text that is `text_width`
/// wide in a font of `font_size`, padded by `pad_x` and `pad_y` on each
/// side. With `icon_room` the text moves right by that much past the
/// padding, and the icon's centre is `icon_inset` right of the corner, at
/// half the panel's height; when `icon_room` is zero there is no icon.
pub open spec fn panel_at(
    x: int,
    y: int,
    text_width: int,
    font_size: int,
    pad_x: int,
    pad_y: int,
    extra_width: int,
    icon_room: int,
    icon_inset: int,
) -> PanelPlan {
    let height = font_size + 2 * pad_y;
    PanelPlan {
        x,
        y,
        width: text_width + 2 * pad_x + extra_width,
        height,
        shadow_x: x + SHADOW,
        shadow_y: y + SHADOW,
        text_x: x + icon_room + pad_x,
        text_y: y + pad_y,
        font_size,
        icon_x: x + icon_inset,
        icon_y: if icon_room == 0 {
            y
        } else {
            y + height / 2
        },
    }
}

/// Whether `panel` is what a layout gives for `plan`: the panel of the
/// plan if the plan fits, nothing otherwise.
pub open spec fn panel_result(panel: Option<Panel>, plan: PanelPlan) -> bool {
    match panel {
        Some(p) => plan.fits() && p@ == plan,
        None => !plan.fits(),
    }
}

/// The frame-rate panel: in the top right corner of the screen.
pub open spec fn fps_panel_spec(screen_width: int, text_width: int) -> PanelPlan {
    panel_at(screen_width - (text_width + 28) - MARGIN, MARGIN as int, text_width, 32, 14, 10, 0, 0, 0)
}

/// The timer panel: in the bottom left corner, with a clock icon.
pub open spec fn timer_panel_spec(screen_height: int, text_width: int) -> PanelPlan {
    panel_at(
        MARGIN as int,
        screen_height - 58 - MARGIN,
        text_width,
        34,
        16,
        12,
        ICON_ROOM as int,
        ICON_ROOM as int,
        18,
    )
}

/// The coin panel: in the bottom right corner, with a coin icon.
pub open spec fn coin_panel_spec(screen_width: int, screen_height: int, text_width: int)
    -> PanelPlan {
    panel_at(
        screen_width - (text_width + 74) - MARGIN,
        screen_height - 56 - MARGIN,
        text_width,
        32,
        16,
        12,
        42,
        ICON_ROOM as int,
        22,
    )
}

/// Turns a plan into a panel if every measure fits.
fn panel_of(
    x: i64,
    y: i64,
    text_width: i32,
    font_size: i32,
    pad_x: i32,
    pad_y: i32,
    extra_width: i32,
    icon_room: i32,
    icon_inset: i32,
) -> (panel: Option<Panel>)
    requires
        -0x2_0000_0000 <= x <= 0x2_0000_0000,
        -0x2_0000_0000 <= y <= 0x2_0000_0000,
        0 <= font_size <= 100,
        0 <= pad_x <= 100,
        0 <= pad_y <= 100,
        0 <= extra_width <= 100,
        0 <= icon_room <= 100,
        0 <= icon_inset <= 100,
    ensures
        panel_result(
            panel,
            panel_at(
                x as int,
                y as int,
                text_width as int,
                font_size as int,
                pad_x as int,
                pad_y as int,
                extra_width as int,
                icon_room as int,
                icon_inset as int,
            ),
        ),
{
    let height: i64 = font_size as i64 + 2 * pad_y as i64;
    let width: i64 = text_width as i64 + 2 * pad_x as i64 + extra_width as i64;
    let shadow_x: i64 = x + SHADOW as i64;
    let shadow_y: i64 = y + SHADOW as i64;
    let text_x: i64 = x + icon_room as i64 + pad_x as i64;
    let text_y: i64 = y + pad_y as i64;
    let icon_x: i64 = x + icon_inset as i64;
    let icon_y: i64 = if icon_room == 0 {
        y
    } else {
        y + height / 2
    };
    if fits_i32(x) && fits_i32(y) && fits_i32(width) && fits_i32(height) && fits_i32(shadow_x)
        && fits_i32(shadow_y) && fits_i32(text_x) && fits_i32(text_y) && fits_i32(icon_x)
        && fits_i32(icon_y) {
        Some(
            Panel {
                x: x as i32,
                y: y as i32,
                width: width as i32,
                height: height as i32,
                shadow_x: shadow_x as i32,
                shadow_y: shadow_y as i32,
                text_x: text_x as i32,
                text_y: text_y as i32,
                font_size,
                icon_x: icon_x as i32,
                icon_y: icon_y as i32,
            },
        )
    } else {
        None
    }
}

/// Tells whether a value fits a signed 32-bit integer.
fn fits_i32(v: i64) -> (fits: bool)
    ensures
        fits == in_i32(v as int),
{
    -0x8000_0000 <= v && v <= 0x7fff_ffff
}

/// Lays out the frame-rate panel for a label that is `text_width` wide.
/// `None` if a measure of the panel does not fit a 32-bit integer.
pub fn fps_panel(screen_width: i32, text_width: i32) -> (panel: Option<Panel>)
    ensures
        panel_result(panel, fps_panel_spec(screen_width as int, text_width as int)),
{
    let x: i64 = screen_width as i64 - (text_width as i64 + 28) - MARGIN as i64;
    panel_of(x, MARGIN as i64, text_width, 32, 14, 10, 0, 0, 0)
}

/// Lays out the timer panel for a label that is `text_width` wide. `None`
/// if a measure of the panel does not fit a 32-bit integer.
pub fn timer_panel(screen_height: i32, text_width: i32) -> (panel: Option<Panel>)
    ensures
        panel_result(panel, timer_panel_spec(screen_height as int, text_width as int)),
{
    let y: i64 = screen_height as i64 - 58 - MARGIN as i64;
    panel_of(MARGIN as i64, y, text_width, 34, 16, 12, ICON_ROOM, ICON_ROOM, 18)
}

/// Lays out the coin panel for a label that is `text_width` wide. `None`
/// if a measure of the panel does not fit a 32-bit integer.
pub fn coin_panel(screen_width: i32, screen_height: i32, text_width: i32) -> (panel: Option<Panel>)
    ensures
        panel_result(
            panel,
            coin_panel_spec(screen_width as int, screen_height as int, text_width as int),
        ),
{
    let x: i64 = screen_width as i64 - (text_width as i64 + 74) - MARGIN as i64;
    let y: i64 = screen_height as i64 - 56 - MARGIN as i64;
    panel_of(x, y, text_width, 32, 16, 12, 42, ICON_ROOM, 22)
}

/// Splits the remaining seconds into the minutes and seconds that the
/// timer shows.
pub fn clock(time_left_secs: u32) -> (shown: (u32, u32))
    ensures
        shown.0 == time_left_secs / 60,
        shown.1 == time_left_secs % 60,
        shown.0 * 60 + shown.1 == time_left_secs,
{
    (time_left_secs / 60, time_left_secs % 60)
}

} // verus!
