//! The arithmetic of the tray window: where the popup goes, from which edge
//! it slides in, DPI scaling, colour packing, the tray icon's stroke, and
//! what a menu command id asks for.

use vstd::prelude::*;
use crate::config::{Config, plan_index, plan_position, plan_table};
use crate::text::{chars_equal, chars_of};

verus! {

/// `a / b` as Rust's integer division computes it, rounding toward zero.
pub open spec fn trunc_div(a: int, b: int) -> int {
    if a >= 0 {
        a / b
    } else {
        -((-a) / b)
    }
}

/// `value` clamped into `min..=max`, as `i32::clamp` gives it.
pub open spec fn clamp(value: int, min: int, max: int) -> int {
    if value < min {
        min
    } else if value > max {
        max
    } else {
        value
    }
}

/// The larger of two integers.
pub open spec fn larger(a: int, b: int) -> int {
    if a >= b {
        a
    } else {
        b
    }
}

/// A pixel length at `dpi` brought back to 96 DPI, rounded to nearest.
pub fn unscale(dpi: i32, value: i32) -> (r: i32)
    requires
        dpi > 0,
        i32::MIN <= value * 96 <= i32::MAX,
        i32::MIN <= value * 96 + dpi / 2 <= i32::MAX,
    ensures
        r == trunc_div(value * 96 + dpi / 2, dpi as int),
{
    let n = value * 96 + dpi / 2;
    if n >= 0 {
        n / dpi
    } else {
        let m = -(n as i64);
        let q = m / (dpi as i64);
        (-q) as i32
    }
}

/// A pixel length at 96 DPI scaled to `dpi`, rounded to nearest.
pub fn z(dpi: i32, value: i32) -> (r: i32)
    requires
        i32::MIN <= value * dpi <= i32::MAX,
        i32::MIN <= value * dpi + 48 <= i32::MAX,
    ensures
        r == trunc_div(value * dpi + 48, 96),
{
    let n = value * dpi + 48;
    if n >= 0 {
        n / 96
    } else {
        let m = -(n as i64);
        let q = m / 96;
        (-q) as i32
    }
}

/// The top of a popup of height `popup_h` opened from a tray icon at
/// `cursor_y`: it ends `gap` above the icon, within the work area and
/// `gap` above its bottom, and never above its top.
pub fn anchored_popup_y(cursor_y: i32, popup_h: i32, work_top: i32, work_bottom: i32, gap: i32) -> (r: i32)
    requires
        i32::MIN <= work_bottom - popup_h <= i32::MAX,
        i32::MIN <= work_bottom - popup_h - gap <= i32::MAX,
        i32::MIN <= cursor_y - popup_h <= i32::MAX,
        i32::MIN <= cursor_y - popup_h - gap <= i32::MAX,
    ensures
        r == clamp(
            cursor_y - popup_h - gap,
            work_top as int,
            larger(work_bottom - popup_h - gap, work_top as int),
        ),
{
    let lowest = work_bottom - popup_h - gap;
    let max_y = if lowest >= work_top {
        lowest
    } else {
        work_top
    };
    let y = cursor_y - popup_h - gap;
    if y < work_top {
        work_top
    } else if y > max_y {
        max_y
    } else {
        y
    }
}

/// The rectangle of a monitor's work area, in pixels.
#[derive(Clone, Copy, Debug, PartialEq, Eq, Structural)]
pub struct WorkArea {
    pub left: i32,
    pub top: i32,
    pub right: i32,
    pub bottom: i32,
}

/// A popup origin moved so that a `w` by `h` popup lies in the work area,
/// `gap` above its bottom.
pub fn clamp_popup_origin(x: i32, y: i32, w: i32, h: i32, work: WorkArea, gap: i32) -> (r: (i32, i32))
    requires
        i32::MIN <= work.right - w <= i32::MAX,
        i32::MIN <= work.bottom - h <= i32::MAX,
        i32::MIN <= work.bottom - h - gap <= i32::MAX,
    ensures
        r.0 == clamp(x as int, work.left as int, larger(work.right - w, work.left as int)),
        r.1 == clamp(y as int, work.top as int, larger(work.bottom - h - gap, work.top as int)),
{
    let max_x = if work.right - w >= work.left {
        work.right - w
    } else {
        work.left
    };
    let max_y = if work.bottom - h - gap >= work.top {
        work.bottom - h - gap
    } else {
        work.top
    };
    let cx = if x < work.left {
        work.left
    } else if x > max_x {
        max_x
    } else {
        x
    };
    let cy = if y < work.top {
        work.top
    } else if y > max_y {
        max_y
    } else {
        y
    };
    (cx, cy)
}

/// An edge of the work area.
#[derive(Clone, Copy, Debug, PartialEq, Eq, Structural)]
pub enum PopupEdge {
    Bottom,
    Top,
    Right,
    Left,
}

/// The absolute value.
pub open spec fn abs(v: int) -> int {
    if v < 0 {
        -v
    } else {
        v
    }
}

/// The edge of the work area nearest to `(x, y)`; on a tie the first of
/// bottom, top, right and left.
pub open spec fn spec_nearest_edge(x: int, y: int, work: WorkArea) -> PopupEdge {
    let d0 = abs(y - work.bottom);
    let d1 = abs(y - work.top);
    let d2 = abs(x - work.right);
    let d3 = abs(x - work.left);
    if d0 <= d1 && d0 <= d2 && d0 <= d3 {
        PopupEdge::Bottom
    } else if d1 <= d2 && d1 <= d3 {
        PopupEdge::Top
    } else if d2 <= d3 {
        PopupEdge::Right
    } else {
        PopupEdge::Left
    }
}

/// The edge of the work area nearest to the point where the popup is
/// anchored, from which its animation enters.
pub fn popup_edge(x: i32, y: i32, work: WorkArea) -> (r: PopupEdge)
    requires
        i32::MIN < y - work.bottom <= i32::MAX,
        i32::MIN < y - work.top <= i32::MAX,
        i32::MIN < x - work.right <= i32::MAX,
        i32::MIN < x - work.left <= i32::MAX,
    ensures
        r == spec_nearest_edge(x as int, y as int, work),
{
    let d0 = if y - work.bottom < 0 {
        work.bottom - y
    } else {
        y - work.bottom
    };
    let d1 = if y - work.top < 0 {
        work.top - y
    } else {
        y - work.top
    };
    let d2 = if x - work.right < 0 {
        work.right - x
    } else {
        x - work.right
    };
    let d3 = if x - work.left < 0 {
        work.left - x
    } else {
        x - work.left
    };
    if d0 <= d1 && d0 <= d2 && d0 <= d3 {
        PopupEdge::Bottom
    } else if d1 <= d2 && d1 <= d3 {
        PopupEdge::Top
    } else if d2 <= d3 {
        PopupEdge::Right
    } else {
        PopupEdge::Left
    }
}

/// `AnimateWindow`'s flag for a slide from left to right.
pub const AW_HOR_POSITIVE: u32 = 0x1;

/// `AnimateWindow`'s flag for a slide from right to left.
pub const AW_HOR_NEGATIVE: u32 = 0x2;

/// `AnimateWindow`'s flag for a slide from top to bottom.
pub const AW_VER_POSITIVE: u32 = 0x4;

/// `AnimateWindow`'s flag for a slide from bottom to top.
pub const AW_VER_NEGATIVE: u32 = 0x8;

/// The `AnimateWindow` flags that show and hide a popup anchored at
/// `(x, y)`: it enters moving away from the nearest edge of the work area
/// and leaves moving back toward it.
pub fn popup_animation_flags(x: i32, y: i32, work: WorkArea) -> (r: (u32, u32))
    requires
        i32::MIN < y - work.bottom <= i32::MAX,
        i32::MIN < y - work.top <= i32::MAX,
        i32::MIN < x - work.right <= i32::MAX,
        i32::MIN < x - work.left <= i32::MAX,
    ensures
        r == match spec_nearest_edge(x as int, y as int, work) {
            PopupEdge::Bottom => (AW_VER_NEGATIVE, AW_VER_POSITIVE),
            PopupEdge::Top => (AW_VER_POSITIVE, AW_VER_NEGATIVE),
            PopupEdge::Right => (AW_HOR_NEGATIVE, AW_HOR_POSITIVE),
            PopupEdge::Left => (AW_HOR_POSITIVE, AW_HOR_NEGATIVE),
        },
{
    match popup_edge(x, y, work) {
        PopupEdge::Bottom => (AW_VER_NEGATIVE, AW_VER_POSITIVE),
        PopupEdge::Top => (AW_VER_POSITIVE, AW_VER_NEGATIVE),
        PopupEdge::Right => (AW_HOR_NEGATIVE, AW_HOR_POSITIVE),
        PopupEdge::Left => (AW_HOR_POSITIVE, AW_HOR_NEGATIVE),
    }
}

/// Whether a click at `(x, y)` in 96-DPI popup coordinates hits the menu
/// button in the popup's top right corner.
pub fn opens_menu_at(x: i32, y: i32) -> (r: bool)
    ensures
        r == (x >= 340 && y < 56),
{
    x >= 340 && y < 56
}

/// A Windows `COLORREF` of red, green and blue.
pub fn rgb(r: u8, g: u8, b: u8) -> (c: u32)
    ensures
        c == r + g * 0x100 + b * 0x1_0000,
{
    let c = r as u32 | ((g as u32) << 8) | ((b as u32) << 16);
    assert(r as u32 | ((g as u32) << 8) | ((b as u32) << 16) == r as u32 + (g as u32) * 0x100 + (
    b as u32) * 0x1_0000) by (bit_vector)
        requires
            r < 0x100,
            g < 0x100,
            b < 0x100,
    ;
    c
}

/// The red, green and blue of an ARGB colour as a `COLORREF`.
pub fn solid_from_argb(color: u32) -> (c: u32)
    ensures
        c == (color / 0x1_0000) % 0x100 + ((color / 0x100) % 0x100) * 0x100 + (color % 0x100)
            * 0x1_0000,
{
    let r = ((color >> 16) & 0xff) as u8;
    let g = ((color >> 8) & 0xff) as u8;
    let b = (color & 0xff) as u8;
    assert((color >> 16) & 0xff == (color / 0x1_0000) % 0x100) by (bit_vector);
    assert((color >> 8) & 0xff == (color / 0x100) % 0x100) by (bit_vector);
    assert(color & 0xff == color % 0x100) by (bit_vector);
    rgb(r, g, b)
}

/// An ARGB colour from alpha, red, green and blue.
pub fn argb(a: u8, r: u8, g: u8, b: u8) -> (c: u32)
    ensures
        c == a * 0x100_0000 + r * 0x1_0000 + g * 0x100 + b,
{
    let c = ((a as u32) << 24) | ((r as u32) << 16) | ((g as u32) << 8) | b as u32;
    assert(((a as u32) << 24) | ((r as u32) << 16) | ((g as u32) << 8) | b as u32 == (a as u32)
        * 0x100_0000 + (r as u32) * 0x1_0000 + (g as u32) * 0x100 + b as u32) by (bit_vector)
        requires
            a < 0x100,
            r < 0x100,
            g < 0x100,
            b < 0x100,
    ;
    c
}

/// An ARGB colour of alpha `a` and the colour of a `COLORREF`.
pub fn colorref_to_argb(a: u8, color: u32) -> (c: u32)
    ensures
        c == a * 0x100_0000 + (color % 0x100) * 0x1_0000 + ((color / 0x100) % 0x100) * 0x100 + (
        color / 0x1_0000) % 0x100,
{
    let r = (color & 0xff) as u8;
    let g = ((color >> 8) & 0xff) as u8;
    let b = ((color >> 16) & 0xff) as u8;
    assert((color >> 16) & 0xff == (color / 0x1_0000) % 0x100) by (bit_vector);
    assert((color >> 8) & 0xff == (color / 0x100) % 0x100) by (bit_vector);
    assert(color & 0xff == color % 0x100) by (bit_vector);
    argb(a, r, g, b)
}

/// The alpha of the tray icon's stroke at a pixel of ARGB colour `color`:
/// the pixel's alpha scaled by how dark it is (255 minus its luma, where
/// luma weighs red, green and blue 30, 59 and 11 percent), in whole steps.
pub open spec fn stroke_alpha(color: u32) -> int {
    let alpha = (color / 0x100_0000) as int;
    let red = ((color / 0x1_0000) % 0x100) as int;
    let green = ((color / 0x100) % 0x100) as int;
    let blue = (color % 0x100) as int;
    let luma = (red * 30 + green * 59 + blue * 11) / 100;
    alpha * (255 - luma) / 255
}

/// A pixel of the monochrome tray icon made from a pixel of the source icon:
/// nothing where the stroke would be transparent, else the foreground
/// colour with the stroke's alpha.
pub fn extract_tray_stroke(color: u32, foreground: u32) -> (r: u32)
    ensures
        stroke_alpha(color) == 0 ==> r == 0,
        stroke_alpha(color) != 0 ==> r == ((stroke_alpha(color) as u32) << 24u32) | foreground,
{
    let alpha = (color >> 24) & 0xff;
    assert((color >> 24) & 0xff == color / 0x100_0000) by (bit_vector);
    if alpha == 0 {
        return 0;
    }
    let red = (color >> 16) & 0xff;
    let green = (color >> 8) & 0xff;
    let blue = color & 0xff;
    assert((color >> 16) & 0xff == (color / 0x1_0000) % 0x100) by (bit_vector);
    assert((color >> 8) & 0xff == (color / 0x100) % 0x100) by (bit_vector);
    assert(color & 0xff == color % 0x100) by (bit_vector);
    let luma = (red * 30 + green * 59 + blue * 11) / 100;
    assert(luma <= 255);
    assert(alpha * (255 - luma) <= 255 * 255) by (nonlinear_arith)
        requires
            alpha <= 255,
            luma <= 255,
    ;
    let stroke = alpha * (255 - luma) / 255;
    if stroke == 0 {
        0
    } else {
        (stroke << 24) | foreground
    }
}

/// The menu command of the plan at `index` in the plan table.
pub const PLAN_COMMAND_BASE: usize = 1100;

/// The menu command of renewal day 1; day `d` is this plus `d - 1`.
pub const DAY_COMMAND_BASE: usize = 1200;

/// The menu command of the first language setting (`auto`, `en`, `es`).
pub const LANGUAGE_COMMAND_BASE: usize = 1300;

/// What a menu command asks for.
#[derive(Clone, Copy, Debug, PartialEq, Eq, Structural)]
pub enum MenuCommand {
    /// Choose the plan at this index of the plan table.
    Plan(usize),
    /// Renew on this day of the month.
    CycleDay(u16),
    /// Use the language setting at this index of `auto`, `en`, `es`.
    Language(usize),
    Refresh,
    AllTime,
    /// Change the custom monthly amount by this many dollars.
    AdjustCustomAmount(i32),
    OpenConfig,
    OpenUsage,
    Exit,
    /// An id that asks for nothing.
    Nothing,
}

/// The command of a `WM_COMMAND` message's `wparam`, given the number of
/// plans in the menu; the low 16 bits hold the command id.
pub open spec fn spec_menu_command(wparam: usize, plan_count: usize) -> MenuCommand {
    let id = wparam % 0x1_0000;
    if PLAN_COMMAND_BASE <= id < PLAN_COMMAND_BASE + plan_count {
        MenuCommand::Plan((id - PLAN_COMMAND_BASE) as usize)
    } else if DAY_COMMAND_BASE <= id < DAY_COMMAND_BASE + 31 {
        MenuCommand::CycleDay((id - DAY_COMMAND_BASE + 1) as u16)
    } else if LANGUAGE_COMMAND_BASE <= id < LANGUAGE_COMMAND_BASE + 3 {
        MenuCommand::Language((id - LANGUAGE_COMMAND_BASE) as usize)
    } else if id == 1001 {
        MenuCommand::Refresh
    } else if id == 1002 {
        MenuCommand::Exit
    } else if id == 1003 {
        MenuCommand::AllTime
    } else if id == 1004 {
        MenuCommand::OpenConfig
    } else if id == 1005 {
        MenuCommand::OpenUsage
    } else if id == 1400 {
        MenuCommand::AdjustCustomAmount(-10i32)
    } else if id == 1401 {
        MenuCommand::AdjustCustomAmount(-1i32)
    } else if id == 1402 {
        MenuCommand::AdjustCustomAmount(1)
    } else if id == 1403 {
        MenuCommand::AdjustCustomAmount(10)
    } else {
        MenuCommand::Nothing
    }
}

/// The command of a `WM_COMMAND` message's `wparam`.
pub fn menu_command(wparam: usize, plan_count: usize) -> (r: MenuCommand)
    requires
        plan_count <= 100,
    ensures
        r == spec_menu_command(wparam, plan_count),
{
    let id = wparam & 0xffff;
    assert(wparam & 0xffff == wparam % 0x1_0000) by (bit_vector);
    if PLAN_COMMAND_BASE <= id && id < PLAN_COMMAND_BASE + plan_count {
        MenuCommand::Plan(id - PLAN_COMMAND_BASE)
    } else if DAY_COMMAND_BASE <= id && id < DAY_COMMAND_BASE + 31 {
        MenuCommand::CycleDay((id - DAY_COMMAND_BASE + 1) as u16)
    } else if LANGUAGE_COMMAND_BASE <= id && id < LANGUAGE_COMMAND_BASE + 3 {
        MenuCommand::Language(id - LANGUAGE_COMMAND_BASE)
    } else if id == 1001 {
        MenuCommand::Refresh
    } else if id == 1002 {
        MenuCommand::Exit
    } else if id == 1003 {
        MenuCommand::AllTime
    } else if id == 1004 {
        MenuCommand::OpenConfig
    } else if id == 1005 {
        MenuCommand::OpenUsage
    } else if id == 1400 {
        MenuCommand::AdjustCustomAmount(-10)
    } else if id == 1401 {
        MenuCommand::AdjustCustomAmount(-1)
    } else if id == 1402 {
        MenuCommand::AdjustCustomAmount(1)
    } else if id == 1403 {
        MenuCommand::AdjustCustomAmount(10)
    } else {
        MenuCommand::Nothing
    }
}

/// When a popup fits in the work area, its anchored position keeps it
/// inside: not above the top, and `gap` above the bottom.
pub proof fn lemma_anchored_popup_fits(cursor_y: int, popup_h: int, work_top: int, work_bottom: int, gap: int)
    requires
        work_bottom - popup_h - gap >= work_top,
    ensures
        ({
            let y = clamp(cursor_y - popup_h - gap, work_top, larger(work_bottom - popup_h - gap, work_top));
            work_top <= y && y + popup_h + gap <= work_bottom
        }),
{
}

/// The search for a font size at which a text fits a width: from `size`
/// down, one point at a time, to no less than the floor.
#[derive(Clone, Copy, Debug, PartialEq, Eq, Structural)]
pub struct FontFit {
    /// The size to try next, or the answer once the search stops.
    pub current: i32,
    /// The smallest size allowed: the requested minimum, or `size` when that
    /// is smaller.
    pub floor: i32,
    pub max_width: i32,
}

impl FontFit {
    /// A search that starts at `size`.
    pub fn new(max_width: i32, size: i32, min_size: i32) -> (r: FontFit)
        ensures
            r.current == size,
            r.floor == if min_size < size {
                min_size
            } else {
                size
            },
            r.max_width == max_width,
    {
        FontFit {
            current: size,
            floor: if min_size < size {
                min_size
            } else {
                size
            },
            max_width,
        }
    }

    /// Whether the text must be measured at the current size: only while a
    /// smaller size is still allowed.
    pub fn wants_width(&self) -> (r: bool)
        ensures
            r == (self.current > self.floor),
    {
        self.current > self.floor
    }

    /// Takes the text's width at the current size: when it is too wide the
    /// size shrinks by one point and the search goes on (`true`); else the
    /// current size is the answer.
    pub fn take_width(&mut self, width: i32) -> (r: bool)
        requires
            old(self).current > old(self).floor,
        ensures
            r == (width > old(self).max_width),
            final(self).current == if r {
                old(self).current - 1
            } else {
                old(self).current as int
            },
            final(self).floor == old(self).floor,
            final(self).max_width == old(self).max_width,
            final(self).floor <= final(self).current,
    {
        if width > self.max_width {
            self.current = self.current - 1;
            true
        } else {
            false
        }
    }
}

/// A text as a Windows wide-string buffer of `capacity` units: its UTF-16
/// units as far as they fit, zeros after them, and a terminating zero in
/// the last unit when the text fills the buffer.
pub open spec fn spec_wide_buffer(units: Seq<u16>, capacity: nat) -> Seq<u16> {
    Seq::new(
        capacity,
        |i: int| if i == capacity - 1 && units.len() >= capacity {
            0u16
        } else if i < units.len() {
            units[i]
        } else {
            0u16
        },
    )
}

/// Fills a zeroed wide-string buffer of `capacity` units with `units`.
pub fn wide_buffer(units: &Vec<u16>, capacity: usize) -> (r: Vec<u16>)
    ensures
        r@ == spec_wide_buffer(units@, capacity as nat),
{
    let mut out: Vec<u16> = Vec::new();
    let mut i: usize = 0;
    while i < capacity
        invariant
            i <= capacity,
            out@ =~= spec_wide_buffer(units@, capacity as nat).take(i as int),
        decreases capacity - i,
    {
        let unit = if i == capacity - 1 && units.len() >= capacity {
            0u16
        } else if i < units.len() {
            units[i]
        } else {
            0u16
        };
        out.push(unit);
        i = i + 1;
        assert(out@ =~= spec_wide_buffer(units@, capacity as nat).take(i as int));
    }
    assert(spec_wide_buffer(units@, capacity as nat).take(i as int) =~= spec_wide_buffer(units@, capacity as nat));
    out
}

/// The items that the settings menu shows as chosen.
#[derive(Clone, Copy, Debug, PartialEq, Eq, Structural)]
pub struct MenuChecks {
    /// The index of the selected plan in the plan table (Plus when the
    /// setting names none).
    pub plan: usize,
    /// The renewal day, brought into 1..=31.
    pub day: u16,
    /// The index of the language setting among `auto`, `en` and `es`
    /// (`auto` for anything else).
    pub language: usize,
}

/// The items that the settings menu shows as chosen for `config`.
pub fn menu_checks(config: &Config) -> (r: MenuChecks)
    ensures
        r.plan == match plan_index(plan_table(), config.plan@) {
            Some(i) => i as usize,
            None => 2usize,
        },
        r.day == if config.cycle_day < 1 {
            1
        } else if config.cycle_day > 31 {
            31
        } else {
            config.cycle_day
        },
        r.language == if config.language@ == "en"@ {
            1usize
        } else if config.language@ == "es"@ {
            2usize
        } else {
            0usize
        },
{
    let plan = match plan_position(config.plan.as_str()) {
        Some(i) => i,
        None => 2,
    };
    let day = if config.cycle_day < 1 {
        1
    } else if config.cycle_day > 31 {
        31
    } else {
        config.cycle_day
    };
    let language = chars_of(config.language.as_str());
    let language = if chars_equal(&language, &chars_of("en")) {
        1
    } else if chars_equal(&language, &chars_of("es")) {
        2
    } else {
        0
    };
    MenuChecks { plan, day, language }
}

/// Whether the renewal-day menu starts a new column at `day` (it shows
/// three columns of ten or eleven days).
pub fn day_starts_column(day: u16) -> (r: bool)
    ensures
        r == (day == 11 || day == 21),
{
    day == 11 || day == 21
}

/// The colours of the popup: `bg` and `accent_argb` are ARGB, the others
/// `COLORREF`s.
#[derive(Clone, Copy, Debug, PartialEq, Eq, Structural)]
pub struct Theme {
    pub dark: bool,
    pub bg: u32,
    pub text: u32,
    pub muted: u32,
    pub subtle: u32,
    pub track: u32,
    pub accent_argb: u32,
    pub success: u32,
    pub warning: u32,
    pub danger: u32,
}

/// A `COLORREF` of red, green and blue.
pub open spec fn spec_rgb(r: int, g: int, b: int) -> int {
    r + g * 0x100 + b * 0x1_0000
}

/// An ARGB colour of alpha, red, green and blue.
pub open spec fn spec_argb(a: int, r: int, g: int, b: int) -> int {
    a * 0x100_0000 + r * 0x1_0000 + g * 0x100 + b
}

/// The Windows 11 palette of the popup, dark or light.
pub open spec fn spec_theme(dark: bool) -> Theme {
    if dark {
        Theme {
            dark: true,
            bg: spec_argb(255, 32, 32, 32) as u32,
            text: spec_rgb(255, 255, 255) as u32,
            muted: spec_rgb(211, 211, 211) as u32,
            subtle: spec_rgb(158, 158, 158) as u32,
            track: spec_rgb(64, 64, 64) as u32,
            accent_argb: spec_argb(255, 96, 205, 255) as u32,
            success: spec_rgb(108, 203, 95) as u32,
            warning: spec_rgb(252, 225, 0) as u32,
            danger: spec_rgb(255, 153, 164) as u32,
        }
    } else {
        Theme {
            dark: false,
            bg: spec_argb(255, 243, 243, 243) as u32,
            text: spec_rgb(26, 26, 26) as u32,
            muted: spec_rgb(82, 82, 82) as u32,
            subtle: spec_rgb(112, 112, 112) as u32,
            track: spec_rgb(221, 221, 221) as u32,
            accent_argb: spec_argb(255, 0, 103, 192) as u32,
            success: spec_rgb(15, 123, 15) as u32,
            warning: spec_rgb(157, 93, 0) as u32,
            danger: spec_rgb(196, 43, 28) as u32,
        }
    }
}

/// The palette for a dark or a light Windows theme.
pub fn theme(dark: bool) -> (r: Theme)
    ensures
        r == spec_theme(dark),
{
    if dark {
        Theme {
            dark: true,
            bg: argb(255, 32, 32, 32),
            text: rgb(255, 255, 255),
            muted: rgb(211, 211, 211),
            subtle: rgb(158, 158, 158),
            track: rgb(64, 64, 64),
            accent_argb: argb(255, 96, 205, 255),
            success: rgb(108, 203, 95),
            warning: rgb(252, 225, 0),
            danger: rgb(255, 153, 164),
        }
    } else {
        Theme {
            dark: false,
            bg: argb(255, 243, 243, 243),
            text: rgb(26, 26, 26),
            muted: rgb(82, 82, 82),
            subtle: rgb(112, 112, 112),
            track: rgb(221, 221, 221),
            accent_argb: argb(255, 0, 103, 192),
            success: rgb(15, 123, 15),
            warning: rgb(157, 93, 0),
            danger: rgb(196, 43, 28),
        }
    }
}

/// Where a popup of `w` by `h` opens at the mouse pointer `(x, y)` when the
/// tray icon cannot be located: its right edge `nudge` right of the pointer
/// (kept within the work area's width), its bottom `gap` above the pointer.
pub fn pointer_popup_origin(x: i32, y: i32, w: i32, h: i32, gap: i32, nudge: i32, work: WorkArea) -> (r: (i32, i32))
    requires
        work.left <= work.right - w,
        i32::MIN <= x - w <= i32::MAX,
        i32::MIN <= x - w + nudge <= i32::MAX,
        i32::MIN <= work.right - w <= i32::MAX,
        i32::MIN <= work.bottom - h <= i32::MAX,
        i32::MIN <= work.bottom - h - gap <= i32::MAX,
        i32::MIN <= y - h <= i32::MAX,
        i32::MIN <= y - h - gap <= i32::MAX,
    ensures
        r.0 == clamp(x - w + nudge, work.left as int, work.right - w),
        r.1 == clamp(y - h - gap, work.top as int, larger(work.bottom - h - gap, work.top as int)),
{
    let wanted = x - w + nudge;
    let max_x = work.right - w;
    let px = if wanted < work.left {
        work.left
    } else if wanted > max_x {
        max_x
    } else {
        wanted
    };
    (px, anchored_popup_y(y, h, work.top, work.bottom, gap))
}

} // verus!
