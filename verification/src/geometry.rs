use vstd::prelude::*;
use vstd::utf8::encode_utf8;
use crate::color::{color_fields_splittable, color_value, parse_hex_color, NEAR_BLACK};
use crate::settings::Settings;

verus! {

/// Width and height of the square overlay window, in pixels.
pub const OVERLAY_WINDOW_SIZE: i32 = 200;

/// An axis-aligned rectangle in window coordinates, right and bottom
/// exclusive, as GDI's `RECT`.
#[derive(Clone, Copy, PartialEq, Eq, Debug)]
pub struct Rect {
    pub left: i64,
    pub top: i64,
    pub right: i64,
    pub bottom: i64,
}

/// One `FillRect` of the paint: a rectangle and its solid colour
/// (`0x00BBGGRR`).
#[derive(Clone, Copy, PartialEq, Eq, Debug)]
pub struct Fill {
    pub rect: Rect,
    pub color: u32,
}

/// The colour of the background, which the window treats as transparent.
pub const BACKGROUND_COLOR: u32 = 0;

pub open spec fn in_i32(x: int) -> bool {
    i32::MIN <= x <= i32::MAX
}

/// All four sides fit in an `i32`, as in GDI's `RECT`.
pub open spec fn rect_in_i32(r: Rect) -> bool {
    in_i32(r.left as int) && in_i32(r.top as int) && in_i32(r.right as int) && in_i32(r.bottom as int)
}

/// Half of `x`, rounded towards zero (Rust's integer division by 2).
pub open spec fn half(x: int) -> int {
    if x >= 0 {
        x / 2
    } else {
        -((-x) / 2)
    }
}

pub open spec fn mk_rect(left: int, top: int, right: int, bottom: int) -> Rect {
    Rect { left: left as i64, top: top as i64, right: right as i64, bottom: bottom as i64 }
}

/// The rectangle grown by one pixel on every side.
pub open spec fn outline_of(r: Rect) -> Rect {
    mk_rect(r.left - 1, r.top - 1, r.right + 1, r.bottom + 1)
}

/// Horizontal centre of the client area.
pub open spec fn center_x(client: Rect) -> int {
    half(client.right - client.left)
}

/// Vertical centre of the client area.
pub open spec fn center_y(client: Rect) -> int {
    half(client.bottom - client.top)
}

/// Left edge of the vertical bar (the top and bottom arms).
pub open spec fn bar_left(client: Rect, s: Settings) -> int {
    center_x(client) - half(s.line_width as int)
}

/// Top edge of the horizontal bar (the left and right arms).
pub open spec fn bar_top(client: Rect, s: Settings) -> int {
    center_y(client) - half(s.line_width as int)
}

pub open spec fn left_arm(client: Rect, s: Settings) -> Rect {
    let vl = bar_left(client, s);
    let ht = bar_top(client, s);
    mk_rect(vl - s.gap - s.line_length + 1, ht, vl - s.gap + 1, ht + s.line_width)
}

pub open spec fn right_arm(client: Rect, s: Settings) -> Rect {
    let vr = bar_left(client, s) + s.line_width;
    let ht = bar_top(client, s);
    mk_rect(vr + s.gap - 1, ht, vr + s.gap - 1 + s.line_length, ht + s.line_width)
}

pub open spec fn top_arm(client: Rect, s: Settings) -> Rect {
    let vl = bar_left(client, s);
    let ht = bar_top(client, s);
    mk_rect(vl, ht - s.gap - s.line_length + 1, vl + s.line_width, ht - s.gap + 1)
}

pub open spec fn bottom_arm(client: Rect, s: Settings) -> Rect {
    let vl = bar_left(client, s);
    let hb = bar_top(client, s) + s.line_width;
    mk_rect(vl, hb + s.gap - 1, vl + s.line_width, hb + s.gap - 1 + s.line_length)
}

pub open spec fn center_dot(client: Rect, s: Settings) -> Rect {
    let l = center_x(client) - half(s.dot_size as int);
    let t = center_y(client) - half(s.dot_size as int);
    mk_rect(l, t, l + s.dot_size, t + s.dot_size)
}

/// The fills for one part of the crosshair: its near-black outline first
/// when outlines are on, then the part itself.
pub open spec fn part_fills(r: Rect, outline: bool, color: u32) -> Seq<Fill> {
    if outline {
        seq![Fill { rect: outline_of(r), color: NEAR_BLACK }, Fill { rect: r, color }]
    } else {
        seq![Fill { rect: r, color }]
    }
}

pub open spec fn part_if(on: bool, r: Rect, outline: bool, color: u32) -> Seq<Fill> {
    if on { part_fills(r, outline, color) } else { Seq::empty() }
}

/// The whole paint of the overlay's client area: the transparent background,
/// then, when the overlay is enabled, the crosshair in the configured colour:
/// left, right, top and bottom arms, then the centre dot, each only where the
/// settings ask for it.
pub open spec fn paint_fills(client: Rect, s: Settings) -> Seq<Fill> {
    let bg = seq![Fill { rect: client, color: BACKGROUND_COLOR }];
    if s.enabled {
        let c = color_value(encode_utf8(s.color@));
        let o = s.outline_enabled;
        bg + part_if(s.draw_left, left_arm(client, s), o, c)
            + part_if(s.draw_right, right_arm(client, s), o, c)
            + part_if(s.draw_top, top_arm(client, s), o, c)
            + part_if(s.draw_bottom, bottom_arm(client, s), o, c)
            + part_if(s.dot_enabled && s.dot_size > 0, center_dot(client, s), o, c)
    } else {
        bg
    }
}

fn halve(x: i64) -> (h: i64)
    requires
        -0x100_0000_0000 <= x <= 0x100_0000_0000,
    ensures
        h == half(x as int),
{
    if x >= 0 {
        x / 2
    } else {
        -((-x) / 2)
    }
}

fn push_part(fills: &mut Vec<Fill>, r: Rect, outline: bool, color: u32)
    requires
        rect_in_i64_margin(r),
    ensures
        final(fills)@ == old(fills)@ + part_fills(r, outline, color),
        color != 0 ==> forall|i: int| old(fills)@.len() <= i < final(fills)@.len() ==> final(fills)@[i].color != 0,
{
    if outline {
        let o = Rect { left: r.left - 1, top: r.top - 1, right: r.right + 1, bottom: r.bottom + 1 };
        fills.push(Fill { rect: o, color: NEAR_BLACK });
    }
    fills.push(Fill { rect: r, color });
    assert(fills@ =~= old(fills)@ + part_fills(r, outline, color));
}

fn crosshair_parts(client: Rect, s: &Settings) -> (parts: (Rect, Rect, Rect, Rect, Rect))
    requires
        rect_in_i32(client),
    ensures
        parts.0 == left_arm(client, *s),
        parts.1 == right_arm(client, *s),
        parts.2 == top_arm(client, *s),
        parts.3 == bottom_arm(client, *s),
        parts.4 == center_dot(client, *s),
        rect_in_i64_margin(parts.0),
        rect_in_i64_margin(parts.1),
        rect_in_i64_margin(parts.2),
        rect_in_i64_margin(parts.3),
        rect_in_i64_margin(parts.4),
{
    let cx = halve(client.right - client.left);
    let cy = halve(client.bottom - client.top);
    let lw = s.line_width as i64;
    let len = s.line_length as i64;
    let gap = s.gap as i64;
    let ds = s.dot_size as i64;
    let vl_left = cx - halve(lw);
    let vl_right = vl_left + lw;
    let hl_top = cy - halve(lw);
    let hl_bottom = hl_top + lw;
    let left = Rect { left: vl_left - gap - len + 1, top: hl_top, right: vl_left - gap + 1, bottom: hl_bottom };
    let right = Rect { left: vl_right + gap - 1, top: hl_top, right: vl_right + gap - 1 + len, bottom: hl_bottom };
    let top = Rect { left: vl_left, top: hl_top - gap - len + 1, right: vl_right, bottom: hl_top - gap + 1 };
    let bottom = Rect { left: vl_left, top: hl_bottom + gap - 1, right: vl_right, bottom: hl_bottom + gap - 1 + len };
    let dl = cx - halve(ds);
    let dt = cy - halve(ds);
    let dot = Rect { left: dl, top: dt, right: dl + ds, bottom: dt + ds };
    (left, right, top, bottom, dot)
}

fn push_part_if(fills: &mut Vec<Fill>, on: bool, r: Rect, outline: bool, color: u32)
    requires
        rect_in_i64_margin(r),
    ensures
        final(fills)@ == old(fills)@ + part_if(on, r, outline, color),
        color != 0 ==> forall|i: int| old(fills)@.len() <= i < final(fills)@.len() ==> final(fills)@[i].color != 0,
{
    if on {
        push_part(fills, r, outline, color);
    } else {
        assert(fills@ =~= old(fills)@ + part_if(on, r, outline, color));
    }
}

/// Far enough from the ends of `i64` that growing it by a pixel cannot
/// overflow.
pub open spec fn rect_in_i64_margin(r: Rect) -> bool {
    -0x100_0000_0000 <= r.left <= 0x100_0000_0000 && -0x100_0000_0000 <= r.top <= 0x100_0000_0000
        && -0x100_0000_0000 <= r.right <= 0x100_0000_0000 && -0x100_0000_0000 <= r.bottom <= 0x100_0000_0000
}

/// The fills that paint the overlay's client area `client` for settings `s`
/// (see `paint_fills`). Coordinates are exact; nothing wraps.
pub fn paint_plan(client: Rect, s: &Settings) -> (fills: Vec<Fill>)
    requires
        rect_in_i32(client),
        s.enabled ==> color_fields_splittable(encode_utf8(s.color@)),
    ensures
        fills@ == paint_fills(client, *s),
        fills@[0] == (Fill { rect: client, color: BACKGROUND_COLOR }),
        forall|i: int| 1 <= i < fills@.len() ==> fills@[i].color != BACKGROUND_COLOR,
{
    let mut fills: Vec<Fill> = Vec::new();
    fills.push(Fill { rect: client, color: BACKGROUND_COLOR });
    if !s.enabled {
        assert(fills@ =~= paint_fills(client, *s));
        return fills;
    }
    let color = parse_hex_color(s.color.as_str());
    let (left, right, top, bottom, dot) = crosshair_parts(client, s);
    let outline = s.outline_enabled;
    push_part_if(&mut fills, s.draw_left, left, outline, color);
    push_part_if(&mut fills, s.draw_right, right, outline, color);
    push_part_if(&mut fills, s.draw_top, top, outline, color);
    push_part_if(&mut fills, s.draw_bottom, bottom, outline, color);
    push_part_if(&mut fills, s.dot_enabled && s.dot_size > 0, dot, outline, color);
    fills
}

/// Where the overlay window's top-left corner goes on a monitor whose area
/// is `monitor`: centred, then moved by the configured offset.
pub open spec fn overlay_origin_of(monitor: Rect, offset_x: int, offset_y: int) -> (int, int) {
    (monitor.left + half(monitor.right - monitor.left - OVERLAY_WINDOW_SIZE) + offset_x,
     monitor.top + half(monitor.bottom - monitor.top - OVERLAY_WINDOW_SIZE) + offset_y)
}

/// The overlay window's top-left corner on `monitor` (see
/// `overlay_origin_of`), exactly.
pub fn overlay_origin(monitor: Rect, offset_x: i32, offset_y: i32) -> (pos: (i64, i64))
    requires
        rect_in_i32(monitor),
    ensures
        pos.0 == overlay_origin_of(monitor, offset_x as int, offset_y as int).0,
        pos.1 == overlay_origin_of(monitor, offset_x as int, offset_y as int).1,
{
    let x = monitor.left + halve(monitor.right - monitor.left - OVERLAY_WINDOW_SIZE as i64) + offset_x as i64;
    let y = monitor.top + halve(monitor.bottom - monitor.top - OVERLAY_WINDOW_SIZE as i64) + offset_y as i64;
    (x, y)
}

} // verus!
