//! Rendering of the editor shapes whose geometry is in whole pixels:
//! text callouts, redaction, highlight boxes, ovals, step markers and the
//! spotlight.

use vstd::prelude::*;
use crate::canvas::{Rgba, RgbaCanvas, TextStamp, vertical_ends_painted, lemma_only_painted_trans, rect_exact, outline_painted, pixel_at, in_image, in_rect, map_pixels, lemma_map_pixels,
    lemma_map_pixels_at, drawable, rect_drawable, circle_ok, disc_ok, ellipse_ok, only_painted,
    hollow_rect_drawn, filled_circle_drawn, hollow_ellipse_drawn, draw_hollow_rect, draw_filled_rect,
    draw_filled_circle, draw_hollow_ellipse, on_rect_outline, lemma_outline_painted_at};
use crate::editor::AnnotationShape;
use crate::text::{dec_digits, u64_to_text, chars_of, trim_chars, trim_ws, trim_start_by, trim_end_by,
    is_white_space, owned};
use vstd::arithmetic::div_mod::lemma_fundamental_div_mod_converse;

verus! {

/// `w` read as an `i32`, as `w as i32` does: wrapped past `i32::MAX`.
pub open spec fn as_i32(w: u32) -> int {
    if w <= 0x7fff_ffff { w as int } else { w - 0x1_0000_0000 }
}

/// `v / 2` rounded toward zero, as `i32` division does.
pub open spec fn half_i32(v: int) -> int {
    if v >= 0 { v / 2 } else { -((-v) / 2) }
}

/// `w as i32`.
pub fn wrap_i32(w: u32) -> (r: i32)
    ensures
        r == as_i32(w),
{
    if w <= 0x7fff_ffff {
        w as i32
    } else {
        ((w - 0x8000_0000) as i32) - 0x7fff_ffff - 1
    }
}

/// The colour of the ring around a step marker.
pub open spec fn white_ring() -> Rgba {
    Rgba { r: 255, g: 255, b: 255, a: 240 }
}

/// The colour of a step marker's number.
pub open spec fn black() -> Rgba {
    Rgba { r: 0, g: 0, b: 0, a: 255 }
}

/// The image after a step marker at `(x, y)`: a disc of radius 18 and a
/// white ring of radius 19.
pub open spec fn step_marker_drawn(d: Seq<u8>, w: u32, h: u32, x: i32, y: i32, color: Rgba) -> Seq<u8> {
    let disc = filled_circle_drawn(d, w, h, x, y, 18, color);
    hollow_ellipse_drawn(disc, w, h, x, y, 19, 19, white_ring())
}

/// The number of step marker `num` centred on `(x, y)`: black, 20 pixels
/// high, starting 10 pixels left of the centre for two or more digits and
/// 5 for one, and 9 pixels above it.
pub open spec fn step_label(x: i32, y: i32, num: u32) -> (i32, i32, u32, Rgba, Seq<char>) {
    let offset: int = if num >= 10 { 10 } else { 5 };
    ((x - offset) as i32, (y - 9) as i32, 20, black(), dec_digits(num as nat))
}

/// The geometry of a step marker can be computed and drawn.
pub open spec fn step_ok(x: i32, y: i32) -> bool {
    &&& disc_ok(x as int, y as int, 18)
    &&& circle_ok(x as int, y as int, 19)
    &&& x - 10 >= i32::MIN
    &&& y - 9 >= i32::MIN
}

/// Draws a step marker centred on `(x, y)` and gives back its number, to be
/// written over it.
pub fn render_step_number(canvas: &mut RgbaCanvas, x: i32, y: i32, num: u32, color: Rgba) -> (label: TextStamp)
    requires
        drawable(old(canvas)),
        step_ok(x, y),
    ensures
        drawable(final(canvas)),
        final(canvas).width == old(canvas).width,
        final(canvas).height == old(canvas).height,
        final(canvas).data@ == step_marker_drawn(old(canvas).data@, old(canvas).width, old(canvas).height,
            x, y, color),
        label.spec_parts() == step_label(x, y, num),
{
    draw_filled_circle(canvas, x, y, 18, color);
    draw_hollow_ellipse(canvas, x, y, 19, 19, Rgba { r: 255, g: 255, b: 255, a: 240 });
    let text = u64_to_text(num as u64);
    let offset_x: i32 = if num >= 10 { 10 } else { 5 };
    TextStamp { x: x - offset_x, y: y - 9, scale: 20, color: Rgba { r: 0, g: 0, b: 0, a: 255 }, text }
}

/// Outline `t` of a highlight box: inset by `t` pixels (not past the image
/// origin), at least one pixel wide and high.
pub open spec fn highlight_rect(x: int, y: int, w: u32, h: u32, t: int) -> (int, int, int, int) {
    let ax = if x + t > 0 { x + t } else { 0 };
    let ay = if y + t > 0 { y + t } else { 0 };
    let aw = if as_i32(w) - 2 * t > 1 { as_i32(w) - 2 * t } else { 1 };
    let ah = if as_i32(h) - 2 * t > 1 { as_i32(h) - 2 * t } else { 1 };
    (ax, ay, aw, ah)
}

/// The image after the first `n` outlines of a highlight box.
pub open spec fn highlight_drawn(d: Seq<u8>, cw: u32, ch: u32, x: int, y: int, w: u32, h: u32, color: Rgba, n: nat) -> Seq<u8>
    decreases n,
{
    if n == 0 {
        d
    } else {
        let prev = highlight_drawn(d, cw, ch, x, y, w, h, color, (n - 1) as nat);
        let (ax, ay, aw, ah) = highlight_rect(x, y, w, h, n - 1);
        hollow_rect_drawn(prev, cw, ch, ax as i32, ay as i32, aw as u32, ah as u32, color)
    }
}

/// The image after the first `n` outlines of a highlight box, each painted
/// exactly in `color`.
pub open spec fn highlight_outlines(d: Seq<u8>, cw: u32, x: int, y: int, w: u32, h: u32, color: Rgba, n: nat) -> Seq<u8>
    decreases n,
{
    if n == 0 {
        d
    } else {
        let prev = highlight_outlines(d, cw, x, y, w, h, color, (n - 1) as nat);
        let (ax, ay, aw, ah) = highlight_rect(x, y, w, h, n - 1);
        outline_painted(prev, cw, ax, ay, aw, ah, color)
    }
}

/// Outline `t` of a highlight box and the image size are held exactly by
/// single-precision floats.
pub open spec fn highlight_step_exact(x: i32, y: i32, w: u32, h: u32, t: int, cw: u32, ch: u32) -> bool {
    let (ax, ay, aw, ah) = highlight_rect(x as int, y as int, w, h, t);
    rect_exact(ax, ay, aw, ah, cw, ch)
}

/// Every outline of a highlight box `thickness` thick is held exactly by
/// single-precision floats (coordinates within 2^24).
pub open spec fn highlight_exact(x: i32, y: i32, w: u32, h: u32, thickness: i32, cw: u32, ch: u32) -> bool {
    forall|t: int| 0 <= t < thickness ==> #[trigger] highlight_step_exact(x, y, w, h, t, cw, ch)
}

/// Each outline of a highlight box sits one pixel further in: the top-left
/// pixel of outline `t`, at `(x + t, y + t)`, is painted in `color`, and
/// later outlines leave it so.
pub proof fn lemma_highlight_steps_in(d: Seq<u8>, cw: u32, ch: u32, x: int, y: int, w: u32, h: u32,
    color: Rgba, n: nat, t: int)
    requires
        d.len() == 4 * cw * ch,
        0 <= t < n,
        x + t >= 0,
        y + t >= 0,
        in_image(cw as nat, ch as nat, x + t, y + t),
    ensures
        pixel_at(highlight_outlines(d, cw, x, y, w, h, color, n), cw as nat, x + t, y + t) == color,
        highlight_outlines(d, cw, x, y, w, h, color, n).len() == d.len(),
    decreases n,
{
    let prev = highlight_outlines(d, cw, x, y, w, h, color, (n - 1) as nat);
    if n > 1 {
        lemma_highlight_outlines_len(d, cw, x, y, w, h, color, (n - 1) as nat);
    }
    assert(prev.len() == d.len());
    let (ax, ay, aw, ah) = highlight_rect(x, y, w, h, n - 1);
    lemma_outline_painted_at(prev, cw, ch, ax, ay, aw, ah, color, x + t, y + t);
    if t < n - 1 {
        lemma_highlight_steps_in(d, cw, ch, x, y, w, h, color, (n - 1) as nat, t);
    }
}

/// Painting outlines keeps the image's size.
proof fn lemma_highlight_outlines_len(d: Seq<u8>, cw: u32, x: int, y: int, w: u32, h: u32, color: Rgba, n: nat)
    ensures
        highlight_outlines(d, cw, x, y, w, h, color, n).len() == d.len(),
    decreases n,
{
    if n > 0 {
        lemma_highlight_outlines_len(d, cw, x, y, w, h, color, (n - 1) as nat);
    }
}

/// The image after a highlight box `thickness` pixels thick (nothing for
/// an empty box).
pub open spec fn highlight_box_drawn(d: Seq<u8>, cw: u32, ch: u32, x: i32, y: i32, w: u32, h: u32, color: Rgba, thickness: i32) -> Seq<u8> {
    if w > 0 && h > 0 && thickness > 0 {
        highlight_drawn(d, cw, ch, x as int, y as int, w, h, color, thickness as nat)
    } else {
        d
    }
}

/// Every outline of the highlight box can be computed in `i32` and drawn.
pub open spec fn highlight_ok(x: i32, y: i32, w: u32, h: u32, thickness: i32) -> bool {
    w > 0 && h > 0 ==> forall|t: int| 0 <= t < thickness ==> #[trigger] highlight_step_ok(x, y, w, h, t)
}

/// Outline `t` of a highlight box can be computed in `i32` and drawn.
pub open spec fn highlight_step_ok(x: i32, y: i32, w: u32, h: u32, t: int) -> bool {
    let (ax, ay, aw, ah) = highlight_rect(x as int, y as int, w, h, t);
    &&& x + t <= i32::MAX
    &&& y + t <= i32::MAX
    &&& 2 * t <= i32::MAX
    &&& as_i32(w) - 2 * t >= i32::MIN
    &&& as_i32(h) - 2 * t >= i32::MIN
    &&& rect_drawable(ax, ay, aw, ah)
}

/// Draws a highlight box: `thickness` nested outlines, the outer one the
/// box `w` by `h` at `(x, y)`.
pub fn render_highlight_box(canvas: &mut RgbaCanvas, x: i32, y: i32, w: u32, h: u32, color: Rgba, thickness: i32)
    requires
        drawable(old(canvas)),
        highlight_ok(x, y, w, h, thickness),
    ensures
        drawable(final(canvas)),
        final(canvas).width == old(canvas).width,
        final(canvas).height == old(canvas).height,
        final(canvas).data@ == highlight_box_drawn(old(canvas).data@, old(canvas).width, old(canvas).height,
            x, y, w, h, color, thickness),
        only_painted(old(canvas).data@, final(canvas).data@, old(canvas).width as nat,
            old(canvas).height as nat, color),
        w > 0 && h > 0 && thickness > 0 && highlight_exact(x, y, w, h, thickness, old(canvas).width,
            old(canvas).height) ==> final(canvas).data@ == highlight_outlines(old(canvas).data@,
            old(canvas).width, x as int, y as int, w, h, color, thickness as nat),
{
    if w > 0 && h > 0 {
        let ghost cw = canvas.width;
        let ghost ch = canvas.height;
        let ghost before = canvas.data@;
        let wi = wrap_i32(w);
        let hi = wrap_i32(h);
        let mut t: i32 = 0;
        while t < thickness
            invariant
                drawable(canvas),
                canvas.width == cw,
                canvas.height == ch,
                0 <= t <= (if thickness > 0 { thickness } else { 0 }),
                w > 0 && h > 0,
                wi == as_i32(w),
                hi == as_i32(h),
                highlight_ok(x, y, w, h, thickness),
                canvas.data@ == highlight_drawn(before, cw, ch, x as int, y as int, w, h, color, t as nat),
                before.len() == 4 * cw * ch,
                only_painted(before, canvas.data@, cw as nat, ch as nat, color),
                highlight_exact(x, y, w, h, thickness, cw, ch) ==> canvas.data@
                    == highlight_outlines(before, cw, x as int, y as int, w, h, color, t as nat),
            decreases thickness - t,
        {
            assert(highlight_step_ok(x, y, w, h, t as int));
            let ax = if x + t > 0 { x + t } else { 0 };
            let ay = if y + t > 0 { y + t } else { 0 };
            let aw = if wi - t * 2 > 1 { wi - t * 2 } else { 1 };
            let ah = if hi - t * 2 > 1 { hi - t * 2 } else { 1 };
            let ghost prev = canvas.data@;
            proof {
                if highlight_exact(x, y, w, h, thickness, cw, ch) {
                    assert(highlight_step_exact(x, y, w, h, t as int, cw, ch));
                }
            }
            draw_hollow_rect(canvas, ax, ay, aw as u32, ah as u32, color);
            proof { lemma_only_painted_trans(before, prev, canvas.data@, cw as nat, ch as nat, color); }
            t = t + 1;
        }
    }
}

/// The image after the first `n` rings of an oval: ring `t` has radii
/// `rx - t` and `ry - t`, at least 1.
pub open spec fn oval_drawn(d: Seq<u8>, cw: u32, ch: u32, cx: int, cy: int, rx: int, ry: int, color: Rgba, n: nat) -> Seq<u8>
    decreases n,
{
    if n == 0 {
        d
    } else {
        let t = n - 1;
        let prev = oval_drawn(d, cw, ch, cx, cy, rx, ry, color, (n - 1) as nat);
        let a = if rx - t > 1 { rx - t } else { 1 };
        let b = if ry - t > 1 { ry - t } else { 1 };
        hollow_ellipse_drawn(prev, cw, ch, cx as i32, cy as i32, a as i32, b as i32, color)
    }
}

/// The radius of an oval along a side of length `w`: half of it, at least 1.
pub open spec fn oval_radius(w: u32) -> int {
    if half_i32(as_i32(w)) > 1 { half_i32(as_i32(w)) } else { 1 }
}

/// The image after the oval inscribed in the box `w` by `h` at `(x, y)`,
/// `thickness` rings thick.
pub open spec fn oval_shape_drawn(d: Seq<u8>, cw: u32, ch: u32, x: i32, y: i32, w: u32, h: u32, color: Rgba, thickness: i32) -> Seq<u8> {
    if w > 0 && h > 0 && thickness > 0 {
        oval_drawn(d, cw, ch, x + half_i32(as_i32(w)), y + half_i32(as_i32(h)), oval_radius(w), oval_radius(h),
            color, thickness as nat)
    } else {
        d
    }
}

/// The oval's centre fits in `i32`, and, when a ring is drawn, its radii
/// can be squared in `i32` and every point of every ring fits in `i32`.
pub open spec fn oval_ok(x: i32, y: i32, w: u32, h: u32, thickness: i32) -> bool {
    w > 0 && h > 0 ==> {
        let cx = x + half_i32(as_i32(w));
        let cy = y + half_i32(as_i32(h));
        let reach = oval_radius(w) + oval_radius(h) + 2;
        &&& i32::MIN <= cx <= i32::MAX
        &&& i32::MIN <= cy <= i32::MAX
        &&& thickness > 0 ==> {
            &&& oval_radius(w) <= 46340
            &&& oval_radius(h) <= 46340
            &&& i32::MIN <= cx - reach && cx + reach <= i32::MAX
            &&& i32::MIN <= cy - reach && cy + reach <= i32::MAX
        }
    }
}

/// The radius of ring `t` of an oval along an axis of radius `r`: `t`
/// pixels in, at least 1.
pub open spec fn ring_radius(r: int, t: int) -> int {
    if r - t > 1 { r - t } else { 1 }
}

/// The top and bottom of ring `t` of the oval in the box `w` by `h` at
/// `(x, y)` are `color` in `d`, where they lie in the image.
pub open spec fn oval_ring_ends_painted(d: Seq<u8>, cw: u32, ch: u32, x: i32, y: i32, w: u32, h: u32, color: Rgba, t: int) -> bool {
    vertical_ends_painted(d, cw, ch, x + half_i32(as_i32(w)), y + half_i32(as_i32(h)),
        ring_radius(oval_radius(h), t), color)
}

/// Draws the oval inscribed in the box `w` by `h` at `(x, y)`.
pub fn render_oval(canvas: &mut RgbaCanvas, x: i32, y: i32, w: u32, h: u32, color: Rgba, thickness: i32)
    requires
        drawable(old(canvas)),
        oval_ok(x, y, w, h, thickness),
    ensures
        drawable(final(canvas)),
        final(canvas).width == old(canvas).width,
        final(canvas).height == old(canvas).height,
        final(canvas).data@ == oval_shape_drawn(old(canvas).data@, old(canvas).width, old(canvas).height,
            x, y, w, h, color, thickness),
        only_painted(old(canvas).data@, final(canvas).data@, old(canvas).width as nat,
            old(canvas).height as nat, color),
        w > 0 && h > 0 ==> forall|t: int| 0 <= t < thickness ==> #[trigger] oval_ring_ends_painted(
            final(canvas).data@, old(canvas).width, old(canvas).height, x, y, w, h, color, t),
{
    if w > 0 && h > 0 {
        let ghost cw = canvas.width;
        let ghost ch = canvas.height;
        let ghost before = canvas.data@;
        let hw = wrap_i32(w) / 2;
        let hh = wrap_i32(h) / 2;
        let cx = x + hw;
        let cy = y + hh;
        let rx = if hw > 1 { hw } else { 1 };
        let ry = if hh > 1 { hh } else { 1 };
        let mut t: i32 = 0;
        while t < thickness
            invariant
                drawable(canvas),
                canvas.width == cw,
                canvas.height == ch,
                0 <= t <= (if thickness > 0 { thickness } else { 0 }),
                thickness > 0 ==> rx <= 46340 && ry <= 46340
                    && i32::MIN <= cx - (rx + ry + 2) && cx + (rx + ry + 2) <= i32::MAX
                    && i32::MIN <= cy - (rx + ry + 2) && cy + (rx + ry + 2) <= i32::MAX,
                before.len() == 4 * cw * ch,
                only_painted(before, canvas.data@, cw as nat, ch as nat, color),
                1 <= rx,
                1 <= ry,
                rx == oval_radius(w),
                ry == oval_radius(h),
                cx == x + half_i32(as_i32(w)),
                cy == y + half_i32(as_i32(h)),
                forall|k: int| 0 <= k < t ==> #[trigger] oval_ring_ends_painted(
                    canvas.data@, cw, ch, x, y, w, h, color, k),
                canvas.data@ == oval_drawn(before, cw, ch, cx as int, cy as int, rx as int, ry as int, color, t as nat),
            decreases thickness - t,
        {
            let a = if rx - t > 1 { rx - t } else { 1 };
            let b = if ry - t > 1 { ry - t } else { 1 };
            let ghost prev = canvas.data@;
            draw_hollow_ellipse(canvas, cx, cy, a, b, color);
            proof {
                lemma_only_painted_trans(before, prev, canvas.data@, cw as nat, ch as nat, color);
                assert forall|k: int| 0 <= k < t + 1 implies #[trigger] oval_ring_ends_painted(
                    canvas.data@, cw, ch, x, y, w, h, color, k) by {
                    if k < t {
                        assert(oval_ring_ends_painted(prev, cw, ch, x, y, w, h, color, k));
                        let bk = ring_radius(oval_radius(h), k);
                        if in_image(cw as nat, ch as nat, cx as int, cy - bk) {
                            assert(pixel_at(canvas.data@, cw as nat, cx as int, cy - bk) == pixel_at(prev, cw as nat, cx as int, cy - bk)
                                || pixel_at(canvas.data@, cw as nat, cx as int, cy - bk) == color);
                        }
                        if in_image(cw as nat, ch as nat, cx as int, cy + bk) {
                            assert(pixel_at(canvas.data@, cw as nat, cx as int, cy + bk) == pixel_at(prev, cw as nat, cx as int, cy + bk)
                                || pixel_at(canvas.data@, cw as nat, cx as int, cy + bk) == color);
                        }
                    } else {
                        assert(b as int == ring_radius(oval_radius(h), k));
                    }
                }
            }
            t = t + 1;
        }
    }
}

/// The text a callout shows: its own, or "Callout" when it is blank.
pub open spec fn callout_text(text: Seq<char>) -> Seq<char> {
    if trim_ws(text).len() == 0 { "Callout"@ } else { text }
}

/// The width of a callout's background for `n` characters: 9 pixels a
/// character plus 20, at most 400.
pub open spec fn callout_width(n: nat) -> int {
    let c: int = if n > 1 { n as int } else { 1 };
    if c * 9 + 20 < 400 { c * 9 + 20 } else { 400 }
}

/// The colour of a callout's background.
pub open spec fn callout_background() -> Rgba {
    Rgba { r: 8, g: 12, b: 20, a: 235 }
}

/// The corner of a callout's background: 8 pixels up and left of the
/// text, clamped to the image origin.
pub open spec fn callout_corner(x: i32, y: i32) -> (int, int) {
    (if x - 8 > 0 { x - 8 } else { 0 }, if y - 8 > 0 { y - 8 } else { 0 })
}

/// The image after a text callout at `(x, y)`, before its text: a dark box
/// from the callout's corner, as wide as the text asks and 34 pixels high,
/// outlined in the callout's colour.
pub open spec fn callout_drawn(d: Seq<u8>, w: u32, h: u32, x: i32, y: i32, text: Seq<char>, color: Rgba) -> Seq<u8> {
    let t = callout_text(text);
    let (bx, by) = callout_corner(x, y);
    let tw = callout_width(t.len());
    let filled = map_pixels(d, w as nat, |px: int, py: int, p: Rgba| if in_rect(px, py, bx, by, tw, 34) {
        callout_background()
    } else {
        p
    });
    hollow_rect_drawn(filled, w, h, bx as i32, by as i32, tw as u32, 34, color)
}

/// The callout's corner can be computed in `i32` and its box drawn.
pub open spec fn callout_ok(x: i32, y: i32, text: Seq<char>) -> bool {
    let (bx, by) = callout_corner(x, y);
    &&& x - 8 >= i32::MIN
    &&& y - 8 >= i32::MIN
    &&& rect_drawable(bx, by, callout_width(callout_text(text).len()), 34)
}

/// Draws a text callout's background and frame at `(x, y)` and gives back
/// the text to write over it: 16 pixels high, in the callout's colour.
pub fn render_text_callout(canvas: &mut RgbaCanvas, x: i32, y: i32, text: &str, color: Rgba) -> (label: TextStamp)
    requires
        drawable(old(canvas)),
        callout_ok(x, y, text@),
    ensures
        drawable(final(canvas)),
        final(canvas).width == old(canvas).width,
        final(canvas).height == old(canvas).height,
        final(canvas).data@ == callout_drawn(old(canvas).data@, old(canvas).width, old(canvas).height,
            x, y, text@, color),
        label.spec_parts() == (x, y, 16u32, color, callout_text(text@)),
{
    let cs = chars_of(text);
    let trimmed = trim_chars(cs.as_slice(), false);
    let display: &str = if trimmed.len() == 0 { "Callout" } else { text };
    proof { reveal_strlit("Callout"); }
    let n = display.unicode_len();
    let text_width: i32 = if n > 42 { 400 } else if n > 1 { (n as i32) * 9 + 20 } else { 29 };
    let bx = if x - 8 > 0 { x - 8 } else { 0 };
    let by = if y - 8 > 0 { y - 8 } else { 0 };
    draw_filled_rect(canvas, bx, by, text_width as u32, 34, Rgba { r: 8, g: 12, b: 20, a: 235 });
    draw_hollow_rect(canvas, bx, by, text_width as u32, 34, color);
    TextStamp { x, y, scale: 16, color, text: owned(display) }
}

/// A blank callout is drawn exactly as one that says "Callout".
pub proof fn lemma_blank_callout(d: Seq<u8>, w: u32, h: u32, x: i32, y: i32, text: Seq<char>, color: Rgba)
    requires
        trim_ws(text).len() == 0,
    ensures
        callout_text(text) == callout_text("Callout"@),
        callout_ok(x, y, text) == callout_ok(x, y, "Callout"@),
        callout_drawn(d, w, h, x, y, text, color) == callout_drawn(d, w, h, x, y, "Callout"@, color),
{
    reveal_strlit("Callout");
    let c = "Callout"@;
    let p = |ch: char| is_white_space(ch);
    assert(!is_white_space(c[0]));
    assert(trim_start_by(c, p) == c);
    assert(!is_white_space(c.last()));
    assert(trim_end_by(c, p) == c);
    assert(trim_ws(c) == c);
}


/// `v` read as a `u32`, as `v as u32` does for an `i32`.
pub open spec fn as_u32(v: int) -> int {
    if v < 0 { v + 0x1_0000_0000 } else { v }
}

/// A channel at a quarter, alpha kept.
pub open spec fn quarter(p: Rgba) -> Rgba {
    Rgba { r: p.r / 4, g: p.g / 4, b: p.b / 4, a: p.a }
}

/// The lit area of a spotlight on the box `w` by `h` at `(x, y)`:
/// columns `x1 <= px < x2` and rows `y1 <= py < y2`, with the far edges
/// computed in `i32`, clipped to the image and read back as `u32`.
pub open spec fn spotlight_area(cw: u32, ch: u32, x: i32, y: i32, w: u32, h: u32) -> (int, int, int, int) {
    let x1: int = if x > 0 { x as int } else { 0 };
    let y1: int = if y > 0 { y as int } else { 0 };
    let xe = x + as_i32(w);
    let ye = y + as_i32(h);
    let x2 = as_u32(if xe < cw { xe } else { cw as int });
    let y2 = as_u32(if ye < ch { ye } else { ch as int });
    (x1, y1, x2, y2)
}

/// The colour of a spotlight's frame.
pub open spec fn spotlight_frame() -> Rgba {
    Rgba { r: 255, g: 255, b: 255, a: 220 }
}

/// The image after a spotlight: everything outside the lit area at a
/// quarter of its brightness, and the lit area outlined in white.
pub open spec fn spotlight_drawn(d: Seq<u8>, cw: u32, ch: u32, x: i32, y: i32, w: u32, h: u32) -> Seq<u8> {
    let (x1, y1, x2, y2) = spotlight_area(cw, ch, x, y, w, h);
    let dimmed = map_pixels(d, cw as nat, |px: int, py: int, p: Rgba|
        if x1 <= px < x2 && y1 <= py < y2 { p } else { quarter(p) });
    if x2 > x1 && y2 > y1 {
        hollow_rect_drawn(dimmed, cw, ch, x1 as i32, y1 as i32, (x2 - x1) as u32, (y2 - y1) as u32, spotlight_frame())
    } else {
        dimmed
    }
}

/// The far edges fit in `i32`, and the outline, when drawn, can be.
pub open spec fn spotlight_ok(cw: u32, ch: u32, x: i32, y: i32, w: u32, h: u32) -> bool {
    let (x1, y1, x2, y2) = spotlight_area(cw, ch, x, y, w, h);
    &&& i32::MIN <= x + as_i32(w) <= i32::MAX
    &&& i32::MIN <= y + as_i32(h) <= i32::MAX
    &&& (x2 > x1 && y2 > y1) ==> rect_drawable(x1, y1, x2 - x1, y2 - y1)
}

/// Draws a spotlight on the box `w` by `h` at `(x, y)`.
pub fn render_spotlight(canvas: &mut RgbaCanvas, x: i32, y: i32, w: u32, h: u32)
    requires
        drawable(old(canvas)),
        spotlight_ok(old(canvas).width, old(canvas).height, x, y, w, h),
    ensures
        drawable(final(canvas)),
        final(canvas).width == old(canvas).width,
        final(canvas).height == old(canvas).height,
        final(canvas).data@ == spotlight_drawn(old(canvas).data@, old(canvas).width, old(canvas).height, x, y, w, h),
{
    let ghost cw = canvas.width as nat;
    let ghost ch = canvas.height as nat;
    let ghost before = canvas.data@;
    let ghost area = spotlight_area(canvas.width, canvas.height, x, y, w, h);
    let img_w = canvas.width;
    let img_h = canvas.height;
    let x1: u32 = if x > 0 { x as u32 } else { 0 };
    let y1: u32 = if y > 0 { y as u32 } else { 0 };
    let xe = x + wrap_i32(w);
    let ye = y + wrap_i32(h);
    let xc = if xe < img_w as i32 { xe } else { img_w as i32 };
    let yc = if ye < img_h as i32 { ye } else { img_h as i32 };
    let x2: u32 = if xc < 0 { (xc as i64 + 0x1_0000_0000) as u32 } else { xc as u32 };
    let y2: u32 = if yc < 0 { (yc as i64 + 0x1_0000_0000) as u32 } else { yc as u32 };
    assert(area == (x1 as int, y1 as int, x2 as int, y2 as int));
    let mut px: u32 = 0;
    while px < img_w
        invariant
            drawable(canvas),
            canvas.width == cw,
            canvas.height == ch,
            img_w == cw,
            img_h == ch,
            before.len() == 4 * cw * ch,
            px <= img_w,
            forall|qx: int, qy: int| in_image(cw, ch, qx, qy) ==> #[trigger] pixel_at(canvas.data@, cw, qx, qy)
                == if qx < px && !(x1 <= qx < x2 && y1 <= qy < y2) {
                    quarter(pixel_at(before, cw, qx, qy))
                } else {
                    pixel_at(before, cw, qx, qy)
                },
        decreases img_w - px,
    {
        let mut py: u32 = 0;
        while py < img_h
            invariant
                drawable(canvas),
                canvas.width == cw,
                canvas.height == ch,
                img_w == cw,
                img_h == ch,
                px < img_w,
                py <= img_h,
                forall|qx: int, qy: int| in_image(cw, ch, qx, qy) ==> #[trigger] pixel_at(canvas.data@, cw, qx, qy)
                    == if (qx < px || (qx == px && qy < py)) && !(x1 <= qx < x2 && y1 <= qy < y2) {
                        quarter(pixel_at(before, cw, qx, qy))
                    } else {
                        pixel_at(before, cw, qx, qy)
                    },
            decreases img_h - py,
        {
            let in_spotlight = px >= x1 && px < x2 && py >= y1 && py < y2;
            if !in_spotlight {
                let p = canvas.get_pixel(px, py);
                canvas.put_pixel(px, py, Rgba { r: p.r / 4, g: p.g / 4, b: p.b / 4, a: p.a });
            }
            py = py + 1;
        }
        px = px + 1;
    }
    proof {
        let f = |qx: int, qy: int, p: Rgba| if x1 <= qx < x2 && y1 <= qy < y2 { p } else { quarter(p) };
        assert forall|qx: int, qy: int| in_image(cw, ch, qx, qy) implies
            #[trigger] pixel_at(canvas.data@, cw, qx, qy) == f(qx, qy, pixel_at(before, cw, qx, qy)) by {
        }
        lemma_map_pixels(before, canvas.data@, cw, ch, f);
    }
    if x2 > x1 && y2 > y1 {
        draw_hollow_rect(canvas, x1 as i32, y1 as i32, x2 - x1, y2 - y1, Rgba { r: 255, g: 255, b: 255, a: 220 });
    }
}


/// The first pixel, along one axis, of the 10-pixel block that `v` falls in,
/// blocks starting at `v0`.
pub open spec fn block_start(v: int, v0: int) -> int {
    v0 + 10 * ((v - v0) / 10)
}

/// The redacted area of the box `w` by `h` at `(x, y)`: from the box's
/// corner clamped to the origin to its far edges clipped to the image.
pub open spec fn redact_area(cw: u32, ch: u32, x: i32, y: i32, w: u32, h: u32) -> (int, int, int, int) {
    let x0: int = if x > 0 { x as int } else { 0 };
    let y0: int = if y > 0 { y as int } else { 0 };
    let xe = x + as_i32(w);
    let ye = y + as_i32(h);
    let x2: int = if xe < cw { xe } else { cw as int };
    let y2: int = if ye < ch { ye } else { ch as int };
    (x0, y0, x2, y2)
}

/// The colour of a redaction's frame.
pub open spec fn redact_frame() -> Rgba {
    Rgba { r: 34, g: 212, b: 94, a: 220 }
}

/// The image after a redaction: inside the area, each 10 by 10 block takes
/// the colour of its top-left pixel; then the area is outlined in green.
/// Nothing happens to an empty box or an area outside the image.
pub open spec fn redact_drawn(d: Seq<u8>, cw: u32, ch: u32, x: i32, y: i32, w: u32, h: u32) -> Seq<u8> {
    let (x0, y0, x2, y2) = redact_area(cw, ch, x, y, w, h);
    if w > 0 && h > 0 && x2 > x0 && y2 > y0 {
        let blocky = map_pixels(d, cw as nat, |px: int, py: int, p: Rgba|
            if in_rect(px, py, x0, y0, x2 - x0, y2 - y0) {
                pixel_at(d, cw as nat, block_start(px, x0), block_start(py, y0))
            } else {
                p
            });
        hollow_rect_drawn(blocky, cw, ch, x0 as i32, y0 as i32, (x2 - x0) as u32, (y2 - y0) as u32, redact_frame())
    } else {
        d
    }
}

/// The far edges fit in `i32`, and the outline can be drawn.
pub open spec fn redact_ok(cw: u32, ch: u32, x: i32, y: i32, w: u32, h: u32) -> bool {
    let (x0, y0, x2, y2) = redact_area(cw, ch, x, y, w, h);
    w > 0 && h > 0 ==> {
        &&& i32::MIN <= x + as_i32(w) <= i32::MAX
        &&& i32::MIN <= y + as_i32(h) <= i32::MAX
        &&& (x2 > x0 && y2 > y0) ==> rect_drawable(x0, y0, x2 - x0, y2 - y0)
    }
}

/// Outside a spotlight each colour channel drops to a quarter, rounded
/// down, and alpha stays.
pub proof fn lemma_quarter_dims(p: Rgba)
    ensures
        4 * quarter(p).r <= p.r < 4 * quarter(p).r + 4,
        4 * quarter(p).g <= p.g < 4 * quarter(p).g + 4,
        4 * quarter(p).b <= p.b < 4 * quarter(p).b + 4,
        quarter(p).a == p.a,
{
}

/// Redaction blocks are 10 pixels wide, start at the area's corner, and
/// every position belongs to the block that starts at or before it, less
/// than 10 pixels back.
pub proof fn lemma_redact_blocks(v: int, v0: int)
    requires
        v0 <= v,
    ensures
        block_start(v, v0) <= v < block_start(v, v0) + 10,
        v0 <= block_start(v, v0),
        (block_start(v, v0) - v0) % 10 == 0,
{
    vstd::arithmetic::div_mod::lemma_fundamental_div_mod(v - v0, 10);
    vstd::arithmetic::div_mod::lemma_mod_pos_bound(v - v0, 10);
    vstd::arithmetic::div_mod::lemma_div_pos_is_pos(v - v0, 10);
    vstd::arithmetic::div_mod::lemma_mod_multiples_basic((v - v0) / 10, 10);
}

/// Within a block that starts at `b`, every position maps back to `b`.
proof fn lemma_block_start(v: int, v0: int, b: int)
    requires
        v0 <= b,
        (b - v0) % 10 == 0,
        b <= v < b + 10,
    ensures
        block_start(v, v0) == b,
{
    let q = (b - v0) / 10;
    lemma_fundamental_div_mod_converse(b - v0, 10, q, 0);
    lemma_fundamental_div_mod_converse(v - v0, 10, q, v - b);
}

/// Pixel `(qx, qy)` is redacted so far: in the area, and either in a column
/// block before `px`, or in the current column block `[px, ex)` above `py`,
/// or in the current block `[px, ex) x [py, ey)` left of `dx`, or in column
/// `dx` of that block above `dy`.
pub open spec fn redacted_so_far(qx: int, qy: int, x0: int, y0: int, x2: int, y2: int,
    px: int, ex: int, py: int, ey: int, dx: int, dy: int) -> bool {
    in_rect(qx, qy, x0, y0, x2 - x0, y2 - y0) && (
        qx < px
        || (px <= qx < ex && qy < py)
        || (px <= qx < dx && py <= qy < ey)
        || (qx == dx && py <= qy < dy))
}

/// Draws a redaction over the box `w` by `h` at `(x, y)`.
pub fn render_redact_box(canvas: &mut RgbaCanvas, x: i32, y: i32, w: u32, h: u32)
    requires
        drawable(old(canvas)),
        redact_ok(old(canvas).width, old(canvas).height, x, y, w, h),
    ensures
        drawable(final(canvas)),
        final(canvas).width == old(canvas).width,
        final(canvas).height == old(canvas).height,
        final(canvas).data@ == redact_drawn(old(canvas).data@, old(canvas).width, old(canvas).height, x, y, w, h),
{
    if w == 0 || h == 0 {
        return;
    }
    let ghost cw = canvas.width as nat;
    let ghost ch = canvas.height as nat;
    let ghost before = canvas.data@;
    let img_w = canvas.width;
    let img_h = canvas.height;
    let x0: i32 = if x > 0 { x } else { 0 };
    let y0: i32 = if y > 0 { y } else { 0 };
    let xe = x + wrap_i32(w);
    let ye = y + wrap_i32(h);
    let x2: i32 = if xe < img_w as i32 { xe } else { img_w as i32 };
    let y2: i32 = if ye < img_h as i32 { ye } else { img_h as i32 };
    assert(redact_area(canvas.width, canvas.height, x, y, w, h) == (x0 as int, y0 as int, x2 as int, y2 as int));
    if !(x2 > x0 && y2 > y0) {
        return;
    }
    let bx = x0 as u32;
    let by = y0 as u32;
    let ex_all = x2 as u32;
    let ey_all = y2 as u32;
    let mut px: u32 = bx;
    while px < ex_all
        invariant
            drawable(canvas),
            canvas.width == cw,
            canvas.height == ch,
            before.len() == 4 * cw * ch,
            bx <= px < ex_all + 10,
            (px - bx) % 10 == 0,
            bx < ex_all <= cw,
            by < ey_all <= ch,
            cw <= 0x7fff_ffff,
            forall|qx: int, qy: int| in_image(cw, ch, qx, qy) ==> #[trigger] pixel_at(canvas.data@, cw, qx, qy)
                == if redacted_so_far(qx, qy, bx as int, by as int, ex_all as int, ey_all as int,
                    px as int, px as int, by as int, by as int, px as int, by as int) {
                    pixel_at(before, cw, block_start(qx, bx as int), block_start(qy, by as int))
                } else {
                    pixel_at(before, cw, qx, qy)
                },
        decreases ex_all + 10 - px,
    {
        let ex = if px + 10 < ex_all { px + 10 } else { ex_all };
        let mut py: u32 = by;
        while py < ey_all
            invariant
                drawable(canvas),
                canvas.width == cw,
                canvas.height == ch,
                bx <= px < ex <= ex_all,
                ex == if px + 10 < ex_all { px + 10 } else { ex_all as int },
                (px - bx) % 10 == 0,
                by <= py < ey_all + 10,
                (py - by) % 10 == 0,
                bx < ex_all <= cw,
                by < ey_all <= ch,
                forall|qx: int, qy: int| in_image(cw, ch, qx, qy) ==> #[trigger] pixel_at(canvas.data@, cw, qx, qy)
                    == if redacted_so_far(qx, qy, bx as int, by as int, ex_all as int, ey_all as int,
                        px as int, ex as int, py as int, py as int, px as int, py as int) {
                        pixel_at(before, cw, block_start(qx, bx as int), block_start(qy, by as int))
                    } else {
                        pixel_at(before, cw, qx, qy)
                    },
            decreases ey_all + 10 - py,
        {
            let ey = if py + 10 < ey_all { py + 10 } else { ey_all };
            let sample = canvas.get_pixel(px, py);
            assert(sample == pixel_at(before, cw as nat, px as int, py as int));
            let mut dx: u32 = px;
            while dx < ex
                invariant
                    drawable(canvas),
                    canvas.width == cw,
                    canvas.height == ch,
                    bx <= px <= dx <= ex <= ex_all,
                    ex == if px + 10 < ex_all { px + 10 } else { ex_all as int },
                    by <= py < ey <= ey_all,
                    ey == if py + 10 < ey_all { py + 10 } else { ey_all as int },
                    (px - bx) % 10 == 0,
                    (py - by) % 10 == 0,
                    ex_all <= cw,
                    ey_all <= ch,
                    sample == pixel_at(before, cw as nat, px as int, py as int),
                    forall|qx: int, qy: int| in_image(cw, ch, qx, qy) ==> #[trigger] pixel_at(canvas.data@, cw, qx, qy)
                        == if redacted_so_far(qx, qy, bx as int, by as int, ex_all as int, ey_all as int,
                            px as int, ex as int, py as int, ey as int, dx as int, py as int) {
                            pixel_at(before, cw, block_start(qx, bx as int), block_start(qy, by as int))
                        } else {
                            pixel_at(before, cw, qx, qy)
                        },
                decreases ex - dx,
            {
                let mut dy: u32 = py;
                while dy < ey
                    invariant
                        drawable(canvas),
                        canvas.width == cw,
                        canvas.height == ch,
                        bx <= px <= dx < ex <= ex_all,
                        ex == if px + 10 < ex_all { px + 10 } else { ex_all as int },
                        by <= py <= dy <= ey <= ey_all,
                        ey == if py + 10 < ey_all { py + 10 } else { ey_all as int },
                        (px - bx) % 10 == 0,
                        (py - by) % 10 == 0,
                        ex_all <= cw,
                        ey_all <= ch,
                        sample == pixel_at(before, cw as nat, px as int, py as int),
                        forall|qx: int, qy: int| in_image(cw, ch, qx, qy) ==> #[trigger] pixel_at(canvas.data@, cw, qx, qy)
                            == if redacted_so_far(qx, qy, bx as int, by as int, ex_all as int, ey_all as int,
                                px as int, ex as int, py as int, ey as int, dx as int, dy as int) {
                                pixel_at(before, cw, block_start(qx, bx as int), block_start(qy, by as int))
                            } else {
                                pixel_at(before, cw, qx, qy)
                            },
                    decreases ey - dy,
                {
                    proof {
                        lemma_block_start(dx as int, bx as int, px as int);
                        lemma_block_start(dy as int, by as int, py as int);
                    }
                    canvas.put_pixel(dx, dy, sample);
                    dy = dy + 1;
                }
                dx = dx + 1;
            }
            py = py + 10;
        }
        px = px + 10;
    }
    proof {
        let f = |qx: int, qy: int, p: Rgba| if in_rect(qx, qy, x0 as int, y0 as int, x2 - x0, y2 - y0) {
            pixel_at(before, cw, block_start(qx, x0 as int), block_start(qy, y0 as int))
        } else {
            p
        };
        assert forall|qx: int, qy: int| in_image(cw, ch, qx, qy) implies
            #[trigger] pixel_at(canvas.data@, cw, qx, qy) == f(qx, qy, pixel_at(before, cw, qx, qy)) by {
        }
        lemma_map_pixels(before, canvas.data@, cw, ch, f);
    }
    draw_hollow_rect(canvas, x0, y0, ex_all - bx, ey_all - by, Rgba { r: 34, g: 212, b: 94, a: 220 });
}


/// The image after one shape, for the shapes drawn in whole pixels, before
/// any text; `thickness` is the outline thickness of highlight boxes and
/// ovals. Arrows and freehand strokes leave it as it is.
pub open spec fn shape_drawn<F>(d: Seq<u8>, cw: u32, ch: u32, shape: AnnotationShape<F>, thickness: i32) -> Seq<u8> {
    match shape {
        AnnotationShape::TextCallout { x, y, text, color } => callout_drawn(d, cw, ch, x, y, text@, color),
        AnnotationShape::RedactBox { x, y, width, height } => redact_drawn(d, cw, ch, x, y, width, height),
        AnnotationShape::HighlightBox { x, y, width, height, color, .. } =>
            highlight_box_drawn(d, cw, ch, x, y, width, height, color, thickness),
        AnnotationShape::Oval { x, y, width, height, color, .. } =>
            oval_shape_drawn(d, cw, ch, x, y, width, height, color, thickness),
        AnnotationShape::StepNumber { x, y, color, .. } => step_marker_drawn(d, cw, ch, x, y, color),
        AnnotationShape::Spotlight { x, y, width, height } => spotlight_drawn(d, cw, ch, x, y, width, height),
        _ => d,
    }
}

/// The text a shape writes over what it drew: a callout's text and a step
/// marker's number.
pub open spec fn shape_label<F>(shape: AnnotationShape<F>) -> Option<(i32, i32, u32, Rgba, Seq<char>)> {
    match shape {
        AnnotationShape::TextCallout { x, y, text, color } => Some((x, y, 16u32, color, callout_text(text@))),
        AnnotationShape::StepNumber { x, y, num, .. } => Some(step_label(x, y, num)),
        _ => None,
    }
}

/// What each shape's drawing needs of its fields.
pub open spec fn shape_ok<F>(cw: u32, ch: u32, shape: AnnotationShape<F>, thickness: i32) -> bool {
    match shape {
        AnnotationShape::TextCallout { x, y, text, .. } => callout_ok(x, y, text@),
        AnnotationShape::RedactBox { x, y, width, height } => redact_ok(cw, ch, x, y, width, height),
        AnnotationShape::HighlightBox { x, y, width, height, .. } => highlight_ok(x, y, width, height, thickness),
        AnnotationShape::Oval { x, y, width, height, .. } => oval_ok(x, y, width, height, thickness),
        AnnotationShape::StepNumber { x, y, .. } => step_ok(x, y),
        AnnotationShape::Spotlight { x, y, width, height } => spotlight_ok(cw, ch, x, y, width, height),
        _ => true,
    }
}

/// What drawing one shape leaves to the caller.
#[derive(Debug, Clone, PartialEq, Eq)]
pub enum ShapeRender {
    /// The shape is drawn.
    Done,
    /// The shape is drawn; this text goes over it.
    Label(TextStamp),
    /// An arrow or a freehand stroke: the caller draws it.
    Freeform,
}

/// Draws one shape if its geometry is in whole pixels, and says what is
/// left to the caller: its text, or the whole shape for arrows and
/// freehand strokes. Highlight boxes and ovals only ever put their colour
/// into pixels.
pub fn render_shape<F>(canvas: &mut RgbaCanvas, shape: &AnnotationShape<F>, thickness: i32) -> (r: ShapeRender)
    requires
        drawable(old(canvas)),
        shape_ok(old(canvas).width, old(canvas).height, *shape, thickness),
    ensures
        drawable(final(canvas)),
        final(canvas).width == old(canvas).width,
        final(canvas).height == old(canvas).height,
        final(canvas).data@ == shape_drawn(old(canvas).data@, old(canvas).width, old(canvas).height,
            *shape, thickness),
        (r is Freeform) <==> (*shape is Arrow || *shape is Freehand),
        match shape_label(*shape) {
            Some(l) => r matches ShapeRender::Label(stamp) && stamp.spec_parts() == l,
            None => r is Done || r is Freeform,
        },
        match *shape {
            AnnotationShape::HighlightBox { x, y, width, height, color, .. } => {
                &&& only_painted(old(canvas).data@, final(canvas).data@,
                    old(canvas).width as nat, old(canvas).height as nat, color)
                &&& width > 0 && height > 0 && thickness > 0
                    && highlight_exact(x, y, width, height, thickness, old(canvas).width, old(canvas).height)
                    ==> final(canvas).data@ == highlight_outlines(old(canvas).data@, old(canvas).width,
                        x as int, y as int, width, height, color, thickness as nat)
            },
            AnnotationShape::Oval { x, y, width, height, color, .. } => {
                &&& only_painted(old(canvas).data@, final(canvas).data@,
                    old(canvas).width as nat, old(canvas).height as nat, color)
                &&& width > 0 && height > 0 ==> forall|t: int| 0 <= t < thickness ==> #[trigger] oval_ring_ends_painted(
                    final(canvas).data@, old(canvas).width, old(canvas).height, x, y, width, height, color, t)
            },
            _ => true,
        },
{
    match shape {
        AnnotationShape::TextCallout { x, y, text, color } => {
            ShapeRender::Label(render_text_callout(canvas, *x, *y, text.as_str(), *color))
        },
        AnnotationShape::RedactBox { x, y, width, height } => {
            render_redact_box(canvas, *x, *y, *width, *height);
            ShapeRender::Done
        },
        AnnotationShape::HighlightBox { x, y, width, height, color, .. } => {
            render_highlight_box(canvas, *x, *y, *width, *height, *color, thickness);
            ShapeRender::Done
        },
        AnnotationShape::Oval { x, y, width, height, color, .. } => {
            render_oval(canvas, *x, *y, *width, *height, *color, thickness);
            ShapeRender::Done
        },
        AnnotationShape::StepNumber { x, y, num, color } => {
            ShapeRender::Label(render_step_number(canvas, *x, *y, *num, *color))
        },
        AnnotationShape::Spotlight { x, y, width, height } => {
            render_spotlight(canvas, *x, *y, *width, *height);
            ShapeRender::Done
        },
        _ => ShapeRender::Freeform,
    }
}

// ---------------------------------------------------------------------------
// Checking a shape's geometry before drawing it

/// Whether a rectangle can be drawn (`rect_drawable`).
fn rect_check(left: i64, top: i64, w: i64, h: i64) -> (r: bool)
    requires
        -0x1_0000_0000_0000 <= left <= 0x1_0000_0000_0000,
        -0x1_0000_0000_0000 <= top <= 0x1_0000_0000_0000,
        -0x1_0000_0000_0000 <= w <= 0x1_0000_0000_0000,
        -0x1_0000_0000_0000 <= h <= 0x1_0000_0000_0000,
    ensures
        r == rect_drawable(left as int, top as int, w as int, h as int),
{
    0 < w && w <= 0x7fff_ffff && 0 < h && h <= 0x7fff_ffff
        && left + w <= 0x7fff_ffff - 63 && top + h <= 0x7fff_ffff - 63
}

/// Whether a circle outline can be drawn (`circle_ok`).
fn circle_check(cx: i64, cy: i64, radius: i64) -> (r: bool)
    requires
        -0x1_0000_0000 <= cx <= 0x1_0000_0000,
        -0x1_0000_0000 <= cy <= 0x1_0000_0000,
        -0x1_0000_0000 <= radius <= 0x1_0000_0000,
    ensures
        r == circle_ok(cx as int, cy as int, radius as int),
{
    -0x7fff_fffe <= radius && radius <= 0x3fff_fff0
        && (radius < 0 || (-0x8000_0000 <= cx - radius && cx + radius <= 0x7fff_ffff
            && -0x8000_0000 <= cy - radius && cy + radius <= 0x7fff_ffff))
}

/// Whether a disc can be drawn (`disc_ok`).
fn disc_check(cx: i64, cy: i64, radius: i64) -> (r: bool)
    requires
        -0x1_0000_0000 <= cx <= 0x1_0000_0000,
        -0x1_0000_0000 <= cy <= 0x1_0000_0000,
        -0x1_0000_0000 <= radius <= 0x1_0000_0000,
    ensures
        r == disc_ok(cx as int, cy as int, radius as int),
{
    circle_check(cx, cy, radius) && (radius < 0 || cx + radius <= 0x7fff_ffff - 64)
}

/// Whether every outline of a highlight box can be drawn (`highlight_ok`).
fn highlight_check(x: i32, y: i32, w: u32, h: u32, thickness: i32) -> (r: bool)
    ensures
        r == highlight_ok(x, y, w, h, thickness),
{
    if w == 0 || h == 0 {
        return true;
    }
    let wi = wrap_i32(w) as i64;
    let hi = wrap_i32(h) as i64;
    let mut t: i64 = 0;
    while t < thickness as i64
        invariant
            0 <= t <= (if thickness > 0 { thickness as int } else { 0 }),
            w > 0 && h > 0,
            wi == as_i32(w),
            hi == as_i32(h),
            forall|k: int| 0 <= k < t ==> #[trigger] highlight_step_ok(x, y, w, h, k),
        decreases thickness - t,
    {
        let xt = x as i64 + t;
        let yt = y as i64 + t;
        let ax = if xt > 0 { xt } else { 0 };
        let ay = if yt > 0 { yt } else { 0 };
        let aw = if wi - 2 * t > 1 { wi - 2 * t } else { 1 };
        let ah = if hi - 2 * t > 1 { hi - 2 * t } else { 1 };
        let ghost rect = highlight_rect(x as int, y as int, w, h, t as int);
        assert(rect == (ax as int, ay as int, aw as int, ah as int));
        if !(xt <= 0x7fff_ffff && yt <= 0x7fff_ffff && 2 * t <= 0x7fff_ffff
            && wi - 2 * t >= -0x8000_0000 && hi - 2 * t >= -0x8000_0000
            && rect_check(ax, ay, aw, ah)) {
            assert(!highlight_step_ok(x, y, w, h, t as int));
            return false;
        }
        t = t + 1;
    }
    assert forall|k: int| 0 <= k < thickness implies #[trigger] highlight_step_ok(x, y, w, h, k) by {
        assert(k < t);
    }
    true
}

/// Whether every ring of an oval can be drawn (`oval_ok`).
fn oval_check(x: i32, y: i32, w: u32, h: u32, thickness: i32) -> (r: bool)
    ensures
        r == oval_ok(x, y, w, h, thickness),
{
    if w == 0 || h == 0 {
        return true;
    }
    let hw = (wrap_i32(w) / 2) as i64;
    let hh = (wrap_i32(h) / 2) as i64;
    let cx = x as i64 + hw;
    let cy = y as i64 + hh;
    let rx: i64 = if hw > 1 { hw } else { 1 };
    let ry: i64 = if hh > 1 { hh } else { 1 };
    let reach = rx + ry + 2;
    -0x8000_0000 <= cx && cx <= 0x7fff_ffff && -0x8000_0000 <= cy && cy <= 0x7fff_ffff
        && (thickness <= 0 || (rx <= 46340 && ry <= 46340
            && -0x8000_0000 <= cx - reach && cx + reach <= 0x7fff_ffff
            && -0x8000_0000 <= cy - reach && cy + reach <= 0x7fff_ffff))
}

/// Whether a step marker can be drawn (`step_ok`).
fn step_check(x: i32, y: i32) -> (r: bool)
    ensures
        r == step_ok(x, y),
{
    disc_check(x as i64, y as i64, 18) && circle_check(x as i64, y as i64, 19)
        && x as i64 - 10 >= -0x8000_0000 && y as i64 - 9 >= -0x8000_0000
}

/// Whether a callout can be drawn (`callout_ok`).
fn callout_check(x: i32, y: i32, text: &str) -> (r: bool)
    ensures
        r == callout_ok(x, y, text@),
{
    let cs = chars_of(text);
    let trimmed = trim_chars(cs.as_slice(), false);
    let display: &str = if trimmed.len() == 0 { "Callout" } else { text };
    proof { reveal_strlit("Callout"); }
    let n = display.unicode_len();
    let width: i64 = if n > 42 { 400 } else if n > 1 { (n as i64) * 9 + 20 } else { 29 };
    let bx: i64 = if x as i64 - 8 > 0 { x as i64 - 8 } else { 0 };
    let by: i64 = if y as i64 - 8 > 0 { y as i64 - 8 } else { 0 };
    x as i64 - 8 >= -0x8000_0000 && y as i64 - 8 >= -0x8000_0000 && rect_check(bx, by, width, 34)
}

/// Whether a spotlight can be drawn (`spotlight_ok`).
fn spotlight_check(cw: u32, ch: u32, x: i32, y: i32, w: u32, h: u32) -> (r: bool)
    ensures
        r == spotlight_ok(cw, ch, x, y, w, h),
{
    let xe = x as i64 + wrap_i32(w) as i64;
    let ye = y as i64 + wrap_i32(h) as i64;
    if !(-0x8000_0000 <= xe && xe <= 0x7fff_ffff && -0x8000_0000 <= ye && ye <= 0x7fff_ffff) {
        return false;
    }
    let x1: i64 = if x > 0 { x as i64 } else { 0 };
    let y1: i64 = if y > 0 { y as i64 } else { 0 };
    let xc: i64 = if xe < cw as i64 { xe } else { cw as i64 };
    let yc: i64 = if ye < ch as i64 { ye } else { ch as i64 };
    let x2: i64 = if xc < 0 { xc + 0x1_0000_0000 } else { xc };
    let y2: i64 = if yc < 0 { yc + 0x1_0000_0000 } else { yc };
    !(x2 > x1 && y2 > y1) || rect_check(x1, y1, x2 - x1, y2 - y1)
}

/// Whether a redaction can be drawn (`redact_ok`).
fn redact_check(cw: u32, ch: u32, x: i32, y: i32, w: u32, h: u32) -> (r: bool)
    ensures
        r == redact_ok(cw, ch, x, y, w, h),
{
    if w == 0 || h == 0 {
        return true;
    }
    let xe = x as i64 + wrap_i32(w) as i64;
    let ye = y as i64 + wrap_i32(h) as i64;
    if !(-0x8000_0000 <= xe && xe <= 0x7fff_ffff && -0x8000_0000 <= ye && ye <= 0x7fff_ffff) {
        return false;
    }
    let x0: i64 = if x > 0 { x as i64 } else { 0 };
    let y0: i64 = if y > 0 { y as i64 } else { 0 };
    let x2: i64 = if xe < cw as i64 { xe } else { cw as i64 };
    let y2: i64 = if ye < ch as i64 { ye } else { ch as i64 };
    !(x2 > x0 && y2 > y0) || rect_check(x0, y0, x2 - x0, y2 - y0)
}

/// Whether `render_shape` can draw `shape` on a canvas of `cw` by `ch`
/// pixels with outlines `thickness` thick (`shape_ok`).
pub fn shape_fits<F>(cw: u32, ch: u32, shape: &AnnotationShape<F>, thickness: i32) -> (r: bool)
    ensures
        r == shape_ok(cw, ch, *shape, thickness),
{
    match shape {
        AnnotationShape::TextCallout { x, y, text, .. } => callout_check(*x, *y, text.as_str()),
        AnnotationShape::RedactBox { x, y, width, height } => redact_check(cw, ch, *x, *y, *width, *height),
        AnnotationShape::HighlightBox { x, y, width, height, .. } => highlight_check(*x, *y, *width, *height, thickness),
        AnnotationShape::Oval { x, y, width, height, .. } => oval_check(*x, *y, *width, *height, thickness),
        AnnotationShape::StepNumber { x, y, .. } => step_check(*x, *y),
        AnnotationShape::Spotlight { x, y, width, height } => spotlight_check(cw, ch, *x, *y, *width, *height),
        _ => true,
    }
}

} // verus!
