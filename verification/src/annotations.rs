//! Showcase annotations on a captured frame: bounding boxes with a drop
//! shadow, click highlights, a logo and a text watermark in a chosen corner.

use vstd::prelude::*;
use crate::canvas::{Rgba, RgbaCanvas, TextStamp, decoded_image, decode_rgba, rect_exact, outline_painted, lemma_map_pixels_at, pixel_at, in_image, in_rect, map_pixels, lemma_map_pixels,
    drawable, rect_drawable, circle_ok, disc_ok, hollow_rect_drawn, hollow_circle_drawn, filled_circle_drawn,
    draw_hollow_rect, draw_hollow_circle, draw_filled_circle};
use crate::text::{str_eq, owned};

verus! {

/// A click to highlight: a ring of radius `radius` around `(x, y)`.
#[derive(Debug, Clone, Copy, PartialEq, Eq, Structural)]
pub struct ClickAnnotation {
    pub x: i32,
    pub y: i32,
    pub radius: i32,
    pub color: Rgba,
}

/// A box to outline, with its top-left corner at `(x, y)`.
#[derive(Debug, Clone, Copy, PartialEq, Eq, Structural)]
pub struct BoundingBoxAnnotation {
    pub x: i32,
    pub y: i32,
    pub width: u32,
    pub height: u32,
    pub color: Rgba,
}

/// The annotation renderer.
pub struct AnnotationEngine;

/// `a - b`, or 0 when `b` exceeds `a`.
pub open spec fn sat_sub(a: int, b: int) -> int {
    if a > b { a - b } else { 0 }
}

/// Where an element of `ew` by `eh` pixels goes in an image of `iw` by `ih`
/// pixels: 20 pixels from the corner that `position` names; bottom right
/// for any other name.
pub open spec fn spec_corner(iw: int, ih: int, ew: int, eh: int, position: Seq<char>) -> (int, int) {
    if position == "BottomLeft"@ {
        (20, sat_sub(ih, eh + 20))
    } else if position == "TopRight"@ {
        (sat_sub(iw, ew + 20), 20)
    } else if position == "TopLeft"@ {
        (20, 20)
    } else {
        (sat_sub(iw, ew + 20), sat_sub(ih, eh + 20))
    }
}

/// Pixel `(x, y)` after the logo is stamped with its top-left at `(ox, oy)`:
/// the logo's pixel where the logo covers it and that pixel's alpha exceeds 10.
pub open spec fn logo_pixel(logo: Seq<u8>, lw: nat, lh: nat, ox: int, oy: int, x: int, y: int, p: Rgba) -> Rgba {
    if in_rect(x, y, ox, oy, lw as int, lh as int) && pixel_at(logo, lw, x - ox, y - oy).a > 10 {
        pixel_at(logo, lw, x - ox, y - oy)
    } else {
        p
    }
}

/// The logo pixels stamped so far: the first `cols` columns, and `rows`
/// pixels of the next column.
pub open spec fn logo_pixel_partial(logo: Seq<u8>, lw: nat, lh: nat, ox: int, oy: int, cols: int, rows: int,
    x: int, y: int, p: Rgba) -> Rgba {
    if in_rect(x, y, ox, oy, cols, lh as int) || (x == ox + cols && cols < lw && oy <= y < oy + rows) {
        logo_pixel(logo, lw, lh, ox, oy, x, y, p)
    } else {
        p
    }
}

/// The watermark background shade: the average of a channel and the backdrop.
pub open spec fn shade(p: Rgba) -> Rgba {
    Rgba {
        r: ((p.r + 18) / 2) as u8,
        g: ((p.g + 22) / 2) as u8,
        b: ((p.b + 30) / 2) as u8,
        a: p.a,
    }
}

/// The watermark background halves the way from each colour channel to
/// the backdrop (18, 22, 30), rounding down; alpha stays.
pub proof fn lemma_shade_halfway(p: Rgba)
    ensures
        2 * shade(p).r <= p.r + 18 < 2 * shade(p).r + 2,
        2 * shade(p).g <= p.g + 22 < 2 * shade(p).g + 2,
        2 * shade(p).b <= p.b + 30 < 2 * shade(p).b + 2,
        shade(p).a == p.a,
{
}

/// Pixel `(x, y)` after the watermark background is shaded: the 169 by 25
/// pixels from `(left, top)`.
pub open spec fn shaded_pixel(left: int, top: int, x: int, y: int, p: Rgba) -> Rgba {
    if in_rect(x, y, left, top, 169, 25) { shade(p) } else { p }
}

/// The drop shadow of a bounding box.
pub open spec fn shadow_color() -> Rgba {
    Rgba { r: 0, g: 0, b: 0, a: 120 }
}

/// The colour of the watermark text.
pub open spec fn watermark_color() -> Rgba {
    Rgba { r: 0, g: 255, b: 102, a: 240 }
}

/// A box that can be drawn with its shadow three pixels down and right.
pub open spec fn box_ok(b: BoundingBoxAnnotation) -> bool {
    rect_drawable(b.x + 3, b.y + 3, b.width as int, b.height as int)
}

/// A click whose rings can be drawn.
pub open spec fn click_ok(c: ClickAnnotation) -> bool {
    &&& c.radius < i32::MAX
    &&& circle_ok(c.x as int, c.y as int, c.radius as int)
    &&& circle_ok(c.x as int, c.y as int, c.radius + 1)
    &&& disc_ok(c.x as int, c.y as int, 4)
}

/// Box `b` and its shadow are held exactly by single-precision floats
/// (coordinates within 2^24), as is the image size.
pub open spec fn box_exact(b: BoundingBoxAnnotation, w: u32, h: u32) -> bool {
    &&& rect_exact(b.x + 3, b.y + 3, b.width as int, b.height as int, w, h)
    &&& rect_exact(b.x as int, b.y as int, b.width as int, b.height as int, w, h)
}

/// The image after the boxes are painted in order, each as the outline of
/// its shadow three pixels down and right and then its own outline.
pub open spec fn boxes_outlined(d: Seq<u8>, w: u32, boxes: Seq<BoundingBoxAnnotation>) -> Seq<u8>
    decreases boxes.len(),
{
    if boxes.len() == 0 {
        d
    } else {
        let b = boxes.last();
        let prev = boxes_outlined(d, w, boxes.drop_last());
        let shadowed = outline_painted(prev, w, b.x + 3, b.y + 3, b.width as int, b.height as int, shadow_color());
        outline_painted(shadowed, w, b.x as int, b.y as int, b.width as int, b.height as int, b.color)
    }
}

/// The image after the boxes are drawn in order, each as its shadow and
/// then its outline.
pub open spec fn boxes_drawn(d: Seq<u8>, w: u32, h: u32, boxes: Seq<BoundingBoxAnnotation>) -> Seq<u8>
    decreases boxes.len(),
{
    if boxes.len() == 0 {
        d
    } else {
        let b = boxes.last();
        let prev = boxes_drawn(d, w, h, boxes.drop_last());
        let shadowed = hollow_rect_drawn(prev, w, h, (b.x + 3) as i32, (b.y + 3) as i32, b.width, b.height, shadow_color());
        hollow_rect_drawn(shadowed, w, h, b.x, b.y, b.width, b.height, b.color)
    }
}

/// The image after the clicks are drawn in order, each as two rings of
/// its colour at alpha 160 and a dot of radius 4 at alpha 230.
pub open spec fn clicks_drawn(d: Seq<u8>, w: u32, h: u32, clicks: Seq<ClickAnnotation>) -> Seq<u8>
    decreases clicks.len(),
{
    if clicks.len() == 0 {
        d
    } else {
        let c = clicks.last();
        let prev = clicks_drawn(d, w, h, clicks.drop_last());
        let outer = Rgba { a: 160, ..c.color };
        let inner = Rgba { a: 230, ..c.color };
        let ring = hollow_circle_drawn(prev, w, h, c.x, c.y, c.radius, outer);
        let ring2 = hollow_circle_drawn(ring, w, h, c.x, c.y, (c.radius + 1) as i32, outer);
        filled_circle_drawn(ring2, w, h, c.x, c.y, 4, inner)
    }
}

/// The image after the logo is stamped in the corner that `position` names.
pub open spec fn logo_stamped(d: Seq<u8>, w: u32, h: u32, logo: Option<(Seq<u8>, u32, u32)>, position: Seq<char>) -> Seq<u8> {
    match logo {
        None => d,
        Some((ld, lw, lh)) => {
            let (ox, oy) = spec_corner(w as int, h as int, lw as int, lh as int, position);
            map_pixels(d, w as nat, |x: int, y: int, p: Rgba| logo_pixel(ld, lw as nat, lh as nat, ox, oy, x, y, p))
        },
    }
}

/// The image after the watermark's background is shaded, before its text.
pub open spec fn watermark_drawn(d: Seq<u8>, w: u32, h: u32, text: Option<Seq<char>>, position: Seq<char>) -> Seq<u8> {
    match text {
        None => d,
        Some(t) => {
            let (mx, my) = spec_corner(w as int, h as int, 170, 26, position);
            map_pixels(d, w as nat, |x: int, y: int, p: Rgba| shaded_pixel(mx - 4, my - 4, x, y, p))
        },
    }
}

/// The watermark text to write last: in green at 16 pixels, at the corner
/// that `position` names.
pub open spec fn watermark_label(w: u32, h: u32, text: Option<Seq<char>>, position: Seq<char>) -> Option<(i32, i32, u32, Rgba, Seq<char>)> {
    match text {
        None => None,
        Some(t) => {
            let (mx, my) = spec_corner(w as int, h as int, 170, 26, position);
            Some((mx as i32, my as i32, 16u32, watermark_color(), t))
        },
    }
}

/// The stamp, if any, as plain values.
pub open spec fn stamp_parts(s: Option<TextStamp>) -> Option<(i32, i32, u32, Rgba, Seq<char>)> {
    match s {
        None => None,
        Some(t) => Some(t.spec_parts()),
    }
}

/// All annotations but the watermark text: boxes, then clicks, then the
/// logo, then the watermark's background.
pub open spec fn spec_annotated(
    d: Seq<u8>,
    w: u32,
    h: u32,
    clicks: Seq<ClickAnnotation>,
    boxes: Seq<BoundingBoxAnnotation>,
    watermark: Option<Seq<char>>,
    logo: Option<(Seq<u8>, u32, u32)>,
    position: Seq<char>,
) -> Seq<u8> {
    watermark_drawn(
        logo_stamped(clicks_drawn(boxes_drawn(d, w, h, boxes), w, h, clicks), w, h, logo, position),
        w, h, watermark, position)
}

/// A logo whose corner position can be computed in `u32`.
pub open spec fn logo_fits(lw: u32, lh: u32) -> bool {
    lw + 20 <= u32::MAX && lh + 20 <= u32::MAX
}

/// The logo stamped from the logo file held in `bytes`: its decoded pixels
/// when it decodes and fits; nothing otherwise.
pub open spec fn usable_logo(bytes: Option<Seq<u8>>) -> Option<(Seq<u8>, u32, u32)> {
    match bytes {
        None => None,
        Some(b) => match decoded_image(b) {
            Some((lw, lh, ld)) => if logo_fits(lw, lh) { Some((ld, lw, lh)) } else { None },
            None => None,
        },
    }
}

/// What the annotation needs of its inputs: boxes and clicks that can be drawn.
pub open spec fn annotations_ok(clicks: Seq<ClickAnnotation>, boxes: Seq<BoundingBoxAnnotation>) -> bool {
    &&& forall|i: int| 0 <= i < boxes.len() ==> box_ok(#[trigger] boxes[i])
    &&& forall|i: int| 0 <= i < clicks.len() ==> click_ok(#[trigger] clicks[i])
}

impl AnnotationEngine {
    /// Where an element of `elem_w` by `elem_h` pixels goes in an image of
    /// `img_w` by `img_h` pixels, given the corner named by `position`.
    pub fn calculate_corner_position(img_w: u32, img_h: u32, elem_w: u32, elem_h: u32, position: &str) -> (r: (u32, u32))
        requires
            elem_w + 20 <= u32::MAX,
            elem_h + 20 <= u32::MAX,
        ensures
            (r.0 as int, r.1 as int) == spec_corner(img_w as int, img_h as int, elem_w as int, elem_h as int, position@),
    {
        if str_eq(position, "BottomLeft") {
            (20, img_h.saturating_sub(elem_h + 20))
        } else if str_eq(position, "TopRight") {
            (img_w.saturating_sub(elem_w + 20), 20)
        } else if str_eq(position, "TopLeft") {
            (20, 20)
        } else {
            (img_w.saturating_sub(elem_w + 20), img_h.saturating_sub(elem_h + 20))
        }
    }

    /// Draws bounding boxes with a drop shadow, click highlights, the logo
    /// and the watermark's background onto `img`, the last two in the corner
    /// that `position` names, and gives back the watermark text to write
    /// last. `logo` holds the logo's image file, if one is set; a logo that
    /// does not decode, or whose corner position overflows `u32`, is left out.
    pub fn apply_annotations(
        img: &mut RgbaCanvas,
        clicks: &[ClickAnnotation],
        boxes: &[BoundingBoxAnnotation],
        watermark_text: Option<&str>,
        logo: Option<&[u8]>,
        position: &str,
    ) -> (label: Option<TextStamp>)
        requires
            drawable(old(img)),
            annotations_ok(clicks@, boxes@),
        ensures
            drawable(final(img)),
            final(img).width == old(img).width,
            final(img).height == old(img).height,
            final(img).data@ == spec_annotated(old(img).data@, old(img).width, old(img).height,
                clicks@, boxes@,
                (match watermark_text { Some(t) => Some(t@), None => None }),
                usable_logo(match logo { Some(b) => Some(b@), None => None }),
                position@),
            stamp_parts(label) == watermark_label(old(img).width, old(img).height,
                (match watermark_text { Some(t) => Some(t@), None => None }), position@),
            (forall|i: int| 0 <= i < boxes@.len() ==> box_exact(#[trigger] boxes@[i], old(img).width, old(img).height))
                ==> final(img).data@ == watermark_drawn(logo_stamped(clicks_drawn(
                    boxes_outlined(old(img).data@, old(img).width, boxes@), old(img).width, old(img).height, clicks@),
                    old(img).width, old(img).height, usable_logo(match logo { Some(b) => Some(b@), None => None }),
                    position@), old(img).width, old(img).height,
                    (match watermark_text { Some(t) => Some(t@), None => None }), position@),
    {
        let ghost w = img.width;
        let ghost h = img.height;
        let ghost before = img.data@;
        let mut i: usize = 0;
        assert(boxes@.subrange(0, 0) =~= Seq::<BoundingBoxAnnotation>::empty());
        while i < boxes.len()
            invariant
                drawable(img),
                img.width == w,
                img.height == h,
                i <= boxes@.len(),
                forall|k: int| 0 <= k < boxes@.len() ==> box_ok(#[trigger] boxes@[k]),
                img.data@ == boxes_drawn(before, w, h, boxes@.subrange(0, i as int)),
                (forall|k: int| 0 <= k < boxes@.len() ==> box_exact(#[trigger] boxes@[k], w, h))
                    ==> img.data@ == boxes_outlined(before, w, boxes@.subrange(0, i as int)),
            decreases boxes@.len() - i,
        {
            let b = boxes[i];
            assert(box_ok(boxes@[i as int]));
            proof {
                if forall|k: int| 0 <= k < boxes@.len() ==> box_exact(#[trigger] boxes@[k], w, h) {
                    assert(box_exact(boxes@[i as int], w, h));
                }
            }
            draw_hollow_rect(img, b.x + 3, b.y + 3, b.width, b.height, Rgba { r: 0, g: 0, b: 0, a: 120 });
            draw_hollow_rect(img, b.x, b.y, b.width, b.height, b.color);
            assert(boxes@.subrange(0, i + 1).drop_last() =~= boxes@.subrange(0, i as int));
            i = i + 1;
        }
        assert(boxes@.subrange(0, boxes@.len() as int) =~= boxes@);
        let ghost after_boxes = img.data@;
        let mut j: usize = 0;
        assert(clicks@.subrange(0, 0) =~= Seq::<ClickAnnotation>::empty());
        while j < clicks.len()
            invariant
                drawable(img),
                img.width == w,
                img.height == h,
                j <= clicks@.len(),
                forall|k: int| 0 <= k < clicks@.len() ==> click_ok(#[trigger] clicks@[k]),
                img.data@ == clicks_drawn(after_boxes, w, h, clicks@.subrange(0, j as int)),
            decreases clicks@.len() - j,
        {
            let c = clicks[j];
            assert(click_ok(clicks@[j as int]));
            let outer = Rgba { r: c.color.r, g: c.color.g, b: c.color.b, a: 160 };
            let inner = Rgba { r: c.color.r, g: c.color.g, b: c.color.b, a: 230 };
            draw_hollow_circle(img, c.x, c.y, c.radius, outer);
            draw_hollow_circle(img, c.x, c.y, c.radius + 1, outer);
            draw_filled_circle(img, c.x, c.y, 4, inner);
            assert(clicks@.subrange(0, j + 1).drop_last() =~= clicks@.subrange(0, j as int));
            j = j + 1;
        }
        assert(clicks@.subrange(0, clicks@.len() as int) =~= clicks@);
        match logo {
            Some(bytes) => match decode_rgba(bytes) {
                Some(l) => {
                    if l.width <= u32::MAX - 20 && l.height <= u32::MAX - 20 {
                        let (ox, oy) = Self::calculate_corner_position(img.width, img.height, l.width, l.height, position);
                        Self::stamp_logo(img, &l, ox, oy);
                    }
                },
                None => {},
            },
            None => {},
        }
        match watermark_text {
            Some(text) => {
                let (mx, my) = Self::calculate_corner_position(img.width, img.height, 170, 26, position);
                Self::shade_watermark_background(img, mx as i32 - 4, my as i32 - 4);
                Some(TextStamp {
                    x: mx as i32,
                    y: my as i32,
                    scale: 16,
                    color: Rgba { r: 0, g: 255, b: 102, a: 240 },
                    text: owned(text),
                })
            },
            None => None,
        }
    }

    /// Annotates a snapshot: a highlight ring of radius 24 at its centre and
    /// the background of `watermark` in the bottom-right corner; gives back
    /// the watermark text to write last.
    pub fn process_snapshot_with_watermark(img: &mut RgbaCanvas, watermark: &str) -> (label: TextStamp)
        requires
            drawable(old(img)),
        ensures
            drawable(final(img)),
            final(img).width == old(img).width,
            final(img).height == old(img).height,
            final(img).data@ == spec_annotated(old(img).data@, old(img).width, old(img).height,
                seq![ClickAnnotation {
                    x: (old(img).width / 2) as i32,
                    y: (old(img).height / 2) as i32,
                    radius: 24,
                    color: Rgba { r: 0, g: 255, b: 102, a: 255 },
                }],
                seq![], Some(watermark@), None, "BottomRight"@),
            Some(label.spec_parts()) == watermark_label(old(img).width, old(img).height,
                Some(watermark@), "BottomRight"@),
    {
        let click = ClickAnnotation {
            x: (img.width / 2) as i32,
            y: (img.height / 2) as i32,
            radius: 24,
            color: Rgba { r: 0, g: 255, b: 102, a: 255 },
        };
        let clicks = [click];
        let boxes: [BoundingBoxAnnotation; 0] = [];
        proof {
            reveal_strlit("BottomRight");
            reveal_strlit("BottomLeft");
            reveal_strlit("TopRight");
            reveal_strlit("TopLeft");
            assert(clicks@ =~= seq![click]);
            assert(boxes@ =~= Seq::<BoundingBoxAnnotation>::empty());
        }
        let label = Self::apply_annotations(img, &clicks, &boxes, Some(watermark), None, "BottomRight");
        label.unwrap()
    }

    /// Copies the pixels of `logo` whose alpha exceeds 10 onto `img`, with
    /// the logo's top-left at `(ox, oy)`; what falls outside `img` is dropped.
    pub fn stamp_logo(img: &mut RgbaCanvas, logo: &RgbaCanvas, ox: u32, oy: u32)
        requires
            old(img).wf(),
            logo.wf(),
            ox + logo.width <= u32::MAX + 1,
            oy + logo.height <= u32::MAX + 1,
        ensures
            final(img).wf(),
            final(img).width == old(img).width,
            final(img).height == old(img).height,
            final(img).data@ == map_pixels(old(img).data@, old(img).width as nat,
                |x: int, y: int, p: Rgba| logo_pixel(logo.data@, logo.width as nat, logo.height as nat,
                    ox as int, oy as int, x, y, p)),
    {
        let ghost w = img.width as nat;
        let ghost h = img.height as nat;
        let ghost before = img.data@;
        let ghost ld = logo.data@;
        let ghost lw = logo.width as nat;
        let ghost lh = logo.height as nat;
        let mut x: u32 = 0;
        while x < logo.width
            invariant
                img.wf(),
                logo.wf(),
                img.width == w,
                img.height == h,
                before.len() == 4 * w * h,
                ld == logo.data@,
                lw == logo.width,
                lh == logo.height,
                x <= lw,
                ox + lw <= u32::MAX + 1,
                oy + lh <= u32::MAX + 1,
                forall|px: int, py: int| in_image(w, h, px, py) ==> #[trigger] pixel_at(img.data@, w, px, py)
                    == logo_pixel_partial(ld, lw, lh, ox as int, oy as int, x as int, 0, px, py,
                        pixel_at(before, w, px, py)),
            decreases lw - x,
        {
            let mut y: u32 = 0;
            while y < logo.height
                invariant
                    img.wf(),
                    logo.wf(),
                    img.width == w,
                    img.height == h,
                    ld == logo.data@,
                    lw == logo.width,
                    lh == logo.height,
                    x < lw,
                    y <= lh,
                    ox + lw <= u32::MAX + 1,
                    oy + lh <= u32::MAX + 1,
                    forall|px: int, py: int| in_image(w, h, px, py) ==> #[trigger] pixel_at(img.data@, w, px, py)
                        == logo_pixel_partial(ld, lw, lh, ox as int, oy as int, x as int, y as int, px, py,
                            pixel_at(before, w, px, py)),
                decreases lh - y,
            {
                let tx = ox + x;
                let ty = oy + y;
                if tx < img.width && ty < img.height {
                    let lp = logo.get_pixel(x, y);
                    if lp.a > 10 {
                        img.put_pixel(tx, ty, lp);
                    }
                }
                assert forall|px: int, py: int| in_image(w, h, px, py) implies #[trigger] pixel_at(img.data@, w, px, py)
                    == logo_pixel_partial(ld, lw, lh, ox as int, oy as int, x as int, y + 1, px, py,
                        pixel_at(before, w, px, py)) by {
                }
                y = y + 1;
            }
            assert forall|px: int, py: int| in_image(w, h, px, py) implies #[trigger] pixel_at(img.data@, w, px, py)
                == logo_pixel_partial(ld, lw, lh, ox as int, oy as int, x + 1, 0, px, py,
                    pixel_at(before, w, px, py)) by {
            }
            x = x + 1;
        }
        proof {
            let f = |px: int, py: int, p: Rgba| logo_pixel(ld, lw, lh, ox as int, oy as int, px, py, p);
            assert forall|px: int, py: int| in_image(w, h, px, py) implies
                #[trigger] pixel_at(img.data@, w, px, py) == f(px, py, pixel_at(before, w, px, py)) by {
            }
            lemma_map_pixels(before, img.data@, w, h, f);
        }
    }

    /// Darkens the watermark background: the 169 by 25 pixels from
    /// `(left, top)` that lie in the image become the average of themselves
    /// and the backdrop colour (18, 22, 30); alpha stays.
    pub fn shade_watermark_background(img: &mut RgbaCanvas, left: i32, top: i32)
        requires
            drawable(old(img)),
            left + 170 <= i32::MAX,
            top + 26 <= i32::MAX,
        ensures
            drawable(final(img)),
            final(img).width == old(img).width,
            final(img).height == old(img).height,
            final(img).data@ == map_pixels(old(img).data@, old(img).width as nat,
                |x: int, y: int, p: Rgba| shaded_pixel(left as int, top as int, x, y, p)),
    {
        let ghost w = img.width as nat;
        let ghost h = img.height as nat;
        let ghost before = img.data@;
        let right = left + 169;
        let bottom = top + 25;
        let mut x: i32 = left;
        while x < right
            invariant
                drawable(img),
                img.width == w,
                img.height == h,
                before.len() == 4 * w * h,
                left <= x <= right,
                right == left + 169,
                bottom == top + 25,
                forall|px: int, py: int| in_image(w, h, px, py) ==> #[trigger] pixel_at(img.data@, w, px, py)
                    == if in_rect(px, py, left as int, top as int, x - left, 25) {
                        shade(pixel_at(before, w, px, py))
                    } else {
                        pixel_at(before, w, px, py)
                    },
            decreases right - x,
        {
            let mut y: i32 = top;
            while y < bottom
                invariant
                    drawable(img),
                    img.width == w,
                    img.height == h,
                    left <= x < right,
                    top <= y <= bottom,
                    right == left + 169,
                    bottom == top + 25,
                    forall|px: int, py: int| in_image(w, h, px, py) ==> #[trigger] pixel_at(img.data@, w, px, py)
                        == if in_rect(px, py, left as int, top as int, x - left, 25)
                            || (px == x && top <= py < y) {
                            shade(pixel_at(before, w, px, py))
                        } else {
                            pixel_at(before, w, px, py)
                        },
                decreases bottom - y,
            {
                if x >= 0 && x < img.width as i32 && y >= 0 && y < img.height as i32 {
                    let p = img.get_pixel(x as u32, y as u32);
                    let shaded = Rgba {
                        r: ((p.r as u16 + 18) / 2) as u8,
                        g: ((p.g as u16 + 22) / 2) as u8,
                        b: ((p.b as u16 + 30) / 2) as u8,
                        a: p.a,
                    };
                    img.put_pixel(x as u32, y as u32, shaded);
                }
                y = y + 1;
            }
            x = x + 1;
        }
        proof {
            let f = |px: int, py: int, p: Rgba| shaded_pixel(left as int, top as int, px, py, p);
            assert forall|px: int, py: int| in_image(w, h, px, py) implies
                #[trigger] pixel_at(img.data@, w, px, py) == f(px, py, pixel_at(before, w, px, py)) by {
            }
            lemma_map_pixels(before, img.data@, w, h, f);
        }
    }
}

/// Whether a box can be drawn with its shadow (`box_ok`).
fn box_check(b: BoundingBoxAnnotation) -> (r: bool)
    ensures
        r == box_ok(b),
{
    let left = b.x as i64 + 3;
    let top = b.y as i64 + 3;
    let w = b.width as i64;
    let h = b.height as i64;
    0 < w && w <= 0x7fff_ffff && 0 < h && h <= 0x7fff_ffff
        && left + w <= 0x7fff_ffff - 63 && top + h <= 0x7fff_ffff - 63
}

/// Whether a click's rings and dot can be drawn (`click_ok`).
fn click_check(c: ClickAnnotation) -> (r: bool)
    ensures
        r == click_ok(c),
{
    let x = c.x as i64;
    let y = c.y as i64;
    let r = c.radius as i64;
    let ring = |rad: i64| -> (ok: bool)
        requires
            -0x1_0000_0000 <= rad <= 0x1_0000_0000,
        ensures
            ok == circle_ok(x as int, y as int, rad as int),
    {
        -0x7fff_fffe <= rad && rad <= 0x3fff_fff0
            && (rad < 0 || (-0x8000_0000 <= x - rad && x + rad <= 0x7fff_ffff
                && -0x8000_0000 <= y - rad && y + rad <= 0x7fff_ffff))
    };
    c.radius < 0x7fff_ffff && ring(r) && ring(r + 1) && ring(4) && x + 4 <= 0x7fff_ffff - 64
}

impl AnnotationEngine {
    /// Whether `apply_annotations` can draw these clicks and boxes (`annotations_ok`).
    pub fn annotations_fit(clicks: &[ClickAnnotation], boxes: &[BoundingBoxAnnotation]) -> (r: bool)
        ensures
            r == annotations_ok(clicks@, boxes@),
    {
        let mut i: usize = 0;
        while i < boxes.len()
            invariant
                i <= boxes@.len(),
                forall|k: int| 0 <= k < i ==> box_ok(#[trigger] boxes@[k]),
            decreases boxes@.len() - i,
        {
            if !box_check(boxes[i]) {
                return false;
            }
            i = i + 1;
        }
        let mut j: usize = 0;
        while j < clicks.len()
            invariant
                j <= clicks@.len(),
                forall|k: int| 0 <= k < j ==> click_ok(#[trigger] clicks@[k]),
            decreases clicks@.len() - j,
        {
            if !click_check(clicks[j]) {
                return false;
            }
            j = j + 1;
        }
        true
    }
}

/// Whatever corner is named, an element 20 pixels in from the edges fits in
/// an image that leaves room for those margins.
pub proof fn lemma_corner_inside(iw: int, ih: int, ew: int, eh: int, position: Seq<char>)
    requires
        0 <= ew,
        0 <= eh,
        ew + 40 <= iw,
        eh + 40 <= ih,
    ensures
        20 <= spec_corner(iw, ih, ew, eh, position).0,
        spec_corner(iw, ih, ew, eh, position).0 + ew + 20 <= iw,
        20 <= spec_corner(iw, ih, ew, eh, position).1,
        spec_corner(iw, ih, ew, eh, position).1 + eh + 20 <= ih,
{
}

/// Where the logo's top-left corner goes, in words: 20 pixels in from the
/// named corner's two edges (bottom right for any other name), or against
/// the far edge when the image is too small for that.
pub open spec fn expected_logo_corner(iw: int, ih: int, lw: int, lh: int, position: Seq<char>) -> (int, int) {
    let left = 20;
    let top = 20;
    let right = if iw >= lw + 20 { iw - lw - 20 } else { 0 };
    let bottom = if ih >= lh + 20 { ih - lh - 20 } else { 0 };
    if position == "TopLeft"@ {
        (left, top)
    } else if position == "TopRight"@ {
        (right, top)
    } else if position == "BottomLeft"@ {
        (left, bottom)
    } else {
        (right, bottom)
    }
}

/// Stamping a logo puts each of its pixels whose alpha exceeds 10 at that
/// pixel's offset from the corner position: for the bottom-right corner of
/// an image with room for it, the logo's right edge is 20 pixels from the
/// image's right edge and its bottom edge 20 pixels from the bottom. Pixels
/// the logo does not cover, or covers with alpha 10 or less, stay.
pub proof fn lemma_logo_placement(
    d: Seq<u8>, w: u32, h: u32, ld: Seq<u8>, lw: u32, lh: u32, position: Seq<char>, i: int, j: int,
)
    requires
        d.len() == 4 * w * h,
        ld.len() == 4 * lw * lh,
        0 <= i < lw,
        0 <= j < lh,
    ensures
        ({
            let (ox, oy) = expected_logo_corner(w as int, h as int, lw as int, lh as int, position);
            let stamped = logo_stamped(d, w, h, Some((ld, lw, lh)), position);
            &&& in_image(w as nat, h as nat, ox + i, oy + j) && pixel_at(ld, lw as nat, i, j).a > 10
                ==> pixel_at(stamped, w as nat, ox + i, oy + j) == pixel_at(ld, lw as nat, i, j)
            &&& in_image(w as nat, h as nat, ox + i, oy + j) && pixel_at(ld, lw as nat, i, j).a <= 10
                ==> pixel_at(stamped, w as nat, ox + i, oy + j) == pixel_at(d, w as nat, ox + i, oy + j)
        }),
        position == "BottomRight"@ && lw + 40 <= w && lh + 40 <= h ==>
            expected_logo_corner(w as int, h as int, lw as int, lh as int, position).0 + lw + 20 == w
            && expected_logo_corner(w as int, h as int, lw as int, lh as int, position).1 + lh + 20 == h,
{
    reveal_strlit("BottomLeft");
    reveal_strlit("TopRight");
    reveal_strlit("TopLeft");
    reveal_strlit("BottomRight");
    assert("TopLeft"@.len() == 7 && "TopRight"@.len() == 8 && "BottomLeft"@.len() == 10
        && "BottomRight"@.len() == 11);
    let (ox, oy) = expected_logo_corner(w as int, h as int, lw as int, lh as int, position);
    assert(spec_corner(w as int, h as int, lw as int, lh as int, position) == (ox, oy));
    if in_image(w as nat, h as nat, ox + i, oy + j) {
        let f = |x: int, y: int, p: Rgba| logo_pixel(ld, lw as nat, lh as nat, ox, oy, x, y, p);
        lemma_map_pixels_at(d, w as nat, h as nat, f, ox + i, oy + j);
    }
}

} // verus!
