//! An RGBA image held as plain bytes, the pixel-level view of it, and the
//! drawing primitives of imageproc applied to it.

use vstd::prelude::*;
use vstd::arithmetic::div_mod::{lemma_fundamental_div_mod, lemma_mod_pos_bound, lemma_fundamental_div_mod_converse};

verus! {

/// An RGBA colour.
#[derive(Debug, Clone, Copy, PartialEq, Eq, Structural)]
pub struct Rgba {
    pub r: u8,
    pub g: u8,
    pub b: u8,
    pub a: u8,
}

/// An RGBA image: `width` by `height` pixels, row by row, four bytes each.
#[derive(Debug, Clone)]
pub struct RgbaCanvas {
    pub width: u32,
    pub height: u32,
    pub data: Vec<u8>,
}

impl RgbaCanvas {
    /// The bytes are exactly the pixels.
    pub open spec fn wf(&self) -> bool {
        self.data@.len() == 4 * self.width * self.height
    }
}

/// Channel `k` of a colour (0: red, 1: green, 2: blue, 3: alpha).
pub open spec fn channel(c: Rgba, k: int) -> u8 {
    if k == 0 { c.r } else if k == 1 { c.g } else if k == 2 { c.b } else { c.a }
}

/// The first byte of pixel `(x, y)` in an image `w` pixels wide.
pub open spec fn pixel_index(w: nat, x: int, y: int) -> int {
    4 * (y * w + x)
}

/// The colour of pixel `(x, y)`.
pub open spec fn pixel_at(data: Seq<u8>, w: nat, x: int, y: int) -> Rgba {
    let i = pixel_index(w, x, y);
    Rgba { r: data[i], g: data[i + 1], b: data[i + 2], a: data[i + 3] }
}

/// The column of the pixel that byte `i` belongs to.
pub open spec fn px_x(i: int, w: nat) -> int {
    (i / 4) % (w as int)
}

/// The row of the pixel that byte `i` belongs to.
pub open spec fn px_y(i: int, w: nat) -> int {
    (i / 4) / (w as int)
}

/// The image whose pixel `(x, y)` is `f(x, y, p)`, `p` being that pixel of `data`.
pub open spec fn map_pixels(data: Seq<u8>, w: nat, f: spec_fn(int, int, Rgba) -> Rgba) -> Seq<u8> {
    Seq::new(data.len(), |i: int| channel(f(px_x(i, w), px_y(i, w), pixel_at(data, w, px_x(i, w), px_y(i, w))), i % 4))
}

/// Pixel `(x, y)` lies inside the image.
pub open spec fn in_image(w: nat, h: nat, x: int, y: int) -> bool {
    0 <= x < w && 0 <= y < h
}

/// The bytes of an in-image pixel lie inside the data.
pub proof fn lemma_pixel_in_data(w: nat, h: nat, x: int, y: int)
    requires
        in_image(w, h, x, y),
    ensures
        0 <= pixel_index(w, x, y),
        pixel_index(w, x, y) + 3 < 4 * w * h,
{
    assert(0 <= y * w) by (nonlinear_arith)
        requires 0 <= y, 0 <= w;
    assert(4 * (y * w + x) + 3 < 4 * w * h) by (nonlinear_arith)
        requires 0 <= x < w, 0 <= y < h;
}

/// The byte index of an in-image pixel, computed in `usize`.
fn byte_index(c: &RgbaCanvas, x: u32, y: u32) -> (i: usize)
    requires
        c.wf(),
        x < c.width,
        y < c.height,
    ensures
        i == pixel_index(c.width as nat, x as int, y as int),
        i + 3 < c.data@.len(),
{
    proof {
        lemma_pixel_in_data(c.width as nat, c.height as nat, x as int, y as int);
        let w = c.width as int;
        assert(y * w <= y * w + x) by (nonlinear_arith) requires 0 <= x;
        assert(0 <= y * w) by (nonlinear_arith) requires 0 <= y, 0 <= w;
    }
    assert(c.data.len() == c.data@.len());
    4 * ((y as usize) * (c.width as usize) + (x as usize))
}

/// Each byte of the data is one channel of one in-image pixel.
pub proof fn lemma_byte_decompose(w: nat, h: nat, i: int)
    requires
        0 <= i < 4 * w * h,
    ensures
        in_image(w, h, px_x(i, w), px_y(i, w)),
        0 <= i % 4 < 4,
        i == pixel_index(w, px_x(i, w), px_y(i, w)) + i % 4,
{
    assert(w > 0) by (nonlinear_arith)
        requires 0 <= i < 4 * w * h;
    lemma_fundamental_div_mod(i, 4);
    lemma_mod_pos_bound(i, 4);
    let p = i / 4;
    assert(0 <= p < w * h) by (nonlinear_arith)
        requires 0 <= i < 4 * w * h, i == 4 * p + i % 4, 0 <= i % 4 < 4;
    lemma_fundamental_div_mod(p, w as int);
    lemma_mod_pos_bound(p, w as int);
    let y = p / (w as int);
    let x = p % (w as int);
    assert(0 <= y < h) by (nonlinear_arith)
        requires 0 <= p < w * h, p == w * y + x, 0 <= x < w, w > 0;
    assert(p == y * w + x) by (nonlinear_arith)
        requires p == w * y + x;
}

/// An image that agrees pixel by pixel with `f` applied to `old` is
/// `map_pixels(old, w, f)`.
pub proof fn lemma_map_pixels(old: Seq<u8>, new: Seq<u8>, w: nat, h: nat, f: spec_fn(int, int, Rgba) -> Rgba)
    requires
        old.len() == 4 * w * h,
        new.len() == old.len(),
        forall|x: int, y: int| in_image(w, h, x, y)
            ==> #[trigger] pixel_at(new, w, x, y) == f(x, y, pixel_at(old, w, x, y)),
    ensures
        new == map_pixels(old, w, f),
{
    assert forall|i: int| 0 <= i < new.len() implies new[i] == #[trigger] map_pixels(old, w, f)[i] by {
        lemma_byte_decompose(w, h, i);
        let x = px_x(i, w);
        let y = px_y(i, w);
        assert(pixel_at(new, w, x, y) == f(x, y, pixel_at(old, w, x, y)));
    }
    assert(new =~= map_pixels(old, w, f));
}

/// The bytes of an in-image pixel belong to that pixel.
pub proof fn lemma_pixel_bytes(w: nat, h: nat, x: int, y: int, k: int)
    requires
        in_image(w, h, x, y),
        0 <= k < 4,
    ensures
        px_x(pixel_index(w, x, y) + k, w) == x,
        px_y(pixel_index(w, x, y) + k, w) == y,
        (pixel_index(w, x, y) + k) % 4 == k,
{
    let i = pixel_index(w, x, y) + k;
    let p = y * w + x;
    assert(i == p * 4 + k);
    lemma_fundamental_div_mod_converse(i, 4, p, k);
    lemma_fundamental_div_mod_converse(p, w as int, y, x);
}

/// Reading a pixel of `map_pixels` applies the map to that pixel.
pub proof fn lemma_map_pixels_at(d: Seq<u8>, w: nat, h: nat, f: spec_fn(int, int, Rgba) -> Rgba, x: int, y: int)
    requires
        d.len() == 4 * w * h,
        in_image(w, h, x, y),
    ensures
        pixel_at(map_pixels(d, w, f), w, x, y) == f(x, y, pixel_at(d, w, x, y)),
{
    lemma_pixel_in_data(w, h, x, y);
    lemma_pixel_bytes(w, h, x, y, 0);
    lemma_pixel_bytes(w, h, x, y, 1);
    lemma_pixel_bytes(w, h, x, y, 2);
    lemma_pixel_bytes(w, h, x, y, 3);
}

impl RgbaCanvas {
    /// A canvas of the given size over `data`, when `data` holds exactly
    /// its pixels.
    pub fn from_raw(width: u32, height: u32, data: Vec<u8>) -> (r: Option<RgbaCanvas>)
        ensures
            match r {
                Some(c) => c.width == width && c.height == height && c.data@ == data@ && c.wf(),
                None => data@.len() != 4 * width * height,
            },
    {
        let n = data.len() as u128;
        assert(4 * (width as u128) * (height as u128) <= 4 * 0xffff_ffffu128 * 0xffff_ffffu128) by (nonlinear_arith);
        if n == 4 * (width as u128) * (height as u128) {
            Some(RgbaCanvas { width, height, data })
        } else {
            None
        }
    }

    /// The colour of pixel `(x, y)`.
    pub fn get_pixel(&self, x: u32, y: u32) -> (c: Rgba)
        requires
            self.wf(),
            x < self.width,
            y < self.height,
        ensures
            c == pixel_at(self.data@, self.width as nat, x as int, y as int),
    {
        let i = byte_index(self, x, y);
        Rgba { r: self.data[i], g: self.data[i + 1], b: self.data[i + 2], a: self.data[i + 3] }
    }

    /// Paints pixel `(x, y)` with `c`; every other pixel stays.
    pub fn put_pixel(&mut self, x: u32, y: u32, c: Rgba)
        requires
            old(self).wf(),
            x < old(self).width,
            y < old(self).height,
        ensures
            final(self).wf(),
            final(self).width == old(self).width,
            final(self).height == old(self).height,
            final(self).data@ == map_pixels(old(self).data@, old(self).width as nat,
                |px: int, py: int, p: Rgba| if px == x && py == y { c } else { p }),
            forall|px: int, py: int| in_image(old(self).width as nat, old(self).height as nat, px, py)
                ==> #[trigger] pixel_at(final(self).data@, old(self).width as nat, px, py)
                == if px == x && py == y { c } else { pixel_at(old(self).data@, old(self).width as nat, px, py) },
    {
        let ghost w = self.width as nat;
        let ghost h = self.height as nat;
        let ghost before = self.data@;
        let i = byte_index(self, x, y);
        self.data.set(i, c.r);
        self.data.set(i + 1, c.g);
        self.data.set(i + 2, c.b);
        self.data.set(i + 3, c.a);
        proof {
            let f = |px: int, py: int, p: Rgba| if px == x && py == y { c } else { p };
            assert forall|px: int, py: int| in_image(w, h, px, py)
                implies #[trigger] pixel_at(self.data@, w, px, py) == f(px, py, pixel_at(before, w, px, py)) by {
                lemma_pixel_in_data(w, h, px, py);
                if px != x || py != y {
                    let j = pixel_index(w, px, py);
                    assert(j + 3 < i as int || j > i + 3) by (nonlinear_arith)
                        requires j == 4 * (py * w + px), i == 4 * (y * w + x), 0 <= px < w,
                            0 <= x < w, (px != x || py != y);
                }
            }
            lemma_map_pixels(before, self.data@, w, h, f);
        }
    }
}


// ---------------------------------------------------------------------------
// Drawing through imageproc

/// The canvas holds its pixels and imageproc can address its size with `i32`.
pub open spec fn drawable(c: &RgbaCanvas) -> bool {
    c.wf() && c.width <= 0x7fff_ffff && c.height <= 0x7fff_ffff
}

/// A rectangle that imageproc can build and draw without overflow: a
/// positive size that fits in `i32` (its edges are computed there), and
/// right and bottom edges at least 64 below `i32::MAX`, so that the edge
/// read back from a single-precision float (within 64 of it up there)
/// stays below `i32::MAX` and the line iterator can step one past it.
pub open spec fn rect_drawable(left: int, top: int, w: int, h: int) -> bool {
    &&& 0 < w <= 0x7fff_ffff
    &&& 0 < h <= 0x7fff_ffff
    &&& left + w <= 0x7fff_ffff - 63
    &&& top + h <= 0x7fff_ffff - 63
}

/// Coordinates that a single-precision float holds exactly.
pub open spec fn exact_coord(v: int) -> bool {
    -0x100_0000 <= v <= 0x100_0000
}

/// A circle outline that imageproc's midpoint algorithm draws without
/// overflow: its decision variable stays between `-2 * radius` and
/// `2 * radius + 5`, which fits in `i32` for radii up to `2^30 - 16`, and
/// every point it plots, up to `radius` from the centre, has coordinates
/// that fit in `i32`.
pub open spec fn circle_ok(cx: int, cy: int, radius: int) -> bool {
    &&& -0x7fff_fffe <= radius <= 0x3fff_fff0
    &&& radius >= 0 ==> {
        &&& i32::MIN <= cx - radius && cx + radius <= i32::MAX
        &&& i32::MIN <= cy - radius && cy + radius <= i32::MAX
    }
}

/// A disc that imageproc draws without overflow: as for the outline, and
/// its horizontal spans end at least 64 below `i32::MAX` (they are drawn as
/// floating-point line segments whose iterator steps one past the end).
pub open spec fn disc_ok(cx: int, cy: int, radius: int) -> bool {
    &&& circle_ok(cx, cy, radius)
    &&& radius >= 0 ==> cx + radius <= 0x7fff_ffff - 64
}

/// An ellipse outline that imageproc draws without overflow. Equal radii
/// are drawn as a circle. Otherwise: radii from 0 to 46340, which can be
/// squared in `i32` (as can the height radius less one), and every point it
/// plots (at most the sum of the radii from the centre along either axis)
/// within `i32`.
pub open spec fn ellipse_ok(cx: int, cy: int, rx: int, ry: int) -> bool {
    let reach = rx + ry + 2;
    if rx == ry {
        circle_ok(cx, cy, rx)
    } else {
        &&& 0 <= rx <= 46340
        &&& 0 <= ry <= 46340
        &&& i32::MIN <= cx - reach && cx + reach <= i32::MAX
        &&& i32::MIN <= cy - reach && cy + reach <= i32::MAX
    }
}

/// Every in-image pixel of `new` is the pixel of `old` or `color`.
pub open spec fn only_painted(old: Seq<u8>, new: Seq<u8>, w: nat, h: nat, color: Rgba) -> bool {
    forall|x: int, y: int| in_image(w, h, x, y) ==> {
        let p = #[trigger] pixel_at(new, w, x, y);
        p == pixel_at(old, w, x, y) || p == color
    }
}

/// Painting only `color` twice paints only `color`.
pub proof fn lemma_only_painted_trans(a: Seq<u8>, b: Seq<u8>, c: Seq<u8>, w: nat, h: nat, color: Rgba)
    requires
        only_painted(a, b, w, h, color),
        only_painted(b, c, w, h, color),
    ensures
        only_painted(a, c, w, h, color),
{
    assert forall|x: int, y: int| in_image(w, h, x, y) implies {
        let p = #[trigger] pixel_at(c, w, x, y);
        p == pixel_at(a, w, x, y) || p == color
    } by {
        let pb = pixel_at(b, w, x, y);
        let pc = pixel_at(c, w, x, y);
    }
}

/// Text to write onto an image: `text` with its top-left corner at
/// `(x, y)`, `scale` pixels high, in `color`.
#[derive(Debug, Clone, PartialEq, Eq)]
pub struct TextStamp {
    pub x: i32,
    pub y: i32,
    pub scale: u32,
    pub color: Rgba,
    pub text: String,
}

impl TextStamp {
    /// The stamp as plain values.
    pub open spec fn spec_parts(&self) -> (i32, i32, u32, Rgba, Seq<char>) {
        (self.x, self.y, self.scale, self.color, self.text@)
    }
}

/// Pixel `(x, y)` lies on the outline of the rectangle.
pub open spec fn on_rect_outline(x: int, y: int, left: int, top: int, w: int, h: int) -> bool {
    let right = left + w - 1;
    let bottom = top + h - 1;
    ((y == top || y == bottom) && left <= x <= right) || ((x == left || x == right) && top <= y <= bottom)
}

/// Pixel `(x, y)` lies inside the rectangle.
pub open spec fn in_rect(x: int, y: int, left: int, top: int, w: int, h: int) -> bool {
    left <= x < left + w && top <= y < top + h
}

/// The rectangle's edges and the image size are held exactly by
/// single-precision floats, in which imageproc draws the edges.
pub open spec fn rect_exact(left: int, top: int, w: int, h: int, cw: u32, ch: u32) -> bool {
    &&& exact_coord(left)
    &&& exact_coord(top)
    &&& exact_coord(left + w - 1)
    &&& exact_coord(top + h - 1)
    &&& exact_coord(cw as int)
    &&& exact_coord(ch as int)
}

/// The image with the outline of the rectangle painted in `color`.
pub open spec fn outline_painted(d: Seq<u8>, cw: u32, left: int, top: int, w: int, h: int, color: Rgba) -> Seq<u8> {
    map_pixels(d, cw as nat, outline_pixel(left, top, w, h, color))
}

/// A pixel after the outline of the rectangle is painted in `color`.
pub open spec fn outline_pixel(left: int, top: int, w: int, h: int, color: Rgba) -> spec_fn(int, int, Rgba) -> Rgba {
    |x: int, y: int, p: Rgba| if on_rect_outline(x, y, left, top, w, h) { color } else { p }
}

/// Reading a pixel after an outline is painted: `color` on the outline,
/// the old pixel elsewhere.
pub proof fn lemma_outline_painted_at(d: Seq<u8>, cw: u32, ch: u32, left: int, top: int, w: int, h: int,
    color: Rgba, px: int, py: int)
    requires
        d.len() == 4 * cw * ch,
        in_image(cw as nat, ch as nat, px, py),
    ensures
        outline_painted(d, cw, left, top, w, h, color).len() == d.len(),
        pixel_at(outline_painted(d, cw, left, top, w, h, color), cw as nat, px, py)
            == if on_rect_outline(px, py, left, top, w, h) { color } else { pixel_at(d, cw as nat, px, py) },
{
    lemma_map_pixels_at(d, cw as nat, ch as nat, outline_pixel(left, top, w, h, color), px, py);
}

/// The image after `draw_hollow_rect_mut`.
pub uninterp spec fn hollow_rect_drawn(data: Seq<u8>, width: u32, height: u32, left: i32, top: i32, w: u32, h: u32, color: Rgba) -> Seq<u8>;

/// The image after `draw_hollow_circle_mut`.
pub uninterp spec fn hollow_circle_drawn(data: Seq<u8>, width: u32, height: u32, cx: i32, cy: i32, radius: i32, color: Rgba) -> Seq<u8>;

/// The image after `draw_filled_circle_mut`.
pub uninterp spec fn filled_circle_drawn(data: Seq<u8>, width: u32, height: u32, cx: i32, cy: i32, radius: i32, color: Rgba) -> Seq<u8>;

/// The image after `draw_hollow_ellipse_mut`.
pub uninterp spec fn hollow_ellipse_drawn(data: Seq<u8>, width: u32, height: u32, cx: i32, cy: i32, rx: i32, ry: i32, color: Rgba) -> Seq<u8>;

/// Draws the outline of the rectangle of size `w` by `h` at `(left, top)`.
/// Trusted: `imageproc::drawing::draw_hollow_rect_mut` on the canvas seen as
/// an `image::RgbaImage`. The image it leaves is named (`hollow_rect_drawn`).
/// Stated besides, from its source: it paints the four edges with `color`
/// and nothing else, as long as the edges and the image size are small
/// enough for single-precision floats to hold them exactly (the edges are
/// drawn as floating-point line segments); beyond that, only that it puts
/// nothing but `color` into pixels.
#[verifier::external_body]
pub(crate) fn draw_hollow_rect(canvas: &mut RgbaCanvas, left: i32, top: i32, w: u32, h: u32, color: Rgba)
    requires
        drawable(old(canvas)),
        rect_drawable(left as int, top as int, w as int, h as int),
    ensures
        only_painted(old(canvas).data@, final(canvas).data@, old(canvas).width as nat,
            old(canvas).height as nat, color),
        final(canvas).width == old(canvas).width,
        final(canvas).height == old(canvas).height,
        final(canvas).data@ == hollow_rect_drawn(old(canvas).data@, old(canvas).width, old(canvas).height,
            left, top, w, h, color),
        drawable(final(canvas)),
        rect_exact(left as int, top as int, w as int, h as int, old(canvas).width, old(canvas).height)
            ==> final(canvas).data@ == outline_painted(old(canvas).data@, old(canvas).width,
                left as int, top as int, w as int, h as int, color),
{
    let mut img = image::RgbaImage::from_raw(canvas.width, canvas.height, std::mem::take(&mut canvas.data)).unwrap();
    let rect = imageproc::rect::Rect::at(left, top).of_size(w, h);
    imageproc::drawing::draw_hollow_rect_mut(&mut img, rect, image::Rgba([color.r, color.g, color.b, color.a]));
    canvas.data = img.into_raw();
}

/// Fills the rectangle of size `w` by `h` at `(left, top)` with `color`.
/// Trusted: `imageproc::drawing::draw_filled_rect_mut` on the canvas seen
/// as an `image::RgbaImage`; from its source, it paints the part of the
/// rectangle inside the image and nothing else.
#[verifier::external_body]
pub(crate) fn draw_filled_rect(canvas: &mut RgbaCanvas, left: i32, top: i32, w: u32, h: u32, color: Rgba)
    requires
        drawable(old(canvas)),
        rect_drawable(left as int, top as int, w as int, h as int),
    ensures
        final(canvas).width == old(canvas).width,
        final(canvas).height == old(canvas).height,
        drawable(final(canvas)),
        final(canvas).data@ == map_pixels(old(canvas).data@, old(canvas).width as nat,
            |x: int, y: int, p: Rgba| if in_rect(x, y, left as int, top as int, w as int, h as int) {
                color
            } else {
                p
            }),
{
    let mut img = image::RgbaImage::from_raw(canvas.width, canvas.height, std::mem::take(&mut canvas.data)).unwrap();
    let rect = imageproc::rect::Rect::at(left, top).of_size(w, h);
    imageproc::drawing::draw_filled_rect_mut(&mut img, rect, image::Rgba([color.r, color.g, color.b, color.a]));
    canvas.data = img.into_raw();
}

/// The points `r` above and below `(cx, cy)` are `color`, where they lie in
/// the image.
pub open spec fn vertical_ends_painted(d: Seq<u8>, w: u32, h: u32, cx: int, cy: int, r: int, color: Rgba) -> bool {
    &&& in_image(w as nat, h as nat, cx, cy - r) ==> pixel_at(d, w as nat, cx, cy - r) == color
    &&& in_image(w as nat, h as nat, cx, cy + r) ==> pixel_at(d, w as nat, cx, cy + r) == color
}

/// Draws the outline of the circle of radius `radius` centred on `(cx, cy)`.
/// Trusted: `imageproc::drawing::draw_hollow_circle_mut` on the canvas seen
/// as an `image::RgbaImage`. The image it leaves is named
/// (`hollow_circle_drawn`); the midpoint algorithm is not restated. Stated
/// besides, from its source: it only ever puts `color` into pixels, and its
/// first step plots the points `radius` above and below the centre.
#[verifier::external_body]
pub(crate) fn draw_hollow_circle(canvas: &mut RgbaCanvas, cx: i32, cy: i32, radius: i32, color: Rgba)
    requires
        drawable(old(canvas)),
        circle_ok(cx as int, cy as int, radius as int),
    ensures
        radius >= 0 ==> vertical_ends_painted(final(canvas).data@, old(canvas).width, old(canvas).height,
            cx as int, cy as int, radius as int, color),
        only_painted(old(canvas).data@, final(canvas).data@, old(canvas).width as nat,
            old(canvas).height as nat, color),
        final(canvas).width == old(canvas).width,
        final(canvas).height == old(canvas).height,
        drawable(final(canvas)),
        final(canvas).data@ == hollow_circle_drawn(old(canvas).data@, old(canvas).width, old(canvas).height,
            cx, cy, radius, color),
{
    let mut img = image::RgbaImage::from_raw(canvas.width, canvas.height, std::mem::take(&mut canvas.data)).unwrap();
    imageproc::drawing::draw_hollow_circle_mut(&mut img, (cx, cy), radius, image::Rgba([color.r, color.g, color.b, color.a]));
    canvas.data = img.into_raw();
}

/// Draws the disc of radius `radius` centred on `(cx, cy)`.
/// Trusted: `imageproc::drawing::draw_filled_circle_mut` on the canvas seen
/// as an `image::RgbaImage`. The image it leaves is named
/// (`filled_circle_drawn`); the midpoint algorithm is not restated. Stated
/// besides, from its source: it only ever puts `color` into pixels.
#[verifier::external_body]
pub(crate) fn draw_filled_circle(canvas: &mut RgbaCanvas, cx: i32, cy: i32, radius: i32, color: Rgba)
    requires
        drawable(old(canvas)),
        disc_ok(cx as int, cy as int, radius as int),
    ensures
        only_painted(old(canvas).data@, final(canvas).data@, old(canvas).width as nat,
            old(canvas).height as nat, color),
        final(canvas).width == old(canvas).width,
        final(canvas).height == old(canvas).height,
        drawable(final(canvas)),
        final(canvas).data@ == filled_circle_drawn(old(canvas).data@, old(canvas).width, old(canvas).height,
            cx, cy, radius, color),
{
    let mut img = image::RgbaImage::from_raw(canvas.width, canvas.height, std::mem::take(&mut canvas.data)).unwrap();
    imageproc::drawing::draw_filled_circle_mut(&mut img, (cx, cy), radius, image::Rgba([color.r, color.g, color.b, color.a]));
    canvas.data = img.into_raw();
}

/// Draws the outline of the ellipse with radii `rx` and `ry` centred on `(cx, cy)`.
/// Trusted: `imageproc::drawing::draw_hollow_ellipse_mut` on the canvas seen
/// as an `image::RgbaImage`. The image it leaves is named
/// (`hollow_ellipse_drawn`); the midpoint algorithm is not restated. The
/// radii are squared in `i32`, hence their bound. Stated besides, from its
/// source: it only ever puts `color` into pixels, and its first step plots
/// the points `ry` above and below the centre (for equal radii, through the
/// circle's first step).
#[verifier::external_body]
pub(crate) fn draw_hollow_ellipse(canvas: &mut RgbaCanvas, cx: i32, cy: i32, rx: i32, ry: i32, color: Rgba)
    requires
        drawable(old(canvas)),
        ellipse_ok(cx as int, cy as int, rx as int, ry as int),
    ensures
        ry >= 0 ==> vertical_ends_painted(final(canvas).data@, old(canvas).width, old(canvas).height,
            cx as int, cy as int, ry as int, color),
        only_painted(old(canvas).data@, final(canvas).data@, old(canvas).width as nat,
            old(canvas).height as nat, color),
        final(canvas).width == old(canvas).width,
        final(canvas).height == old(canvas).height,
        drawable(final(canvas)),
        final(canvas).data@ == hollow_ellipse_drawn(old(canvas).data@, old(canvas).width, old(canvas).height,
            cx, cy, rx, ry, color),
{
    let mut img = image::RgbaImage::from_raw(canvas.width, canvas.height, std::mem::take(&mut canvas.data)).unwrap();
    imageproc::drawing::draw_hollow_ellipse_mut(&mut img, (cx, cy), rx, ry, image::Rgba([color.r, color.g, color.b, color.a]));
    canvas.data = img.into_raw();
}

// ---------------------------------------------------------------------------
// Decoding image files

/// The RGBA pixels of the image file held in `bytes` (width, height and
/// bytes, row by row), as the `image` crate decodes it; `None` when it
/// cannot.
pub uninterp spec fn decoded_image(bytes: Seq<u8>) -> Option<(u32, u32, Seq<u8>)>;

/// Decodes an image file held in memory into RGBA pixels.
/// Trusted: `image::load_from_memory`, converted with `DynamicImage::to_rgba8`.
/// The pixels are named (`decoded_image`), a function of the bytes alone;
/// stated besides: an `RgbaImage` holds exactly four bytes per pixel.
#[verifier::external_body]
pub(crate) fn decode_rgba(bytes: &[u8]) -> (r: Option<RgbaCanvas>)
    ensures
        match r {
            Some(c) => c.wf() && decoded_image(bytes@) == Some((c.width, c.height, c.data@)),
            None => decoded_image(bytes@) is None,
        },
{
    match image::load_from_memory(bytes) {
        Ok(img) => {
            let rgba = img.to_rgba8();
            Some(RgbaCanvas { width: rgba.width(), height: rgba.height(), data: rgba.into_raw() })
        },
        Err(_) => None,
    }
}

} // verus!
