//! The snapshot editor: the stack of shapes drawn on a snapshot, with undo
//! and step numbering, colour parsing, and the rendering of the shapes that
//! need no floating-point geometry.

use vstd::prelude::*;
use vstd::string::StringSliceAdditionalSpecFns;
use crate::canvas::{Rgba, RgbaCanvas, decoded_image, decode_rgba};
use crate::text::{stamped, stamped_name};

verus! {

/// A shape drawn on a snapshot. `F` is the type of the coordinates and
/// stroke widths given in fractional pixels (single-precision floats in the
/// program).
#[derive(Debug)]
pub enum AnnotationShape<F> {
    Arrow { start: (F, F), end: (F, F), color: Rgba, stroke: F },
    TextCallout { x: i32, y: i32, text: String, color: Rgba },
    RedactBox { x: i32, y: i32, width: u32, height: u32 },
    HighlightBox { x: i32, y: i32, width: u32, height: u32, color: Rgba, stroke: F },
    Oval { x: i32, y: i32, width: u32, height: u32, color: Rgba, stroke: F },
    StepNumber { x: i32, y: i32, num: u32, color: Rgba },
    Freehand { points: Vec<(F, F)>, color: Rgba, stroke: F },
    Spotlight { x: i32, y: i32, width: u32, height: u32 },
}

/// The shapes on a snapshot, oldest first, and how many numbered steps
/// have been placed.
pub struct AnnotationStack<F> {
    shapes: Vec<AnnotationShape<F>>,
    step_counter: u32,
}

/// The number of step markers among `shapes`.
pub open spec fn count_steps<F>(shapes: Seq<AnnotationShape<F>>) -> nat
    decreases shapes.len(),
{
    if shapes.len() == 0 {
        0
    } else {
        count_steps(shapes.drop_last()) + if shapes.last() is StepNumber { 1nat } else { 0nat }
    }
}

/// The step counter after pushing `shape`.
pub open spec fn counter_after_push<F>(counter: u32, shape: AnnotationShape<F>) -> int {
    if shape is StepNumber { counter + 1 } else { counter as int }
}

/// The step counter after undoing `shape`: one less for a step marker,
/// never below zero.
pub open spec fn counter_after_undo<F>(counter: u32, shape: AnnotationShape<F>) -> int {
    if shape is StepNumber { if counter > 0 { counter - 1 } else { 0 } } else { counter as int }
}

impl<F> AnnotationStack<F> {
    /// The shapes, oldest first.
    pub closed spec fn spec_shapes(&self) -> Seq<AnnotationShape<F>> {
        self.shapes@
    }

    /// The step counter.
    pub closed spec fn spec_counter(&self) -> u32 {
        self.step_counter
    }

    /// An empty stack.
    pub fn new() -> (s: AnnotationStack<F>)
        ensures
            s.spec_shapes() == Seq::<AnnotationShape<F>>::empty(),
            s.spec_counter() == 0,
    {
        AnnotationStack { shapes: Vec::new(), step_counter: 0 }
    }

    /// Adds a shape on top; a step marker advances the step counter.
    pub fn push(&mut self, shape: AnnotationShape<F>)
        requires
            shape is StepNumber ==> old(self).spec_counter() < u32::MAX,
        ensures
            final(self).spec_shapes() == old(self).spec_shapes().push(shape),
            final(self).spec_counter() == counter_after_push(old(self).spec_counter(), shape),
    {
        if matches!(shape, AnnotationShape::StepNumber { .. }) {
            self.step_counter = self.step_counter + 1;
        }
        self.shapes.push(shape);
    }

    /// Removes and returns the newest shape; removing a step marker moves
    /// the step counter back (not below zero). Nothing changes when empty.
    pub fn undo(&mut self) -> (r: Option<AnnotationShape<F>>)
        ensures
            match r {
                None => old(self).spec_shapes().len() == 0
                    && final(self).spec_shapes() == old(self).spec_shapes()
                    && final(self).spec_counter() == old(self).spec_counter(),
                Some(shape) => old(self).spec_shapes().len() > 0
                    && shape == old(self).spec_shapes().last()
                    && final(self).spec_shapes() == old(self).spec_shapes().drop_last()
                    && final(self).spec_counter() == counter_after_undo(old(self).spec_counter(), shape),
            },
    {
        match self.shapes.pop() {
            Some(shape) => {
                if matches!(shape, AnnotationShape::StepNumber { .. }) {
                    self.step_counter = self.step_counter.saturating_sub(1);
                }
                Some(shape)
            },
            None => None,
        }
    }

    /// Removes every shape and restarts step numbering.
    pub fn clear(&mut self)
        ensures
            final(self).spec_shapes() == Seq::<AnnotationShape<F>>::empty(),
            final(self).spec_counter() == 0,
    {
        self.shapes.clear();
        self.step_counter = 0;
    }

    /// The step counter: how many step markers have been placed and not
    /// undone since the stack was made or cleared.
    pub fn step_counter(&self) -> (n: u32)
        ensures
            n == self.spec_counter(),
    {
        self.step_counter
    }

    /// The number the next step marker carries.
    pub fn next_step(&self) -> (n: u32)
        requires
            self.spec_counter() < u32::MAX,
        ensures
            n == self.spec_counter() + 1,
    {
        self.step_counter + 1
    }

    /// The shapes, oldest first, for rendering.
    pub fn shapes(&self) -> (r: &Vec<AnnotationShape<F>>)
        ensures
            r@ == self.spec_shapes(),
    {
        &self.shapes
    }
}

impl<F> Default for AnnotationStack<F> {
    fn default() -> (s: AnnotationStack<F>)
        ensures
            s.spec_shapes() == Seq::<AnnotationShape<F>>::empty(),
            s.spec_counter() == 0,
    {
        AnnotationStack::new()
    }
}

/// Undoing right after a push gives back the shape pushed and restores the
/// shapes and the step counter.
pub proof fn lemma_undo_after_push<F>(shapes: Seq<AnnotationShape<F>>, counter: u32, shape: AnnotationShape<F>)
    requires
        shape is StepNumber ==> counter < u32::MAX,
    ensures
        shapes.push(shape).len() > 0,
        shapes.push(shape).last() == shape,
        shapes.push(shape).drop_last() == shapes,
        counter_after_undo(counter_after_push(counter, shape) as u32, shape) == counter,
{
    assert(shapes.push(shape).drop_last() =~= shapes);
}

/// Push, undo and clear keep the step counter equal to the number of step
/// markers on the stack, once it is.
pub proof fn lemma_counter_counts_steps<F>(shapes: Seq<AnnotationShape<F>>, counter: u32, shape: AnnotationShape<F>)
    requires
        counter == count_steps(shapes),
    ensures
        (shape is StepNumber ==> counter < u32::MAX)
            ==> counter_after_push(counter, shape) == count_steps(shapes.push(shape)),
        shapes.len() > 0 ==> counter_after_undo(counter, shapes.last()) == count_steps(shapes.drop_last()),
        count_steps(Seq::<AnnotationShape<F>>::empty()) == 0,
{
    assert(shapes.push(shape).drop_last() =~= shapes);
}

/// An operation on the shape stack: `push`, `undo` or `clear`.
pub enum StackOp<F> {
    Push(AnnotationShape<F>),
    Undo,
    Clear,
}

/// The shapes and the step counter after one operation, as the contracts of
/// `push`, `undo` and `clear` give them.
pub open spec fn apply_op<F>(shapes: Seq<AnnotationShape<F>>, counter: u32, op: StackOp<F>) -> (Seq<AnnotationShape<F>>, u32) {
    match op {
        StackOp::Push(shape) => (shapes.push(shape), counter_after_push(counter, shape) as u32),
        StackOp::Undo => if shapes.len() == 0 {
            (shapes, counter)
        } else {
            (shapes.drop_last(), counter_after_undo(counter, shapes.last()) as u32)
        },
        StackOp::Clear => (Seq::empty(), 0),
    }
}

/// The shapes and the step counter after a sequence of operations.
pub open spec fn run_ops<F>(shapes: Seq<AnnotationShape<F>>, counter: u32, ops: Seq<StackOp<F>>) -> (Seq<AnnotationShape<F>>, u32)
    decreases ops.len(),
{
    if ops.len() == 0 {
        (shapes, counter)
    } else {
        let (s2, c2) = apply_op(shapes, counter, ops[0]);
        run_ops(s2, c2, ops.drop_first())
    }
}

/// Every push of a step marker in `ops` meets `push`'s precondition: the
/// counter is below `u32::MAX` at that point.
pub open spec fn ops_allowed<F>(shapes: Seq<AnnotationShape<F>>, counter: u32, ops: Seq<StackOp<F>>) -> bool
    decreases ops.len(),
{
    if ops.len() == 0 {
        true
    } else {
        let ok = match ops[0] {
            StackOp::Push(shape) => shape is StepNumber ==> counter < u32::MAX,
            _ => true,
        };
        let (s2, c2) = apply_op(shapes, counter, ops[0]);
        ok && ops_allowed(s2, c2, ops.drop_first())
    }
}

/// Over any sequence of pushes, undos and clears that starts from a stack
/// whose counter counts its step markers (an empty stack, for one), the
/// counter keeps counting them; the next step number is one more.
pub proof fn lemma_counter_counts_over_runs<F>(shapes: Seq<AnnotationShape<F>>, counter: u32, ops: Seq<StackOp<F>>)
    requires
        counter == count_steps(shapes),
        ops_allowed(shapes, counter, ops),
    ensures
        run_ops(shapes, counter, ops).1 == count_steps(run_ops(shapes, counter, ops).0),
    decreases ops.len(),
{
    if ops.len() > 0 {
        let (s2, c2) = apply_op(shapes, counter, ops[0]);
        match ops[0] {
            StackOp::Push(shape) => {
                lemma_counter_counts_steps(shapes, counter, shape);
            },
            StackOp::Undo => {
                if shapes.len() > 0 {
                    lemma_counter_counts_steps(shapes, counter, shapes.last());
                }
            },
            StackOp::Clear => {
                assert(count_steps(Seq::<AnnotationShape<F>>::empty()) == 0);
            },
        }
        assert(c2 == count_steps(s2));
        lemma_counter_counts_over_runs(s2, c2, ops.drop_first());
    }
}

// ---------------------------------------------------------------------------
// Colours written as hexadecimal text

/// The value of a hexadecimal digit byte.
pub open spec fn hex_digit_value(b: u8) -> Option<nat> {
    if 0x30 <= b <= 0x39 {
        Some((b - 0x30) as nat)
    } else if 0x61 <= b <= 0x66 {
        Some((b - 0x61 + 10) as nat)
    } else if 0x41 <= b <= 0x46 {
        Some((b - 0x41 + 10) as nat)
    } else {
        None
    }
}

/// What `u8::from_str_radix(.., 16)` reads from two bytes: two hex digits,
/// or `+` and one hex digit.
pub open spec fn hex_pair_value(b0: u8, b1: u8) -> Option<nat> {
    if b0 == 0x2B {
        hex_digit_value(b1)
    } else {
        match (hex_digit_value(b0), hex_digit_value(b1)) {
            (Some(h), Some(l)) => Some(16 * h + l),
            _ => None,
        }
    }
}

/// `b` without its leading `#` bytes.
pub open spec fn trim_hashes(b: Seq<u8>) -> Seq<u8>
    decreases b.len(),
{
    if b.len() > 0 && b[0] == 0x23 { trim_hashes(b.drop_first()) } else { b }
}

/// Byte `i` of `b` starts a character (or is the end).
pub open spec fn is_boundary(b: Seq<u8>, i: int) -> bool {
    i == b.len() || !(0x80 <= b[i] < 0xC0)
}

/// A colour channel read from bytes `i` and `i + 1`, or `fallback`.
pub open spec fn channel_from(b: Seq<u8>, i: int, fallback: u8) -> u8 {
    match hex_pair_value(b[i], b[i + 1]) {
        Some(v) => v as u8,
        None => fallback,
    }
}

/// The colour `#RRGGBB` names, opaque; green (34, 212, 94) when the text
/// is shorter, and each unreadable channel at its value in that green.
pub open spec fn spec_parse_color_hex(text: Seq<u8>) -> Rgba {
    let b = trim_hashes(text);
    if b.len() < 6 {
        Rgba { r: 34, g: 212, b: 94, a: 255 }
    } else {
        Rgba { r: channel_from(b, 0, 34), g: channel_from(b, 2, 212), b: channel_from(b, 4, 94), a: 255 }
    }
}

/// The byte of the hexadecimal digit with value `d` (0 to 15): `0`-`9`,
/// then `A`-`F` in capitals, or `a`-`f` in lower case.
pub open spec fn hex_digit_byte(d: int, upper: bool) -> int {
    if d < 10 { 48 + d } else if upper { 65 + (d - 10) } else { 97 + (d - 10) }
}

/// Every hexadecimal digit, in either case, reads as its value, and no
/// other byte reads as a digit.
pub proof fn lemma_hex_digits_read(d: int, upper: bool, b: u8)
    requires
        0 <= d < 16,
    ensures
        hex_digit_value(hex_digit_byte(d, upper) as u8) == Some(d as nat),
        !((48 <= b <= 57) || (65 <= b <= 70) || (97 <= b <= 102)) ==> hex_digit_value(b) is None,
{
}

/// The text `#RRGGBB`, each channel as two hexadecimal digits (high digit
/// first) in the given case.
pub open spec fn hex_color_text(r: u8, g: u8, b: u8, upper: bool) -> Seq<u8> {
    seq![35u8,
        hex_digit_byte(r as int / 16, upper) as u8, hex_digit_byte(r as int % 16, upper) as u8,
        hex_digit_byte(g as int / 16, upper) as u8, hex_digit_byte(g as int % 16, upper) as u8,
        hex_digit_byte(b as int / 16, upper) as u8, hex_digit_byte(b as int % 16, upper) as u8]
}

/// Writing a colour as `#RRGGBB`, in capitals or lower case, and parsing
/// it gives the colour back, opaque.
pub proof fn lemma_parse_color_round_trip(r: u8, g: u8, b: u8, upper: bool)
    ensures
        spec_parse_color_hex(hex_color_text(r, g, b, upper)) == (Rgba { r, g, b, a: 255 }),
{
    let t = hex_color_text(r, g, b, upper);
    lemma_hex_digits_read(r as int / 16, upper, 0);
    lemma_hex_digits_read(r as int % 16, upper, 0);
    lemma_hex_digits_read(g as int / 16, upper, 0);
    lemma_hex_digits_read(g as int % 16, upper, 0);
    lemma_hex_digits_read(b as int / 16, upper, 0);
    lemma_hex_digits_read(b as int % 16, upper, 0);
    assert(t.drop_first()[0] != 35u8);
    assert(trim_hashes(t.drop_first()) == t.drop_first());
    assert(trim_hashes(t) == t.drop_first());
    let u = t.drop_first();
    assert(u[0] == hex_digit_byte(r as int / 16, upper) as u8);
    assert(u[1] == hex_digit_byte(r as int % 16, upper) as u8);
    assert(u[2] == hex_digit_byte(g as int / 16, upper) as u8);
    assert(u[3] == hex_digit_byte(g as int % 16, upper) as u8);
    assert(u[4] == hex_digit_byte(b as int / 16, upper) as u8);
    assert(u[5] == hex_digit_byte(b as int % 16, upper) as u8);
    assert(16 * (r as int / 16) + r as int % 16 == r);
    assert(16 * (g as int / 16) + g as int % 16 == g);
    assert(16 * (b as int / 16) + b as int % 16 == b);
}

fn hex_digit(b: u8) -> (r: Option<u8>)
    ensures
        match r {
            Some(v) => hex_digit_value(b) == Some(v as nat) && v < 16,
            None => hex_digit_value(b) is None,
        },
{
    if 0x30 <= b && b <= 0x39 {
        Some(b - 0x30)
    } else if 0x61 <= b && b <= 0x66 {
        Some(b - 0x61 + 10)
    } else if 0x41 <= b && b <= 0x46 {
        Some(b - 0x41 + 10)
    } else {
        None
    }
}

fn hex_pair(b0: u8, b1: u8, fallback: u8) -> (r: u8)
    ensures
        r == match hex_pair_value(b0, b1) {
            Some(v) => v as u8,
            None => fallback,
        },
{
    if b0 == 0x2B {
        match hex_digit(b1) {
            Some(v) => v,
            None => fallback,
        }
    } else {
        match (hex_digit(b0), hex_digit(b1)) {
            (Some(h), Some(l)) => h * 16 + l,
            _ => fallback,
        }
    }
}

/// The colour a hexadecimal text such as `#22D45E` names (see
/// `spec_parse_color_hex`). The text must split into characters at the
/// channel boundaries: each channel is read from a two-byte slice of the
/// text, which must not cut a character in two.
pub fn parse_color_hex(hex: &str) -> (c: Rgba)
    requires
        trim_hashes(hex.spec_bytes()).len() >= 6 ==> (is_boundary(trim_hashes(hex.spec_bytes()), 2)
            && is_boundary(trim_hashes(hex.spec_bytes()), 4) && is_boundary(trim_hashes(hex.spec_bytes()), 6)),
    ensures
        c == spec_parse_color_hex(hex.spec_bytes()),
{
    let bytes = hex.as_bytes();
    let mut start: usize = 0;
    assert(bytes@.skip(0) =~= bytes@);
    while start < bytes.len() && bytes[start] == 0x23
        invariant
            start <= bytes@.len(),
            trim_hashes(bytes@) == trim_hashes(bytes@.skip(start as int)),
        decreases bytes@.len() - start,
    {
        assert(bytes@.skip(start as int).drop_first() =~= bytes@.skip(start + 1));
        start = start + 1;
    }
    let ghost t = bytes@.skip(start as int);
    assert(trim_hashes(bytes@) == t);
    if bytes.len() - start < 6 {
        return Rgba { r: 34, g: 212, b: 94, a: 255 };
    }
    let r = hex_pair(bytes[start], bytes[start + 1], 34);
    let g = hex_pair(bytes[start + 2], bytes[start + 3], 212);
    let b = hex_pair(bytes[start + 4], bytes[start + 5], 94);
    Rgba { r, g, b, a: 255 }
}


/// The snapshot editor's file handling.
pub struct EditorEngine;

impl EditorEngine {
    /// The RGBA pixels of the image file held in `bytes`, as the `image`
    /// crate decodes it; `None` when it cannot be decoded.
    pub fn load_image(bytes: &[u8]) -> (r: Option<RgbaCanvas>)
        ensures
            match r {
                Some(c) => c.wf() && decoded_image(bytes@) == Some((c.width, c.height, c.data@)),
                None => decoded_image(bytes@) is None,
            },
    {
        decode_rgba(bytes)
    }

    /// The file name of an edited snapshot exported at `timestamp`.
    pub fn export_file_name(timestamp: i64) -> (r: String)
        ensures
            r@ == stamped("showcase_export_"@, timestamp as int, ".png"@),
    {
        stamped_name("showcase_export_", timestamp, ".png")
    }
}

} // verus!
