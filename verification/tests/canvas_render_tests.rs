use wolf_screen_recorder::canvas::{Rgba, RgbaCanvas, TextStamp};
use wolf_screen_recorder::editor::AnnotationShape;
use wolf_screen_recorder::render::{
    render_highlight_box, render_oval, render_redact_box, render_shape, render_spotlight, render_step_number,
    render_text_callout, shape_fits, wrap_i32, ShapeRender,
};


fn rgba(r: u8, g: u8, b: u8, a: u8) -> Rgba {
    Rgba { r, g, b, a }
}

fn filled(w: u32, h: u32, c: Rgba) -> RgbaCanvas {
    let mut data = Vec::new();
    for _ in 0..(w * h) {
        data.extend_from_slice(&[c.r, c.g, c.b, c.a]);
    }
    RgbaCanvas::from_raw(w, h, data).unwrap()
}

fn gradient(w: u32, h: u32) -> RgbaCanvas {
    let mut data = Vec::new();
    for y in 0..h {
        for x in 0..w {
            data.extend_from_slice(&[x as u8, y as u8, 0, 255]);
        }
    }
    RgbaCanvas::from_raw(w, h, data).unwrap()
}

fn changed_pixels(a: &RgbaCanvas, b: &RgbaCanvas) -> usize {
    let mut n = 0;
    for y in 0..a.height {
        for x in 0..a.width {
            if a.get_pixel(x, y) != b.get_pixel(x, y) {
                n += 1;
            }
        }
    }
    n
}

#[test]
fn canvas_from_raw_checks_the_size() {
    assert!(RgbaCanvas::from_raw(2, 2, vec![0; 16]).is_some());
    assert!(RgbaCanvas::from_raw(2, 2, vec![0; 15]).is_none());
    assert!(RgbaCanvas::from_raw(0, 5, vec![]).is_some());
}

#[test]
fn put_pixel_changes_one_pixel() {
    let mut c = filled(3, 2, rgba(1, 2, 3, 4));
    c.put_pixel(2, 1, rgba(9, 8, 7, 6));
    assert_eq!(c.get_pixel(2, 1), rgba(9, 8, 7, 6));
    assert_eq!(c.get_pixel(1, 1), rgba(1, 2, 3, 4));
    assert_eq!(c.get_pixel(2, 0), rgba(1, 2, 3, 4));
    assert_eq!(&c.data[20..24], &[9, 8, 7, 6]);
}

#[test]
fn wrap_reads_u32_as_i32() {
    assert_eq!(wrap_i32(5), 5);
    assert_eq!(wrap_i32(0x7fff_ffff), i32::MAX);
    assert_eq!(wrap_i32(0x8000_0000), i32::MIN);
    assert_eq!(wrap_i32(u32::MAX), -1);
}

#[test]
fn highlight_box_outlines() {
    let black = rgba(0, 0, 0, 255);
    let red = rgba(255, 0, 0, 255);
    let mut c = filled(20, 20, black);
    render_highlight_box(&mut c, 2, 3, 10, 6, red, 1);
    for x in 2..=11 {
        assert_eq!(c.get_pixel(x, 3), red);
        assert_eq!(c.get_pixel(x, 8), red);
    }
    for y in 3..=8 {
        assert_eq!(c.get_pixel(2, y), red);
        assert_eq!(c.get_pixel(11, y), red);
    }
    assert_eq!(c.get_pixel(5, 5), black);
    assert_eq!(c.get_pixel(12, 3), black);
    assert_eq!(changed_pixels(&c, &filled(20, 20, black)), 2 * 10 + 2 * 4);

    let mut c = filled(20, 20, black);
    render_highlight_box(&mut c, 2, 3, 10, 6, red, 2);
    assert_eq!(c.get_pixel(3, 4), red);
    assert_eq!(c.get_pixel(10, 7), red);
    assert_eq!(c.get_pixel(4, 5), black);
}

#[test]
fn empty_highlight_box_draws_nothing() {
    let black = rgba(0, 0, 0, 255);
    let mut c = filled(10, 10, black);
    render_highlight_box(&mut c, 1, 1, 0, 5, rgba(255, 0, 0, 255), 3);
    render_highlight_box(&mut c, 1, 1, 5, 5, rgba(255, 0, 0, 255), 0);
    assert_eq!(changed_pixels(&c, &filled(10, 10, black)), 0);
}

#[test]
fn oval_draws_a_ring() {
    let black = rgba(0, 0, 0, 255);
    let blue = rgba(0, 0, 255, 255);
    let mut c = filled(40, 40, black);
    render_oval(&mut c, 5, 5, 20, 10, blue, 1);
    assert!(changed_pixels(&c, &filled(40, 40, black)) > 0);
    assert_eq!(c.get_pixel(15, 10), black);
    assert_eq!(c.get_pixel(25, 10), blue);
    assert_eq!(c.get_pixel(5, 10), blue);
}

#[test]
fn text_callout_background_and_frame() {
    let black = rgba(0, 0, 0, 255);
    let yellow = rgba(255, 255, 0, 255);
    let bg = rgba(8, 12, 20, 235);
    let mut c = filled(100, 60, black);
    let label = render_text_callout(&mut c, 10, 10, "Hi", yellow);
    assert_eq!(label, TextStamp { x: 10, y: 10, scale: 16, color: yellow, text: "Hi".to_string() });
    // Box from (2, 2), 2 * 9 + 20 = 38 wide and 34 high.
    assert_eq!(c.get_pixel(2, 2), yellow);
    assert_eq!(c.get_pixel(39, 35), yellow);
    assert_eq!(c.get_pixel(39, 2), yellow);
    assert_eq!(c.get_pixel(5, 5), bg);
    assert_eq!(c.get_pixel(38, 34), bg);
    assert_eq!(c.get_pixel(40, 5), black);
    assert_eq!(c.get_pixel(5, 36), black);
}

#[test]
fn blank_callout_shows_the_placeholder_width() {
    let black = rgba(0, 0, 0, 255);
    let white = rgba(255, 255, 255, 255);
    let mut c = filled(120, 60, black);
    let label = render_text_callout(&mut c, 0, 0, "   ", white);
    assert_eq!(label.text, "Callout");
    // "Callout": 7 * 9 + 20 = 83 wide, from the origin.
    assert_eq!(c.get_pixel(82, 0), white);
    assert_eq!(c.get_pixel(83, 0), black);
    assert_eq!(c.get_pixel(0, 33), white);
}

#[test]
fn long_callout_is_capped_at_400() {
    let black = rgba(0, 0, 0, 255);
    let white = rgba(255, 255, 255, 255);
    let mut c = filled(500, 50, black);
    let text = "x".repeat(60);
    let label = render_text_callout(&mut c, 8, 8, &text, white);
    assert_eq!(label.text, text);
    assert_eq!(c.get_pixel(399, 0), white);
    assert_eq!(c.get_pixel(400, 0), black);
}

#[test]
fn spotlight_dims_outside_and_frames_inside() {
    let grey = rgba(100, 100, 100, 255);
    let mut c = filled(10, 10, grey);
    render_spotlight(&mut c, 2, 2, 4, 3);
    assert_eq!(c.get_pixel(0, 0), rgba(25, 25, 25, 255));
    assert_eq!(c.get_pixel(9, 9), rgba(25, 25, 25, 255));
    assert_eq!(c.get_pixel(6, 3), rgba(25, 25, 25, 255));
    let frame = rgba(255, 255, 255, 220);
    assert_eq!(c.get_pixel(2, 2), frame);
    assert_eq!(c.get_pixel(5, 4), frame);
    assert_eq!(c.get_pixel(3, 3), grey);
    assert_eq!(c.get_pixel(4, 3), grey);
}

#[test]
fn spotlight_outside_the_image_dims_everything() {
    let grey = rgba(101, 102, 103, 7);
    let mut c = filled(5, 5, grey);
    render_spotlight(&mut c, 10, 10, 3, 3);
    for y in 0..5 {
        for x in 0..5 {
            assert_eq!(c.get_pixel(x, y), rgba(25, 25, 25, 7));
        }
    }
}

#[test]
fn redaction_pixelates_in_blocks_of_ten() {
    let mut c = gradient(30, 30);
    render_redact_box(&mut c, 0, 0, 25, 12);
    let green = rgba(34, 212, 94, 220);
    assert_eq!(c.get_pixel(0, 0), green);
    assert_eq!(c.get_pixel(24, 5), green);
    assert_eq!(c.get_pixel(5, 11), green);
    assert_eq!(c.get_pixel(13, 5), rgba(10, 0, 0, 255));
    assert_eq!(c.get_pixel(21, 10), rgba(20, 10, 0, 255));
    assert_eq!(c.get_pixel(9, 9), rgba(0, 0, 0, 255));
    assert_eq!(c.get_pixel(26, 5), rgba(26, 5, 0, 255));
    assert_eq!(c.get_pixel(5, 12), rgba(5, 12, 0, 255));
}

#[test]
fn redaction_is_clipped_to_the_image() {
    let mut c = gradient(20, 20);
    render_redact_box(&mut c, -5, 12, 100, 100);
    // Area (0, 12) to (20, 20).
    assert_eq!(c.get_pixel(0, 12), rgba(34, 212, 94, 220));
    assert_eq!(c.get_pixel(13, 15), rgba(10, 12, 0, 255));
    assert_eq!(c.get_pixel(13, 11), rgba(13, 11, 0, 255));
}

#[test]
fn empty_or_outside_redaction_does_nothing() {
    let before = gradient(10, 10);
    let mut c = gradient(10, 10);
    render_redact_box(&mut c, 2, 2, 0, 5);
    render_redact_box(&mut c, 20, 20, 5, 5);
    render_redact_box(&mut c, -30, 2, 5, 5);
    assert_eq!(changed_pixels(&c, &before), 0);
}

#[test]
fn step_marker_draws_the_disc_and_gives_its_number() {
    let black = rgba(0, 0, 0, 255);
    let orange = rgba(255, 128, 0, 255);
    let mut c = filled(80, 80, black);
    let label = render_step_number(&mut c, 40, 40, 3, orange);
    assert_eq!(label, TextStamp { x: 35, y: 31, scale: 20, color: rgba(0, 0, 0, 255), text: "3".to_string() });
    let mut c2 = filled(80, 80, black);
    assert_eq!(render_step_number(&mut c2, 40, 40, 12, orange).x, 30);
    assert_eq!(c.get_pixel(40, 40), orange);
    assert_eq!(c.get_pixel(45, 45), orange);
    assert_eq!(c.get_pixel(0, 0), black);
    assert_eq!(c.get_pixel(79, 79), black);
}

#[test]
fn shapes_in_whole_pixels_are_rendered_here() {
    let black = rgba(0, 0, 0, 255);
    let white = rgba(255, 255, 255, 255);
    let mut c = filled(30, 30, black);
    let arrow: AnnotationShape<f32> =
        AnnotationShape::Arrow { start: (1.0, 1.0), end: (20.0, 20.0), color: white, stroke: 3.0 };
    assert_eq!(render_shape(&mut c, &arrow, 3), ShapeRender::Freeform);
    let freehand: AnnotationShape<f32> =
        AnnotationShape::Freehand { points: vec![(1.0, 1.0), (5.0, 5.0)], color: white, stroke: 2.0 };
    assert_eq!(render_shape(&mut c, &freehand, 2), ShapeRender::Freeform);
    assert_eq!(changed_pixels(&c, &filled(30, 30, black)), 0);

    let boxed: AnnotationShape<f32> =
        AnnotationShape::HighlightBox { x: 1, y: 1, width: 5, height: 5, color: white, stroke: 1.0 };
    assert_eq!(render_shape(&mut c, &boxed, 1), ShapeRender::Done);
    assert_eq!(c.get_pixel(1, 1), white);
    assert_eq!(c.get_pixel(5, 5), white);
    assert_eq!(c.get_pixel(3, 3), black);

    let spot: AnnotationShape<f32> = AnnotationShape::Spotlight { x: 0, y: 0, width: 30, height: 30 };
    assert_eq!(render_shape(&mut c, &spot, 1), ShapeRender::Done);
    assert_eq!(c.get_pixel(3, 3), black);
    assert_eq!(c.get_pixel(0, 0), rgba(255, 255, 255, 220));
}

#[test]
fn blank_callout_shape_is_drawn_as_callout() {
    let black = rgba(0, 0, 0, 255);
    let white = rgba(255, 255, 255, 255);
    let blank: AnnotationShape<f32> = AnnotationShape::TextCallout { x: 12, y: 9, text: " \t".to_string(), color: white };
    let word: AnnotationShape<f32> =
        AnnotationShape::TextCallout { x: 12, y: 9, text: "Callout".to_string(), color: white };
    let mut a = filled(120, 60, black);
    let mut b = filled(120, 60, black);
    let ra = render_shape(&mut a, &blank, 1);
    let rb = render_shape(&mut b, &word, 1);
    assert_eq!(ra, rb);
    assert_eq!(a.data, b.data);
}

#[test]
fn oval_and_box_only_paint_their_colour() {
    let grey = rgba(90, 90, 90, 255);
    let c = rgba(1, 200, 3, 255);
    for shape in [
        AnnotationShape::Oval { x: 3, y: 4, width: 30, height: 18, color: c, stroke: 3.0f32 },
        AnnotationShape::HighlightBox { x: -2, y: 4, width: 30, height: 18, color: c, stroke: 3.0f32 },
    ] {
        let mut canvas = filled(40, 30, grey);
        assert_eq!(render_shape(&mut canvas, &shape, 3), ShapeRender::Done);
        let mut painted = 0;
        for y in 0..30 {
            for x in 0..40 {
                let p = canvas.get_pixel(x, y);
                assert!(p == grey || p == c);
                if p == c {
                    painted += 1;
                }
            }
        }
        assert!(painted > 0);
    }
    let mut canvas = filled(10, 10, grey);
    let flat: AnnotationShape<f32> = AnnotationShape::Oval { x: 3, y: 4, width: 0, height: 8, color: c, stroke: 2.0 };
    render_shape(&mut canvas, &flat, 2);
    assert_eq!(canvas.data, filled(10, 10, grey).data);
}

#[test]
fn shape_limits_are_checked() {
    let white = rgba(255, 255, 255, 255);
    let ok: AnnotationShape<f32> = AnnotationShape::Oval { x: 100, y: 100, width: 50, height: 40, color: white, stroke: 1.0 };
    assert!(shape_fits(200, 200, &ok, 2));
    let wide: AnnotationShape<f32> =
        AnnotationShape::Oval { x: 0, y: 0, width: 200_000, height: 40, color: white, stroke: 1.0 };
    assert!(!shape_fits(200, 200, &wide, 1));
    let far: AnnotationShape<f32> =
        AnnotationShape::HighlightBox { x: i32::MAX - 100, y: 0, width: 50, height: 40, color: white, stroke: 1.0 };
    assert!(!shape_fits(200, 200, &far, 1));
    let near: AnnotationShape<f32> =
        AnnotationShape::HighlightBox { x: 1_000_000_000, y: -5, width: 50, height: 40, color: white, stroke: 1.0 };
    assert!(shape_fits(200, 200, &near, 4));
    let step: AnnotationShape<f32> = AnnotationShape::StepNumber { x: i32::MIN + 5, y: 0, num: 1, color: white };
    assert!(!shape_fits(200, 200, &step, 1));
    let callout: AnnotationShape<f32> =
        AnnotationShape::TextCallout { x: 2_000_000_000, y: 0, text: "x".repeat(10_000), color: white };
    assert!(shape_fits(200, 200, &callout, 1));
    let arrow: AnnotationShape<f32> =
        AnnotationShape::Arrow { start: (0.0, 0.0), end: (1.0, 1.0), color: white, stroke: 1.0 };
    assert!(shape_fits(1, 1, &arrow, 1));
}
