use wolf_screen_recorder::annotations::{AnnotationEngine, BoundingBoxAnnotation, ClickAnnotation};
use wolf_screen_recorder::canvas::{Rgba, RgbaCanvas, TextStamp};


fn rgba(r: u8, g: u8, b: u8, a: u8) -> Rgba {
    Rgba { r, g, b, a }
}

fn png(w: u32, h: u32, data: Vec<u8>) -> Vec<u8> {
    let img = image::RgbaImage::from_raw(w, h, data).unwrap();
    let mut out = std::io::Cursor::new(Vec::new());
    img.write_to(&mut out, image::ImageFormat::Png).unwrap();
    out.into_inner()
}

fn filled(w: u32, h: u32, c: Rgba) -> RgbaCanvas {
    let mut data = Vec::new();
    for _ in 0..(w * h) {
        data.extend_from_slice(&[c.r, c.g, c.b, c.a]);
    }
    RgbaCanvas::from_raw(w, h, data).unwrap()
}

#[test]
fn corner_positions() {
    assert_eq!(AnnotationEngine::calculate_corner_position(1920, 1080, 170, 26, "BottomRight"), (1730, 1034));
    assert_eq!(AnnotationEngine::calculate_corner_position(1920, 1080, 170, 26, "BottomLeft"), (20, 1034));
    assert_eq!(AnnotationEngine::calculate_corner_position(1920, 1080, 170, 26, "TopRight"), (1730, 20));
    assert_eq!(AnnotationEngine::calculate_corner_position(1920, 1080, 170, 26, "TopLeft"), (20, 20));
    assert_eq!(AnnotationEngine::calculate_corner_position(1920, 1080, 170, 26, "Centre"), (1730, 1034));
    // Too small an image: the element goes to the origin side.
    assert_eq!(AnnotationEngine::calculate_corner_position(100, 30, 170, 26, "BottomRight"), (0, 0));
}

#[test]
fn boxes_clicks_and_logo() {
    let black = rgba(0, 0, 0, 255);
    let blue = rgba(0, 0, 255, 255);
    let red = rgba(255, 0, 0, 255);
    let mut img = filled(300, 200, black);
    let boxes = [BoundingBoxAnnotation { x: 10, y: 10, width: 50, height: 40, color: blue }];
    let clicks = [ClickAnnotation { x: 100, y: 100, radius: 10, color: red }];
    let logo = png(2, 2, vec![1, 2, 3, 255, 4, 5, 6, 5, 7, 8, 9, 11, 10, 11, 12, 10]);
    assert!(AnnotationEngine::annotations_fit(&clicks, &boxes));
    let label = AnnotationEngine::apply_annotations(&mut img, &clicks, &boxes, None, Some(&logo), "TopLeft");
    assert_eq!(label, None);
    // The box outline, and its shadow three pixels down and right.
    assert_eq!(img.get_pixel(10, 10), blue);
    assert_eq!(img.get_pixel(59, 49), blue);
    assert_eq!(img.get_pixel(62, 52), rgba(0, 0, 0, 120));
    // The click's dot.
    assert_eq!(img.get_pixel(100, 100), rgba(255, 0, 0, 230));
    assert_eq!(img.get_pixel(110, 100), rgba(255, 0, 0, 160));
    // The logo at (20, 20): only pixels whose alpha exceeds 10.
    assert_eq!(img.get_pixel(20, 20), rgba(1, 2, 3, 255));
    assert_eq!(img.get_pixel(21, 20), black);
    assert_eq!(img.get_pixel(20, 21), rgba(7, 8, 9, 11));
    assert_eq!(img.get_pixel(21, 21), black);
    assert_eq!(img.get_pixel(200, 150), black);
}

#[test]
fn snapshot_watermark_background_and_centre_ring() {
    let grey = rgba(100, 100, 100, 255);
    let mut img = filled(400, 300, grey);
    let label = AnnotationEngine::process_snapshot_with_watermark(&mut img, "WOLFITWAY");
    assert_eq!(
        label,
        TextStamp { x: 210, y: 254, scale: 16, color: rgba(0, 255, 102, 240), text: "WOLFITWAY".to_string() }
    );
    // The centre dot.
    assert_eq!(img.get_pixel(200, 150), rgba(0, 255, 102, 230));
    // The watermark corner is (210, 254); the background starts 4 pixels before it.
    let shaded = rgba(59, 61, 65, 255);
    assert_eq!(img.get_pixel(206, 250), shaded);
    assert_eq!(img.get_pixel(374, 274), shaded);
    assert_eq!(img.get_pixel(205, 250), grey);
    assert_eq!(img.get_pixel(375, 250), grey);
    assert_eq!(img.get_pixel(206, 275), grey);
    assert_eq!(img.get_pixel(0, 0), grey);
}

#[test]
fn logo_is_clipped_to_the_image() {
    let black = rgba(0, 0, 0, 255);
    let mut img = filled(4, 4, black);
    let logo = RgbaCanvas::from_raw(3, 1, vec![9, 9, 9, 200, 8, 8, 8, 200, 7, 7, 7, 200]).unwrap();
    AnnotationEngine::stamp_logo(&mut img, &logo, 2, 3);
    assert_eq!(img.get_pixel(2, 3), rgba(9, 9, 9, 200));
    assert_eq!(img.get_pixel(3, 3), rgba(8, 8, 8, 200));
    assert_eq!(img.get_pixel(1, 3), black);
}

#[test]
fn watermark_shade_is_clipped_to_the_image() {
    let white = rgba(255, 255, 255, 40);
    let mut img = filled(10, 10, white);
    AnnotationEngine::shade_watermark_background(&mut img, -5, 7);
    assert_eq!(img.get_pixel(0, 7), rgba(136, 138, 142, 40));
    assert_eq!(img.get_pixel(9, 9), rgba(136, 138, 142, 40));
    assert_eq!(img.get_pixel(0, 6), white);
}

#[test]
fn nothing_to_annotate_leaves_the_image() {
    let grey = rgba(50, 60, 70, 80);
    let mut img = filled(30, 30, grey);
    assert_eq!(AnnotationEngine::apply_annotations(&mut img, &[], &[], None, None, "TopLeft"), None);
    assert_eq!(img.data, filled(30, 30, grey).data);
}

#[test]
fn watermark_text_is_handed_back_for_the_corner() {
    let grey = rgba(10, 10, 10, 255);
    let mut img = filled(500, 400, grey);
    let label = AnnotationEngine::apply_annotations(&mut img, &[], &[], Some("brand"), None, "TopRight");
    assert_eq!(
        label,
        Some(TextStamp { x: 310, y: 20, scale: 16, color: rgba(0, 255, 102, 240), text: "brand".to_string() })
    );
    assert_eq!(img.get_pixel(306, 16), rgba(14, 16, 20, 255));
}

#[test]
fn annotation_limits_are_checked() {
    let red = rgba(255, 0, 0, 255);
    let far_click = [ClickAnnotation { x: i32::MAX - 5, y: 0, radius: 10, color: red }];
    assert!(!AnnotationEngine::annotations_fit(&far_click, &[]));
    let big_ring = [ClickAnnotation { x: 0, y: 0, radius: 1 << 30, color: red }];
    let large_ring = [ClickAnnotation { x: 0, y: 0, radius: (1 << 30) - 17, color: red }];
    assert!(AnnotationEngine::annotations_fit(&large_ring, &[]));
    assert!(!AnnotationEngine::annotations_fit(&big_ring, &[]));
    let far_away = [ClickAnnotation { x: 1 << 29, y: -(1 << 29), radius: 1 << 20, color: red }];
    assert!(AnnotationEngine::annotations_fit(&far_away, &[]));
    let wide_box = [BoundingBoxAnnotation { x: -2_000_000_000, y: 0, width: 3_000_000_000, height: 5, color: red }];
    assert!(!AnnotationEngine::annotations_fit(&[], &wide_box));
    let empty_box = [BoundingBoxAnnotation { x: 0, y: 0, width: 0, height: 5, color: red }];
    assert!(!AnnotationEngine::annotations_fit(&[], &empty_box));
}

#[test]
fn undecodable_logo_is_left_out() {
    let grey = rgba(7, 7, 7, 255);
    let mut img = filled(50, 50, grey);
    let junk = b"not an image".to_vec();
    AnnotationEngine::apply_annotations(&mut img, &[], &[], None, Some(&junk), "TopLeft");
    assert_eq!(img.data, filled(50, 50, grey).data);
}
