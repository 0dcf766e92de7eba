use wolf_screen_recorder::canvas::Rgba;
use wolf_screen_recorder::editor::{parse_color_hex, AnnotationShape, AnnotationStack, EditorEngine};

fn step(num: u32) -> AnnotationShape<f32> {
    AnnotationShape::StepNumber { x: 1, y: 2, num, color: Rgba { r: 1, g: 2, b: 3, a: 255 } }
}

fn redact() -> AnnotationShape<f32> {
    AnnotationShape::RedactBox { x: 0, y: 0, width: 5, height: 5 }
}

#[test]
fn empty_stack() {
    let s: AnnotationStack<f32> = AnnotationStack::new();
    assert!(s.shapes().is_empty());
    assert_eq!(s.step_counter(), 0);
    assert_eq!(s.next_step(), 1);
    let d: AnnotationStack<f32> = AnnotationStack::default();
    assert!(d.shapes().is_empty());
    assert_eq!(d.step_counter(), 0);
}

#[test]
fn step_markers_advance_the_counter() {
    let mut s: AnnotationStack<f32> = AnnotationStack::new();
    s.push(step(1));
    s.push(redact());
    s.push(step(2));
    assert_eq!(s.step_counter(), 2);
    assert_eq!(s.next_step(), 3);
    assert_eq!(s.shapes().len(), 3);
}

#[test]
fn undo_returns_the_newest_shape() {
    let mut s: AnnotationStack<f32> = AnnotationStack::new();
    s.push(step(1));
    s.push(redact());
    assert!(matches!(s.undo(), Some(AnnotationShape::RedactBox { .. })));
    assert_eq!(s.step_counter(), 1);
    assert!(matches!(s.undo(), Some(AnnotationShape::StepNumber { num: 1, .. })));
    assert_eq!(s.step_counter(), 0);
    assert!(s.undo().is_none());
    assert_eq!(s.step_counter(), 0);
    assert!(s.shapes().is_empty());
}

#[test]
fn counter_counts_step_markers_over_a_session() {
    let mut s: AnnotationStack<f32> = AnnotationStack::new();
    s.push(step(1));
    s.push(redact());
    s.push(step(2));
    s.undo();
    s.push(step(2));
    s.push(step(3));
    s.undo();
    s.undo();
    s.push(redact());
    assert_eq!(s.step_counter(), 1);
    assert_eq!(s.next_step(), 2);
    s.clear();
    s.push(step(1));
    assert_eq!(s.step_counter(), 1);
}

#[test]
fn clear_restarts_numbering() {
    let mut s: AnnotationStack<f32> = AnnotationStack::new();
    s.push(step(1));
    s.push(step(2));
    s.clear();
    assert!(s.shapes().is_empty());
    assert_eq!(s.step_counter(), 0);
    assert_eq!(s.next_step(), 1);
}

#[test]
fn colours_from_hex() {
    let c = |r, g, b| Rgba { r, g, b, a: 255 };
    assert_eq!(parse_color_hex("#22D45E"), c(34, 212, 94));
    assert_eq!(parse_color_hex("ff0000"), c(255, 0, 0));
    assert_eq!(parse_color_hex("##0a0B0c"), c(10, 11, 12));
    assert_eq!(parse_color_hex("#00ff00ee"), c(0, 255, 0));
    assert_eq!(parse_color_hex("+f+f+f"), c(15, 15, 15));
}

#[test]
fn unreadable_colours_fall_back_to_green() {
    let c = |r, g, b| Rgba { r, g, b, a: 255 };
    assert_eq!(parse_color_hex("#12"), c(34, 212, 94));
    assert_eq!(parse_color_hex(""), c(34, 212, 94));
    assert_eq!(parse_color_hex("#zz00ff"), c(34, 0, 255));
    assert_eq!(parse_color_hex("#00-1ff"), c(0, 212, 255));
    assert_eq!(parse_color_hex("++++++"), c(34, 212, 94));
}

#[test]
fn export_file_names() {
    assert_eq!(EditorEngine::export_file_name(1234), "showcase_export_1234.png");
    assert_eq!(EditorEngine::export_file_name(-1), "showcase_export_-1.png");
}

#[test]
fn images_decode_to_rgba() {
    let img = image::RgbaImage::from_raw(2, 1, vec![10, 20, 30, 40, 50, 60, 70, 80]).unwrap();
    let mut out = std::io::Cursor::new(Vec::new());
    img.write_to(&mut out, image::ImageFormat::Png).unwrap();
    let c = EditorEngine::load_image(&out.into_inner()).unwrap();
    assert_eq!((c.width, c.height), (2, 1));
    assert_eq!(c.data, vec![10, 20, 30, 40, 50, 60, 70, 80]);
    assert!(EditorEngine::load_image(b"\x89PNG but broken").is_none());
    assert!(EditorEngine::load_image(&[]).is_none());
}
