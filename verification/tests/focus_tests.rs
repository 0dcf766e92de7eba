use wolf_screen_recorder::focus::{ClickEvent, FocusTracker};

#[test]
fn new_tracker_has_no_clicks() {
    let t = FocusTracker::new();
    assert!(t.get_clicks().is_empty());
    assert_eq!(t.build_ffmpeg_zoom_filter(1920, 1080, "1.5", 1280, 720), None);
}

#[test]
fn clicks_are_kept_in_order() {
    let mut t = FocusTracker::new();
    t.log_click_at(10, 20, 5);
    t.log_click_at(-3, 4, 900);
    assert_eq!(
        t.get_clicks(),
        vec![
            ClickEvent { x: 10, y: 20, timestamp_ms: 5 },
            ClickEvent { x: -3, y: 4, timestamp_ms: 900 }
        ]
    );
}

#[test]
fn click_before_a_session_is_stamped_zero() {
    let mut t = FocusTracker::new();
    t.log_click(7, 8);
    assert_eq!(t.get_clicks(), vec![ClickEvent { x: 7, y: 8, timestamp_ms: 0 }]);
}

#[test]
fn starting_a_session_forgets_clicks() {
    let mut t = FocusTracker::new();
    t.log_click_at(1, 2, 3);
    t.start_session();
    assert!(t.get_clicks().is_empty());
    t.log_click(50, 60);
    let clicks = t.get_clicks();
    assert_eq!(clicks.len(), 1);
    assert_eq!((clicks[0].x, clicks[0].y), (50, 60));
    // A click right after the start is stamped within a few seconds of it.
    assert!(clicks[0].timestamp_ms < 10_000);
}

#[test]
fn zoom_filter_centres_on_the_first_click() {
    let mut t = FocusTracker::new();
    t.log_click_at(400, 300, 10);
    t.log_click_at(5, 5, 20);
    assert_eq!(
        t.build_ffmpeg_zoom_filter(1920, 1080, "1.5", 1280, 720).unwrap(),
        "crop=1280:720:0:0,zoompan=z='if(between(in,30,120),min(zoom+0.015,1.5),max(zoom-0.015,1))':x='400-iw/2/zoom':y='300-ih/2/zoom':d=120:s=1920x1080"
    );
}

#[test]
fn zoom_crop_is_centred_and_kept_inside() {
    let mut t = FocusTracker::new();
    t.log_click_at(1000, 600, 0);
    // Centred: 1000 - 640 = 360, 600 - 360 = 240.
    assert!(t
        .build_ffmpeg_zoom_filter(1920, 1080, "1.5", 1280, 720)
        .unwrap()
        .starts_with("crop=1280:720:360:240,zoompan="));
    let mut t = FocusTracker::new();
    t.log_click_at(1900, 1070, 0);
    // Kept inside: at most 1920 - 1280 = 640 and 1080 - 720 = 360.
    assert!(t
        .build_ffmpeg_zoom_filter(1920, 1080, "1.5", 1280, 720)
        .unwrap()
        .starts_with("crop=1280:720:640:360,zoompan="));
}

#[test]
fn zoom_filter_with_negative_click() {
    let mut t = FocusTracker::new();
    t.log_click_at(-12, 0, 0);
    // A negative coordinate reads as a large unsigned one, so the crop is pushed to the far edge.
    assert_eq!(
        t.build_ffmpeg_zoom_filter(640, 480, "2", 320, 240).unwrap(),
        "crop=320:240:320:0,zoompan=z='if(between(in,30,120),min(zoom+0.015,2),max(zoom-0.015,1))':x='-12-iw/2/zoom':y='0-ih/2/zoom':d=120:s=640x480"
    );
}

#[test]
fn click_stamps_never_go_back_within_a_session() {
    let mut t = FocusTracker::new();
    t.start_session();
    t.log_click_at(0, 0, 5_000);
    t.log_click(1, 1);
    t.log_click(2, 2);
    let clicks = t.get_clicks();
    assert_eq!(clicks.len(), 3);
    assert!(clicks[1].timestamp_ms >= 5_000);
    assert!(clicks[2].timestamp_ms >= clicks[1].timestamp_ms);
}
