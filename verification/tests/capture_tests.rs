use wolf_screen_recorder::capture::CaptureEngine;
use wolf_screen_recorder::hardware::{HardwareProfile, HwEncoder};

fn strings(v: &[&str]) -> Vec<String> {
    v.iter().map(|s| s.to_string()).collect()
}

#[test]
fn file_names_carry_the_timestamp() {
    assert_eq!(CaptureEngine::snapshot_file_name(1712345678), "snapshot_1712345678.png");
    assert_eq!(CaptureEngine::video_file_name(0), "temp_video_0.mp4");
    assert_eq!(CaptureEngine::recording_file_name(42), "recording_42.mp4");
}

#[test]
fn recording_command_line_uses_the_profile() {
    let p = HardwareProfile::from_system(4, 1 << 33, 1 << 32, HwEncoder::Nvenc);
    let mut expected = strings(&[
        "-y", "-f", "rawvideo", "-vcodec", "rawvideo", "-s", "1920x1080", "-pix_fmt", "rgba", "-r", "30", "-i", "-",
    ]);
    expected.extend(strings(&["-c:v", "h264_nvenc", "-preset", "p4", "-cq", "23"]));
    expected.extend(strings(&["-pix_fmt", "yuv420p", "/tmp/v.mp4"]));
    assert_eq!(CaptureEngine::recording_ffmpeg_args(1920, 1080, &p, "/tmp/v.mp4"), expected);
}

#[test]
fn fallback_command_line_is_software() {
    assert_eq!(
        CaptureEngine::fallback_recording_ffmpeg_args(800, 600, "out.mp4"),
        strings(&[
            "-y", "-f", "rawvideo", "-vcodec", "rawvideo", "-s", "800x600", "-pix_fmt", "rgba", "-r", "30", "-i", "-",
            "-c:v", "libx264", "-preset", "ultrafast", "-crf", "23", "-pix_fmt", "yuv420p", "out.mp4",
        ])
    );
}

#[test]
fn mux_command_lines() {
    let tail = ["-c:v", "libx264", "-preset", "fast", "-c:a", "aac", "-b:a", "192k", "-af", "aresample=async=1", "final.mp4"];
    let mut plain = strings(&["-y", "-i", "v.mp4"]);
    plain.extend(strings(&tail));
    assert_eq!(CaptureEngine::mux_ffmpeg_args("v.mp4", None, None, "final.mp4"), plain);

    let mut full = strings(&["-y", "-i", "v.mp4", "-i", "a.wav", "-vf", "zoompan=z=1"]);
    full.extend(strings(&tail));
    assert_eq!(CaptureEngine::mux_ffmpeg_args("v.mp4", Some("a.wav"), Some("zoompan=z=1"), "final.mp4"), full);

    let mut zoom_only = strings(&["-y", "-i", "v.mp4", "-vf", "f"]);
    zoom_only.extend(strings(&tail));
    assert_eq!(CaptureEngine::mux_ffmpeg_args("v.mp4", None, Some("f"), "final.mp4"), zoom_only);
}

#[test]
fn frame_pacing() {
    assert_eq!(CaptureEngine::frame_delay_ns(0), 33_000_000);
    assert_eq!(CaptureEngine::frame_delay_ns(10_500_000), 22_500_000);
    assert_eq!(CaptureEngine::frame_delay_ns(32_999_999), 1);
    assert_eq!(CaptureEngine::frame_delay_ns(33_000_000), 0);
    assert_eq!(CaptureEngine::frame_delay_ns(500_000_000), 0);
}
