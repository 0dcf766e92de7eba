use wolf_screen_recorder::hardware::TargetOs;
use wolf_screen_recorder::webcam::{video_device_path, WebcamEngine, WEBCAM_HEIGHT, WEBCAM_WIDTH};

fn strings(v: &[&str]) -> Vec<String> {
    v.iter().map(|s| s.to_string()).collect()
}

#[test]
fn device_paths() {
    assert_eq!(video_device_path(0), "/dev/video0");
    assert_eq!(video_device_path(7), "/dev/video7");
}

#[test]
fn linux_lists_present_devices() {
    let present = vec![true, false, true];
    assert_eq!(
        WebcamEngine::list_video_devices(TargetOs::Linux, &present),
        strings(&["Camera 0 (/dev/video0)", "Camera 2 (/dev/video2)"])
    );
    let mut all = vec![true; 10];
    all[9] = true;
    let listed = WebcamEngine::list_video_devices(TargetOs::Linux, &all);
    assert_eq!(listed.len(), 8);
    assert_eq!(listed[7], "Camera 7 (/dev/video7)");
}

#[test]
fn automatic_choice_when_nothing_is_found() {
    let auto = strings(&["Auto (/dev/video0)"]);
    assert_eq!(WebcamEngine::list_video_devices(TargetOs::Linux, &vec![false; 8]), auto);
    assert_eq!(WebcamEngine::list_video_devices(TargetOs::Linux, &vec![]), auto);
    assert_eq!(WebcamEngine::list_video_devices(TargetOs::MacOs, &vec![true; 8]), auto);
}

#[test]
fn camera_input_per_platform() {
    assert_eq!(
        WebcamEngine::camera_input_args(TargetOs::MacOs, "Camera 2 (/dev/video2)", true, true),
        strings(&["-f", "avfoundation", "-i", "0"])
    );
    assert_eq!(
        WebcamEngine::camera_input_args(TargetOs::Windows, "", false, false),
        strings(&["-f", "dshow", "-i", "video=Integrated Camera"])
    );
}

#[test]
fn linux_camera_device_choice() {
    assert_eq!(
        WebcamEngine::camera_input_args(TargetOs::Linux, "Camera 2 (/dev/video2)", true, true),
        strings(&["-f", "v4l2", "-i", "/dev/video2"])
    );
    assert_eq!(
        WebcamEngine::camera_input_args(TargetOs::Linux, "Auto (/dev/video0)", false, true),
        strings(&["-f", "v4l2", "-i", "/dev/video0"])
    );
    assert_eq!(
        WebcamEngine::camera_input_args(TargetOs::Linux, "Default", false, true),
        strings(&["-f", "v4l2", "-i", "/dev/video1"])
    );
    assert_eq!(
        WebcamEngine::camera_input_args(TargetOs::Linux, "Default", true, true),
        strings(&["-f", "v4l2", "-i", "/dev/video0"])
    );
    assert_eq!(
        WebcamEngine::camera_input_args(TargetOs::Linux, "", false, false),
        strings(&["-f", "v4l2", "-i", "/dev/video0"])
    );
    assert_eq!(
        WebcamEngine::camera_input_args(TargetOs::Linux, "x /dev/video10))", false, false),
        strings(&["-f", "v4l2", "-i", "/dev/video10"])
    );
}

#[test]
fn camera_stream_command_line() {
    let input = strings(&["-f", "v4l2", "-i", "/dev/video0"]);
    assert_eq!(
        WebcamEngine::camera_stream_args(&input),
        strings(&[
            "-y", "-f", "v4l2", "-i", "/dev/video0", "-video_size", "320x240", "-f", "rawvideo", "-pix_fmt", "rgba",
            "-r", "30", "-",
        ])
    );
}

#[test]
fn frame_size_is_one_rgba_frame() {
    assert_eq!(WebcamEngine::frame_size(), (WEBCAM_WIDTH * WEBCAM_HEIGHT * 4) as usize);
    assert_eq!(WebcamEngine::frame_size(), 307200);
}
