use wolf_screen_recorder::audio::AudioEngine;
use wolf_screen_recorder::hardware::TargetOs;

fn strings(v: &[&str]) -> Vec<String> {
    v.iter().map(|s| s.to_string()).collect()
}

#[test]
fn input_devices_start_with_default_and_are_unique() {
    let found = strings(&["USB Mic", "Default", "Webcam Mic", "USB Mic"]);
    assert_eq!(AudioEngine::list_input_devices(&found), strings(&["Default", "USB Mic", "Webcam Mic"]));
    assert_eq!(AudioEngine::list_input_devices(&vec![]), strings(&["Default"]));
}

#[test]
fn active_apps_from_pactl_output() {
    let out = "Sink Input #42\n\tProperties:\n\t\tapplication.name = \"Firefox\"\n\t\tmedia.name = \"Playback\"\r\n\t\tapplication.name = \"Firefox\"\n\t\tmedia.name = \"a=b\"\n\t\tapplication.name = \"\"\n\t\tapplication.name = \"Spotify\"";
    assert_eq!(
        AudioEngine::list_active_audio_apps(Some(out)),
        strings(&["Firefox", "Playback", "Spotify"])
    );
}

#[test]
fn active_apps_fall_back_to_usual_sources() {
    let usual = strings(&["Discord", "Spotify", "Browser Stream"]);
    assert_eq!(AudioEngine::list_active_audio_apps(None), usual);
    assert_eq!(AudioEngine::list_active_audio_apps(Some("")), usual);
    assert_eq!(AudioEngine::list_active_audio_apps(Some("no sink inputs here\n")), usual);
}

#[test]
fn named_microphone_choice() {
    assert!(!AudioEngine::wants_named_microphone("Default"));
    assert!(!AudioEngine::wants_named_microphone(""));
    assert!(AudioEngine::wants_named_microphone("USB Mic"));
}

#[test]
fn track_file_names() {
    assert_eq!(AudioEngine::microphone_file_name(1700000000), "temp_audio_1700000000.wav");
    assert_eq!(AudioEngine::system_audio_file_name(-5), "temp_system_audio_-5.wav");
}

#[test]
fn system_audio_command_lines() {
    let tail = ["-ac", "2", "-ar", "44100", "-async", "1", "/tmp/out.wav"];
    let mut linux = strings(&["-y", "-fflags", "+genpts", "-f", "pulse", "-i", "default.monitor"]);
    linux.extend(strings(&tail));
    assert_eq!(AudioEngine::system_audio_ffmpeg_args(TargetOs::Linux, "/tmp/out.wav"), linux);
    let mut mac = strings(&["-y", "-fflags", "+genpts", "-f", "avfoundation", "-i", ":0"]);
    mac.extend(strings(&tail));
    assert_eq!(AudioEngine::system_audio_ffmpeg_args(TargetOs::MacOs, "/tmp/out.wav"), mac);
    let mut win = strings(&["-y", "-fflags", "+genpts", "-f", "dshow", "-i", "audio=virtual-audio-capturer"]);
    win.extend(strings(&tail));
    assert_eq!(AudioEngine::system_audio_ffmpeg_args(TargetOs::Windows, "/tmp/out.wav"), win);
}

#[test]
fn microphone_gain() {
    assert_eq!(AudioEngine::amplify_i16_sample(0), 0);
    assert_eq!(AudioEngine::amplify_i16_sample(1000), 2500);
    assert_eq!(AudioEngine::amplify_i16_sample(3), 7);
    assert_eq!(AudioEngine::amplify_i16_sample(-3), -7);
    assert_eq!(AudioEngine::amplify_i16_sample(20000), 32767);
    assert_eq!(AudioEngine::amplify_i16_sample(-20000), -32768);
    assert_eq!(AudioEngine::amplify_u16_sample(32768), 0);
    assert_eq!(AudioEngine::amplify_u16_sample(32769), 2);
    assert_eq!(AudioEngine::amplify_u16_sample(0), -32768);
    assert_eq!(AudioEngine::amplify_u16_sample(65535), 32767);
}

#[test]
fn gain_matches_float_scaling() {
    // The gain is that of the float scaling: truncation toward zero, then saturation.
    for s in [-32768i32, -13107, -101, -1, 0, 1, 77, 13106, 13107, 32767] {
        let expected = ((s as f32) * 2.5f32).clamp(i16::MIN as f32, i16::MAX as f32) as i16;
        assert_eq!(AudioEngine::amplify_i16_sample(s as i16), expected);
    }
}
