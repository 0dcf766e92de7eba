use wolf_screen_recorder::hardware::{
    encoder_test_args, next_encoder_probe, HardwareProfile, HwEncoder, ProbeStep, TargetOs,
};

fn strings(v: &[&str]) -> Vec<String> {
    v.iter().map(|s| s.to_string()).collect()
}

const GIB: u64 = 1024 * 1024 * 1024;
const MIB: u64 = 1024 * 1024;

#[test]
fn encoder_names_and_tags() {
    let all = [
        (HwEncoder::Nvenc, "h264_nvenc", "NVIDIA NVENC", "[NVENC]"),
        (HwEncoder::VideoToolbox, "h264_videotoolbox", "Apple VideoToolbox", "[VT]"),
        (HwEncoder::Vaapi, "h264_vaapi", "Linux VA-API", "[VA-API]"),
        (HwEncoder::Qsv, "h264_qsv", "Intel QuickSync (QSV)", "[QSV]"),
        (HwEncoder::Libx264, "libx264", "Software (libx264)", "[SW x264]"),
    ];
    for (e, codec, display, tag) in all {
        assert_eq!(e.codec_name(), codec);
        assert_eq!(e.display_name(), display);
        assert_eq!(e.tag(), tag);
    }
}

#[test]
fn profile_of_a_small_machine() {
    let p = HardwareProfile::from_system(0, 2 * GIB, 1000 * MIB + 5, HwEncoder::Libx264);
    assert_eq!(p.cpu_cores, 1);
    assert_eq!(p.recommended_threads, 2);
    assert_eq!(p.total_memory_mb, 2048);
    assert_eq!(p.available_memory_mb, 1000);
    assert_eq!(p.frame_buffer_capacity, 60);
    assert_eq!(p.preset, "ultrafast");
    assert_eq!(p.encoder, HwEncoder::Libx264);
}

#[test]
fn profile_thread_and_buffer_steps() {
    let p = HardwareProfile::from_system(4, 16 * GIB, 4097 * MIB, HwEncoder::Libx264);
    assert_eq!(p.recommended_threads, 3);
    assert_eq!(p.frame_buffer_capacity, 120);
    assert_eq!(p.preset, "superfast");

    let p = HardwareProfile::from_system(8, 16 * GIB, 8193 * MIB, HwEncoder::Libx264);
    assert_eq!(p.recommended_threads, 7);
    assert_eq!(p.frame_buffer_capacity, 180);
    assert_eq!(p.preset, "veryfast");

    let p = HardwareProfile::from_system(32, 64 * GIB, 16385 * MIB, HwEncoder::Nvenc);
    assert_eq!(p.recommended_threads, 8);
    assert_eq!(p.frame_buffer_capacity, 300);
    assert_eq!(p.preset, "p4");

    let p = HardwareProfile::from_system(2, 4 * GIB, 4096 * MIB, HwEncoder::Qsv);
    assert_eq!(p.recommended_threads, 2);
    assert_eq!(p.frame_buffer_capacity, 60);
    assert_eq!(p.preset, "veryfast");

    assert_eq!(HardwareProfile::from_system(4, GIB, GIB, HwEncoder::Vaapi).preset, "default");
    assert_eq!(HardwareProfile::from_system(4, GIB, GIB, HwEncoder::VideoToolbox).preset, "default");
}

#[test]
fn ffmpeg_args_per_encoder() {
    let p = HardwareProfile::from_system(6, 8 * GIB, 2 * GIB, HwEncoder::Libx264);
    assert_eq!(
        p.get_ffmpeg_args(),
        strings(&["-c:v", "libx264", "-preset", "superfast", "-crf", "23", "-threads", "5"])
    );
    let p = HardwareProfile::from_system(6, 8 * GIB, 2 * GIB, HwEncoder::Nvenc);
    assert_eq!(p.get_ffmpeg_args(), strings(&["-c:v", "h264_nvenc", "-preset", "p4", "-cq", "23"]));
    let p = HardwareProfile::from_system(6, 8 * GIB, 2 * GIB, HwEncoder::Qsv);
    assert_eq!(
        p.get_ffmpeg_args(),
        strings(&["-c:v", "h264_qsv", "-preset", "veryfast", "-global_quality", "23"])
    );
    let p = HardwareProfile::from_system(6, 8 * GIB, 2 * GIB, HwEncoder::Vaapi);
    assert_eq!(
        p.get_ffmpeg_args(),
        strings(&["-c:v", "h264_vaapi", "-vaapi_device", "/dev/dri/renderD128", "-vf", "format=nv12,hwupload"])
    );
    let p = HardwareProfile::from_system(6, 8 * GIB, 2 * GIB, HwEncoder::VideoToolbox);
    assert_eq!(p.get_ffmpeg_args(), strings(&["-c:v", "h264_videotoolbox", "-realtime", "true"]));
}

#[test]
fn probe_prefers_videotoolbox_on_macos() {
    let listing = " V....D h264_videotoolbox  VideoToolbox H.264 Encoder\n V....D h264_nvenc\n";
    assert_eq!(
        next_encoder_probe(listing, TargetOs::MacOs, &vec![]),
        ProbeStep::Select(HwEncoder::VideoToolbox)
    );
    // Elsewhere VideoToolbox is not a candidate.
    assert_eq!(next_encoder_probe(listing, TargetOs::Linux, &vec![]), ProbeStep::Test(HwEncoder::Nvenc));
}

#[test]
fn probe_tries_candidates_in_order() {
    let listing = "h264_qsv h264_vaapi h264_nvenc";
    assert_eq!(next_encoder_probe(listing, TargetOs::Linux, &vec![]), ProbeStep::Test(HwEncoder::Nvenc));
    assert_eq!(next_encoder_probe(listing, TargetOs::Linux, &vec![true]), ProbeStep::Select(HwEncoder::Nvenc));
    assert_eq!(next_encoder_probe(listing, TargetOs::Linux, &vec![false]), ProbeStep::Test(HwEncoder::Vaapi));
    assert_eq!(
        next_encoder_probe(listing, TargetOs::Linux, &vec![false, true]),
        ProbeStep::Select(HwEncoder::Vaapi)
    );
    assert_eq!(next_encoder_probe(listing, TargetOs::Linux, &vec![false, false]), ProbeStep::Test(HwEncoder::Qsv));
    assert_eq!(
        next_encoder_probe(listing, TargetOs::Linux, &vec![false, false, false]),
        ProbeStep::Select(HwEncoder::Libx264)
    );
    // VA-API is only tried on Linux.
    assert_eq!(next_encoder_probe(listing, TargetOs::Windows, &vec![false]), ProbeStep::Test(HwEncoder::Qsv));
}

#[test]
fn probe_without_candidates_uses_software() {
    assert_eq!(next_encoder_probe("", TargetOs::Linux, &vec![]), ProbeStep::Select(HwEncoder::Libx264));
    assert_eq!(
        next_encoder_probe("libx264 libx265", TargetOs::MacOs, &vec![]),
        ProbeStep::Select(HwEncoder::Libx264)
    );
}

#[test]
fn trial_encode_arguments() {
    assert_eq!(
        encoder_test_args("h264_nvenc"),
        strings(&["-y", "-f", "lavfi", "-i", "color=c=black:s=64x64:d=0.1", "-c:v", "h264_nvenc", "-f", "null", "-"])
    );
}
