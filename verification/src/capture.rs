//! Screen capture: file names of snapshots and recordings, and the FFmpeg
//! command lines that encode the captured frames and mux the final video.

use vstd::prelude::*;
use crate::hardware::{HardwareProfile, spec_ffmpeg_args};
use crate::text::{owned, push_str, u64_to_text, dec_digits, extend_strings, stamped, stamped_name};

verus! {

/// The program's screen capture.
pub struct CaptureEngine;

/// `WIDTHxHEIGHT`.
pub open spec fn spec_frame_size(width: u32, height: u32) -> Seq<char> {
    dec_digits(width as nat) + "x"@ + dec_digits(height as nat)
}

/// The input half of the encoder command line: raw RGBA frames of the given
/// size at 30 frames per second on standard input.
pub open spec fn spec_raw_input_args(width: u32, height: u32) -> Seq<Seq<char>> {
    seq!["-y"@, "-f"@, "rawvideo"@, "-vcodec"@, "rawvideo"@, "-s"@, spec_frame_size(width, height),
        "-pix_fmt"@, "rgba"@, "-r"@, "30"@, "-i"@, "-"@]
}

/// The encoder command line: raw input, the profile's encoder arguments,
/// and YUV 4:2:0 output to `out`.
pub open spec fn spec_recording_args(width: u32, height: u32, p: HardwareProfile, out: Seq<char>) -> Seq<Seq<char>> {
    spec_raw_input_args(width, height)
        + spec_ffmpeg_args(p.encoder, p.preset@, p.recommended_threads as nat)
        + seq!["-pix_fmt"@, "yuv420p"@, out]
}

/// The software encoder command line used when the first one cannot start.
pub open spec fn spec_fallback_recording_args(width: u32, height: u32, out: Seq<char>) -> Seq<Seq<char>> {
    spec_raw_input_args(width, height)
        + seq!["-c:v"@, "libx264"@, "-preset"@, "ultrafast"@, "-crf"@, "23"@,
            "-pix_fmt"@, "yuv420p"@, out]
}

/// The command line that muxes the video track with the optional audio
/// track, optionally through the zoom filter, into `out`.
pub open spec fn spec_mux_args(video: Seq<char>, audio: Option<Seq<char>>, zoom_filter: Option<Seq<char>>, out: Seq<char>) -> Seq<Seq<char>> {
    let a = match audio { Some(p) => seq!["-i"@, p], None => seq![] };
    let z = match zoom_filter { Some(f) => seq!["-vf"@, f], None => seq![] };
    seq!["-y"@, "-i"@, video] + a + z + seq!["-c:v"@, "libx264"@, "-preset"@, "fast"@,
        "-c:a"@, "aac"@, "-b:a"@, "192k"@, "-af"@, "aresample=async=1"@, out]
}

fn raw_input_args(width: u32, height: u32) -> (args: Vec<String>)
    ensures
        args.deep_view() == spec_raw_input_args(width, height),
{
    let mut size = u64_to_text(width as u64);
    push_str(&mut size, "x");
    push_str(&mut size, u64_to_text(height as u64).as_str());
    let mut args: Vec<String> = Vec::new();
    args.push(owned("-y"));
    args.push(owned("-f"));
    args.push(owned("rawvideo"));
    args.push(owned("-vcodec"));
    args.push(owned("rawvideo"));
    args.push(owned("-s"));
    args.push(size);
    args.push(owned("-pix_fmt"));
    args.push(owned("rgba"));
    args.push(owned("-r"));
    args.push(owned("30"));
    args.push(owned("-i"));
    args.push(owned("-"));
    assert(args.deep_view() =~= spec_raw_input_args(width, height));
    args
}

impl CaptureEngine {
    /// The file name of a snapshot taken at Unix time `timestamp`.
    pub fn snapshot_file_name(timestamp: i64) -> (r: String)
        ensures
            r@ == stamped("snapshot_"@, timestamp as int, ".png"@),
    {
        stamped_name("snapshot_", timestamp, ".png")
    }

    /// The file name of the video track of a recording started at `timestamp`.
    pub fn video_file_name(timestamp: i64) -> (r: String)
        ensures
            r@ == stamped("temp_video_"@, timestamp as int, ".mp4"@),
    {
        stamped_name("temp_video_", timestamp, ".mp4")
    }

    /// The file name of a finished recording muxed at `timestamp`.
    pub fn recording_file_name(timestamp: i64) -> (r: String)
        ensures
            r@ == stamped("recording_"@, timestamp as int, ".mp4"@),
    {
        stamped_name("recording_", timestamp, ".mp4")
    }

    /// The encoder command line for frames of `width` by `height` pixels,
    /// encoded as `hw_profile` says into `output_path`.
    pub fn recording_ffmpeg_args(width: u32, height: u32, hw_profile: &HardwareProfile, output_path: &str) -> (args: Vec<String>)
        ensures
            args.deep_view() == spec_recording_args(width, height, *hw_profile, output_path@),
    {
        let mut args = raw_input_args(width, height);
        let encoder_args = hw_profile.get_ffmpeg_args();
        extend_strings(&mut args, &encoder_args);
        let ghost before = args.deep_view();
        args.push(owned("-pix_fmt"));
        args.push(owned("yuv420p"));
        args.push(owned(output_path));
        assert(args.deep_view() =~= before + seq!["-pix_fmt"@, "yuv420p"@, output_path@]);
        args
    }

    /// The software encoder command line used when the profile's encoder
    /// cannot be started.
    pub fn fallback_recording_ffmpeg_args(width: u32, height: u32, output_path: &str) -> (args: Vec<String>)
        ensures
            args.deep_view() == spec_fallback_recording_args(width, height, output_path@),
    {
        let mut args = raw_input_args(width, height);
        let ghost before = args.deep_view();
        args.push(owned("-c:v"));
        args.push(owned("libx264"));
        args.push(owned("-preset"));
        args.push(owned("ultrafast"));
        args.push(owned("-crf"));
        args.push(owned("23"));
        args.push(owned("-pix_fmt"));
        args.push(owned("yuv420p"));
        args.push(owned(output_path));
        assert(args.deep_view() =~= before + seq!["-c:v"@, "libx264"@, "-preset"@, "ultrafast"@,
            "-crf"@, "23"@, "-pix_fmt"@, "yuv420p"@, output_path@]);
        args
    }

    /// The command line that produces the final recording `output_path` from
    /// the video track, the optional audio track and the optional zoom filter.
    pub fn mux_ffmpeg_args(video_path: &str, audio_path: Option<&str>, zoom_filter: Option<&str>, output_path: &str) -> (args: Vec<String>)
        ensures
            args.deep_view() == spec_mux_args(video_path@,
                (match audio_path { Some(a) => Some(a@), None => None }),
                (match zoom_filter { Some(f) => Some(f@), None => None }),
                output_path@),
    {
        let mut args: Vec<String> = Vec::new();
        args.push(owned("-y"));
        args.push(owned("-i"));
        args.push(owned(video_path));
        match audio_path {
            Some(a) => {
                args.push(owned("-i"));
                args.push(owned(a));
            },
            None => {},
        }
        match zoom_filter {
            Some(f) => {
                args.push(owned("-vf"));
                args.push(owned(f));
            },
            None => {},
        }
        args.push(owned("-c:v"));
        args.push(owned("libx264"));
        args.push(owned("-preset"));
        args.push(owned("fast"));
        args.push(owned("-c:a"));
        args.push(owned("aac"));
        args.push(owned("-b:a"));
        args.push(owned("192k"));
        args.push(owned("-af"));
        args.push(owned("aresample=async=1"));
        args.push(owned(output_path));
        assert(args.deep_view() =~= spec_mux_args(video_path@,
            (match audio_path { Some(a) => Some(a@), None => None }),
            (match zoom_filter { Some(f) => Some(f@), None => None }),
            output_path@));
        args
    }

    /// How long to wait, in nanoseconds, before the next frame so that
    /// frames are 33 ms apart, given the nanoseconds the last frame took.
    pub fn frame_delay_ns(elapsed_ns: u64) -> (d: u64)
        ensures
            d == if elapsed_ns < 33_000_000 { 33_000_000 - elapsed_ns } else { 0 },
    {
        if elapsed_ns < 33_000_000 { 33_000_000 - elapsed_ns } else { 0 }
    }
}

} // verus!
