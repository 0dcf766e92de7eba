//! Encoder identification, the resource profile of the machine and the
//! FFmpeg arguments that follow from it.

use vstd::prelude::*;
use crate::text::{owned, u64_to_text, dec_digits, contains_text, spec_contains};

verus! {

/// A video encoder that FFmpeg may use.
#[derive(Debug, Clone, Copy, PartialEq, Eq, Structural)]
pub enum HwEncoder {
    Nvenc,
    VideoToolbox,
    Vaapi,
    Qsv,
    Libx264,
}

/// The operating system the recorder runs on, as far as the logic tells them apart.
#[derive(Debug, Clone, Copy, PartialEq, Eq, Structural)]
pub enum TargetOs {
    MacOs,
    Linux,
    Windows,
    Other,
}

/// The FFmpeg codec name of an encoder.
pub open spec fn spec_codec_name(e: HwEncoder) -> Seq<char> {
    match e {
        HwEncoder::Nvenc => "h264_nvenc"@,
        HwEncoder::VideoToolbox => "h264_videotoolbox"@,
        HwEncoder::Vaapi => "h264_vaapi"@,
        HwEncoder::Qsv => "h264_qsv"@,
        HwEncoder::Libx264 => "libx264"@,
    }
}

/// The human-readable name of an encoder.
pub open spec fn spec_display_name(e: HwEncoder) -> Seq<char> {
    match e {
        HwEncoder::Nvenc => "NVIDIA NVENC"@,
        HwEncoder::VideoToolbox => "Apple VideoToolbox"@,
        HwEncoder::Vaapi => "Linux VA-API"@,
        HwEncoder::Qsv => "Intel QuickSync (QSV)"@,
        HwEncoder::Libx264 => "Software (libx264)"@,
    }
}

/// The interface badge of an encoder.
pub open spec fn spec_tag(e: HwEncoder) -> Seq<char> {
    match e {
        HwEncoder::Nvenc => "[NVENC]"@,
        HwEncoder::VideoToolbox => "[VT]"@,
        HwEncoder::Vaapi => "[VA-API]"@,
        HwEncoder::Qsv => "[QSV]"@,
        HwEncoder::Libx264 => "[SW x264]"@,
    }
}

impl HwEncoder {
    /// The FFmpeg codec name of the encoder.
    pub fn codec_name(&self) -> (r: &'static str)
        ensures
            r@ == spec_codec_name(*self),
    {
        match self {
            HwEncoder::Nvenc => "h264_nvenc",
            HwEncoder::VideoToolbox => "h264_videotoolbox",
            HwEncoder::Vaapi => "h264_vaapi",
            HwEncoder::Qsv => "h264_qsv",
            HwEncoder::Libx264 => "libx264",
        }
    }

    /// A human-readable name of the encoder.
    pub fn display_name(&self) -> (r: &'static str)
        ensures
            r@ == spec_display_name(*self),
    {
        match self {
            HwEncoder::Nvenc => "NVIDIA NVENC",
            HwEncoder::VideoToolbox => "Apple VideoToolbox",
            HwEncoder::Vaapi => "Linux VA-API",
            HwEncoder::Qsv => "Intel QuickSync (QSV)",
            HwEncoder::Libx264 => "Software (libx264)",
        }
    }

    /// The short badge shown in the interface.
    pub fn tag(&self) -> (r: &'static str)
        ensures
            r@ == spec_tag(*self),
    {
        match self {
            HwEncoder::Nvenc => "[NVENC]",
            HwEncoder::VideoToolbox => "[VT]",
            HwEncoder::Vaapi => "[VA-API]",
            HwEncoder::Qsv => "[QSV]",
            HwEncoder::Libx264 => "[SW x264]",
        }
    }
}


/// What the machine offers and what the recorder makes of it.
#[derive(Debug, Clone, Copy)]
pub struct HardwareProfile {
    pub encoder: HwEncoder,
    pub cpu_cores: usize,
    pub total_memory_mb: u64,
    pub available_memory_mb: u64,
    pub recommended_threads: usize,
    pub frame_buffer_capacity: usize,
    pub preset: &'static str,
}

/// Encoding threads for a core count: 2 on one or two cores, one less than
/// the cores up to eight, and 8 beyond.
pub open spec fn spec_recommended_threads(cores: nat) -> nat {
    if cores <= 2 {
        2
    } else if cores <= 8 {
        (cores - 1) as nat
    } else {
        8
    }
}

/// Frames kept in the buffer for the available memory (in MB).
pub open spec fn spec_frame_buffer(available_mb: nat) -> nat {
    if available_mb > 16384 {
        300
    } else if available_mb > 8192 {
        180
    } else if available_mb > 4096 {
        120
    } else {
        60
    }
}

/// The encoder preset for an encoder on a machine with `cores` cores.
pub open spec fn spec_preset(e: HwEncoder, cores: nat) -> Seq<char> {
    match e {
        HwEncoder::Libx264 => if cores >= 8 {
            "veryfast"@
        } else if cores >= 4 {
            "superfast"@
        } else {
            "ultrafast"@
        },
        HwEncoder::Nvenc => "p4"@,
        HwEncoder::Qsv => "veryfast"@,
        HwEncoder::Vaapi => "default"@,
        HwEncoder::VideoToolbox => "default"@,
    }
}

/// The profile that the measurements give: `cpu_count` logical CPUs, and
/// memory sizes in bytes.
pub open spec fn profile_matches(
    p: HardwareProfile,
    cpu_count: nat,
    total_bytes: nat,
    available_bytes: nat,
    encoder: HwEncoder,
) -> bool {
    let cores = if cpu_count == 0 { 1 } else { cpu_count };
    &&& p.encoder == encoder
    &&& p.cpu_cores == cores
    &&& p.total_memory_mb == total_bytes / (1024 * 1024)
    &&& p.available_memory_mb == available_bytes / (1024 * 1024)
    &&& p.recommended_threads == spec_recommended_threads(cores)
    &&& p.frame_buffer_capacity == spec_frame_buffer(available_bytes / (1024 * 1024))
    &&& p.preset@ == spec_preset(encoder, cores)
}

/// The arguments that select and tune the encoder.
pub open spec fn spec_ffmpeg_args(e: HwEncoder, preset: Seq<char>, threads: nat) -> Seq<Seq<char>> {
    let head = seq!["-c:v"@, spec_codec_name(e)];
    match e {
        HwEncoder::Libx264 => head + seq![
            "-preset"@, preset, "-crf"@, "23"@, "-threads"@, dec_digits(threads)],
        HwEncoder::Nvenc => head + seq!["-preset"@, preset, "-cq"@, "23"@],
        HwEncoder::Qsv => head + seq!["-preset"@, preset, "-global_quality"@, "23"@],
        HwEncoder::Vaapi => head + seq![
            "-vaapi_device"@, "/dev/dri/renderD128"@, "-vf"@, "format=nv12,hwupload"@],
        HwEncoder::VideoToolbox => head + seq!["-realtime"@, "true"@],
    }
}

fn preset_for(e: HwEncoder, cores: usize) -> (r: &'static str)
    ensures
        r@ == spec_preset(e, cores as nat),
{
    match e {
        HwEncoder::Libx264 => {
            if cores >= 8 {
                "veryfast"
            } else if cores >= 4 {
                "superfast"
            } else {
                "ultrafast"
            }
        },
        HwEncoder::Nvenc => "p4",
        HwEncoder::Qsv => "veryfast",
        HwEncoder::Vaapi => "default",
        HwEncoder::VideoToolbox => "default",
    }
}

impl HardwareProfile {
    /// The profile for a machine with `cpu_count` logical CPUs and the given
    /// total and available memory in bytes, encoding with `encoder`.
    pub fn from_system(
        cpu_count: usize,
        total_memory_bytes: u64,
        available_memory_bytes: u64,
        encoder: HwEncoder,
    ) -> (p: HardwareProfile)
        ensures
            profile_matches(p, cpu_count as nat, total_memory_bytes as nat,
                available_memory_bytes as nat, encoder),
    {
        let cpu_cores = if cpu_count == 0 { 1 } else { cpu_count };
        let total_memory_mb = total_memory_bytes / (1024 * 1024);
        let available_memory_mb = available_memory_bytes / (1024 * 1024);
        let recommended_threads: usize = if cpu_cores <= 2 {
            2
        } else if cpu_cores <= 8 {
            cpu_cores - 1
        } else {
            8
        };
        let frame_buffer_capacity: usize = if available_memory_mb > 16384 {
            300
        } else if available_memory_mb > 8192 {
            180
        } else if available_memory_mb > 4096 {
            120
        } else {
            60
        };
        let preset = preset_for(encoder, cpu_cores);
        HardwareProfile {
            encoder,
            cpu_cores,
            total_memory_mb,
            available_memory_mb,
            recommended_threads,
            frame_buffer_capacity,
            preset,
        }
    }

    /// The FFmpeg arguments that select the encoder and tune it for this machine.
    pub fn get_ffmpeg_args(&self) -> (args: Vec<String>)
        ensures
            args.deep_view() == spec_ffmpeg_args(
                self.encoder, self.preset@, self.recommended_threads as nat),
    {
        let mut args: Vec<String> = Vec::new();
        args.push(owned("-c:v"));
        args.push(owned(self.encoder.codec_name()));
        match self.encoder {
            HwEncoder::Libx264 => {
                args.push(owned("-preset"));
                args.push(owned(self.preset));
                args.push(owned("-crf"));
                args.push(owned("23"));
                args.push(owned("-threads"));
                args.push(u64_to_text(self.recommended_threads as u64));
            },
            HwEncoder::Nvenc => {
                args.push(owned("-preset"));
                args.push(owned(self.preset));
                args.push(owned("-cq"));
                args.push(owned("23"));
            },
            HwEncoder::Qsv => {
                args.push(owned("-preset"));
                args.push(owned(self.preset));
                args.push(owned("-global_quality"));
                args.push(owned("23"));
            },
            HwEncoder::Vaapi => {
                args.push(owned("-vaapi_device"));
                args.push(owned("/dev/dri/renderD128"));
                args.push(owned("-vf"));
                args.push(owned("format=nv12,hwupload"));
            },
            HwEncoder::VideoToolbox => {
                args.push(owned("-realtime"));
                args.push(owned("true"));
            },
        }
        assert(args.deep_view() =~= spec_ffmpeg_args(
            self.encoder, self.preset@, self.recommended_threads as nat));
        args
    }
}

/// What encoder selection does next: test an encoder with a short trial
/// encode, or settle on an encoder.
#[derive(Debug, Clone, Copy, PartialEq, Eq, Structural)]
pub enum ProbeStep {
    Test(HwEncoder),
    Select(HwEncoder),
}

/// The encoders worth a trial encode, in the order they are tried, given the
/// text of `ffmpeg -encoders` and the operating system.
pub open spec fn probe_candidates(listing: Seq<char>, os: TargetOs) -> Seq<HwEncoder> {
    let nvenc = if spec_contains(listing, "h264_nvenc"@) { seq![HwEncoder::Nvenc] } else { seq![] };
    let vaapi = if os == TargetOs::Linux && spec_contains(listing, "h264_vaapi"@) {
        seq![HwEncoder::Vaapi]
    } else {
        seq![]
    };
    let qsv = if spec_contains(listing, "h264_qsv"@) { seq![HwEncoder::Qsv] } else { seq![] };
    nvenc + vaapi + qsv
}

/// The outcome of trying `cands` in order when the trials made so far
/// succeeded or failed as `results` says: the first candidate whose trial
/// succeeded, the next candidate to try, or the software encoder once every
/// candidate has failed.
pub open spec fn probe_outcome(cands: Seq<HwEncoder>, results: Seq<bool>) -> ProbeStep
    decreases cands.len(),
{
    if cands.len() == 0 {
        ProbeStep::Select(HwEncoder::Libx264)
    } else if results.len() == 0 {
        ProbeStep::Test(cands[0])
    } else if results[0] {
        ProbeStep::Select(cands[0])
    } else {
        probe_outcome(cands.drop_first(), results.drop_first())
    }
}

/// Encoder selection as a whole: VideoToolbox on macOS when FFmpeg offers it,
/// otherwise the outcome of the trials.
pub open spec fn spec_next_probe(listing: Seq<char>, os: TargetOs, results: Seq<bool>) -> ProbeStep {
    if os == TargetOs::MacOs && spec_contains(listing, "h264_videotoolbox"@) {
        ProbeStep::Select(HwEncoder::VideoToolbox)
    } else {
        probe_outcome(probe_candidates(listing, os), results)
    }
}

/// The next step of encoder selection. `encoder_listing` is the output of
/// `ffmpeg -encoders`, and `results[i]` says whether the trial encode asked
/// for by the `i`-th step succeeded.
pub fn next_encoder_probe(encoder_listing: &str, os: TargetOs, results: &Vec<bool>) -> (step: ProbeStep)
    ensures
        step == spec_next_probe(encoder_listing@, os, results@),
{
    if os == TargetOs::MacOs && contains_text(encoder_listing, "h264_videotoolbox") {
        return ProbeStep::Select(HwEncoder::VideoToolbox);
    }
    let mut cands: Vec<HwEncoder> = Vec::new();
    if contains_text(encoder_listing, "h264_nvenc") {
        cands.push(HwEncoder::Nvenc);
    }
    if os == TargetOs::Linux && contains_text(encoder_listing, "h264_vaapi") {
        cands.push(HwEncoder::Vaapi);
    }
    if contains_text(encoder_listing, "h264_qsv") {
        cands.push(HwEncoder::Qsv);
    }
    assert(cands@ =~= probe_candidates(encoder_listing@, os));
    assert(cands@.skip(0) =~= cands@);
    assert(results@.skip(0) =~= results@);
    let mut i: usize = 0;
    while i < cands.len()
        invariant
            i <= cands@.len(),
            i <= results@.len(),
            spec_next_probe(encoder_listing@, os, results@)
                == probe_outcome(cands@.skip(i as int), results@.skip(i as int)),
        decreases cands@.len() - i,
    {
        if i == results.len() {
            assert(cands@.skip(i as int)[0] == cands@[i as int]);
            return ProbeStep::Test(cands[i]);
        }
        if results[i] {
            assert(cands@.skip(i as int)[0] == cands@[i as int]);
            assert(results@.skip(i as int)[0] == results@[i as int]);
            return ProbeStep::Select(cands[i]);
        }
        assert(cands@.skip(i as int).drop_first() =~= cands@.skip(i + 1));
        assert(results@.skip(i as int).drop_first() =~= results@.skip(i + 1));
        i = i + 1;
    }
    ProbeStep::Select(HwEncoder::Libx264)
}

/// The arguments of the trial encode that checks whether `codec` works on
/// this machine: one tenth of a second of black 64x64 video, discarded.
pub fn encoder_test_args(codec: &str) -> (args: Vec<String>)
    ensures
        args.deep_view() == seq!["-y"@, "-f"@, "lavfi"@, "-i"@,
            "color=c=black:s=64x64:d=0.1"@, "-c:v"@, codec@, "-f"@, "null"@, "-"@],
{
    let mut args: Vec<String> = Vec::new();
    args.push(owned("-y"));
    args.push(owned("-f"));
    args.push(owned("lavfi"));
    args.push(owned("-i"));
    args.push(owned("color=c=black:s=64x64:d=0.1"));
    args.push(owned("-c:v"));
    args.push(owned(codec));
    args.push(owned("-f"));
    args.push(owned("null"));
    args.push(owned("-"));
    assert(args.deep_view() =~= seq!["-y"@, "-f"@, "lavfi"@, "-i"@,
        "color=c=black:s=64x64:d=0.1"@, "-c:v"@, codec@, "-f"@, "null"@, "-"@]);
    args
}

/// Once a trial has been made for every candidate and all failed, selection
/// falls back to the software encoder.
pub proof fn lemma_probe_falls_back(cands: Seq<HwEncoder>, results: Seq<bool>)
    requires
        results.len() >= cands.len(),
        forall|i: int| 0 <= i < cands.len() ==> !results[i],
    ensures
        probe_outcome(cands, results) == ProbeStep::Select(HwEncoder::Libx264),
    decreases cands.len(),
{
    if cands.len() > 0 {
        assert forall|i: int| 0 <= i < cands.drop_first().len()
            implies !results.drop_first()[i] by {
            assert(results.drop_first()[i] == results[i + 1]);
        }
        lemma_probe_falls_back(cands.drop_first(), results.drop_first());
    }
}

/// Selection asks for at most three trial encodes: with three results it
/// always settles on an encoder.
pub proof fn lemma_probe_settles(listing: Seq<char>, os: TargetOs, results: Seq<bool>)
    requires
        results.len() >= 3,
    ensures
        spec_next_probe(listing, os, results) is Select,
{
    let cands = probe_candidates(listing, os);
    assert(cands.len() <= 3);
    lemma_outcome_settles(cands, results);
}

/// With a result for every candidate, the outcome is a selection.
pub proof fn lemma_outcome_settles(cands: Seq<HwEncoder>, results: Seq<bool>)
    requires
        results.len() >= cands.len(),
    ensures
        probe_outcome(cands, results) is Select,
    decreases cands.len(),
{
    if cands.len() > 0 && !results[0] {
        lemma_outcome_settles(cands.drop_first(), results.drop_first());
    }
}

/// A selected encoder is the software encoder, VideoToolbox on macOS, or a
/// candidate whose trial encode succeeded.
pub proof fn lemma_selected_was_tested(cands: Seq<HwEncoder>, results: Seq<bool>, e: HwEncoder)
    requires
        probe_outcome(cands, results) == ProbeStep::Select(e),
    ensures
        e == HwEncoder::Libx264 || exists|i: int|
            0 <= i < cands.len() && i < results.len() && results[i] && cands[i] == e,
    decreases cands.len(),
{
    if cands.len() > 0 && results.len() > 0 && !results[0] {
        lemma_selected_was_tested(cands.drop_first(), results.drop_first(), e);
        if e != HwEncoder::Libx264 {
            let i = choose|i: int| 0 <= i < cands.drop_first().len() && i < results.drop_first().len()
                && results.drop_first()[i] && cands.drop_first()[i] == e;
            assert(results[i + 1] && cands[i + 1] == e);
        }
    }
}

/// Threads stay between two and eight, whatever the machine.
pub proof fn lemma_threads_bounded(cores: nat)
    ensures
        2 <= spec_recommended_threads(cores) <= 8,
{
}

/// More available memory never gives a smaller frame buffer, and the buffer
/// always holds between 60 and 300 frames.
pub proof fn lemma_frame_buffer_monotonic(a: nat, b: nat)
    requires
        a <= b,
    ensures
        spec_frame_buffer(a) <= spec_frame_buffer(b),
        60 <= spec_frame_buffer(a) <= 300,
{
}

/// Different encoders have different codec names, display names and tags.
pub proof fn lemma_names_distinct(a: HwEncoder, b: HwEncoder)
    requires
        a != b,
    ensures
        spec_codec_name(a) != spec_codec_name(b),
        spec_display_name(a) != spec_display_name(b),
        spec_tag(a) != spec_tag(b),
{
    reveal_strlit("h264_nvenc");
    reveal_strlit("h264_videotoolbox");
    reveal_strlit("h264_vaapi");
    reveal_strlit("h264_qsv");
    reveal_strlit("libx264");
    reveal_strlit("NVIDIA NVENC");
    reveal_strlit("Apple VideoToolbox");
    reveal_strlit("Linux VA-API");
    reveal_strlit("Intel QuickSync (QSV)");
    reveal_strlit("Software (libx264)");
    reveal_strlit("[NVENC]");
    reveal_strlit("[VT]");
    reveal_strlit("[VA-API]");
    reveal_strlit("[QSV]");
    reveal_strlit("[SW x264]");
    assert(spec_codec_name(a).len() != spec_codec_name(b).len()
        || spec_codec_name(a)[5] != spec_codec_name(b)[5]);
    assert(spec_display_name(a).len() != spec_display_name(b).len()
        || spec_display_name(a)[0] != spec_display_name(b)[0]);
    assert(spec_tag(a).len() != spec_tag(b).len());
}

} // verus!
