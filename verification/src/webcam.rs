//! Webcam devices and the FFmpeg command line that streams the camera as
//! raw RGBA frames for the picture-in-picture window.

use vstd::prelude::*;
use crate::hardware::TargetOs;
use crate::text::{owned, push_str, u64_to_text, dec_digits, chars_of, find_chars, occurs_at,
    spec_contains, string_from_chars};

verus! {

/// The program's webcam stream.
pub struct WebcamEngine;

/// Width of the frames the webcam stream delivers.
pub const WEBCAM_WIDTH: u32 = 320;
/// Height of the frames the webcam stream delivers.
pub const WEBCAM_HEIGHT: u32 = 240;

/// The path of video device `i`.
pub open spec fn spec_device_path(i: nat) -> Seq<char> {
    "/dev/video"@ + dec_digits(i)
}

/// The device list entries for the devices among the first `n` that are present.
pub open spec fn camera_entries(present: Seq<bool>, n: nat) -> Seq<Seq<char>>
    decreases n,
{
    if n == 0 {
        seq![]
    } else {
        let rest = camera_entries(present, (n - 1) as nat);
        let i = (n - 1) as nat;
        if i < present.len() && present[i as int] {
            rest.push("Camera "@ + dec_digits(i) + " ("@ + spec_device_path(i) + ")"@)
        } else {
            rest
        }
    }
}

/// The device list: on Linux, one entry per present device among
/// `/dev/video0` to `/dev/video7`; when there is none, the automatic choice.
pub open spec fn spec_video_devices(os: TargetOs, present: Seq<bool>) -> Seq<Seq<char>> {
    let found = if os == TargetOs::Linux { camera_entries(present, 8) } else { seq![] };
    if found.len() == 0 { seq!["Auto (/dev/video0)"@] } else { found }
}

/// The index of the first `/dev/video` in `s`.
pub open spec fn first_video_mention(s: Seq<char>) -> int {
    choose|i: int| occurs_at(s, "/dev/video"@, i)
        && forall|j: int| 0 <= j < i ==> !occurs_at(s, "/dev/video"@, j)
}

/// `s` without its trailing `)` characters.
pub open spec fn trim_close_parens(s: Seq<char>) -> Seq<char>
    decreases s.len(),
{
    if s.len() > 0 && s.last() == ')' {
        trim_close_parens(s.drop_last())
    } else {
        s
    }
}

/// The device a Linux camera stream reads: the `/dev/video...` path named in
/// the selected entry, else the first of `/dev/video0` and `/dev/video1` that
/// exists, else `/dev/video0`.
pub open spec fn spec_linux_camera_device(selected: Seq<char>, video0_exists: bool, video1_exists: bool) -> Seq<char> {
    if spec_contains(selected, "/dev/video"@) {
        trim_close_parens(selected.skip(first_video_mention(selected)))
    } else if video0_exists {
        "/dev/video0"@
    } else if video1_exists {
        "/dev/video1"@
    } else {
        "/dev/video0"@
    }
}

/// The FFmpeg input arguments that open the camera.
pub open spec fn spec_camera_input_args(os: TargetOs, selected: Seq<char>, video0_exists: bool, video1_exists: bool) -> Seq<Seq<char>> {
    if os == TargetOs::MacOs {
        seq!["-f"@, "avfoundation"@, "-i"@, "0"@]
    } else if os == TargetOs::Windows {
        seq!["-f"@, "dshow"@, "-i"@, "video=Integrated Camera"@]
    } else {
        seq!["-f"@, "v4l2"@, "-i"@, spec_linux_camera_device(selected, video0_exists, video1_exists)]
    }
}

/// The whole FFmpeg command line of the camera stream.
pub open spec fn spec_camera_stream_args(input: Seq<Seq<char>>) -> Seq<Seq<char>> {
    seq!["-y"@] + input + seq!["-video_size"@, "320x240"@, "-f"@, "rawvideo"@,
        "-pix_fmt"@, "rgba"@, "-r"@, "30"@, "-"@]
}

/// The path of video device `i`.
pub fn video_device_path(i: u32) -> (r: String)
    ensures
        r@ == spec_device_path(i as nat),
{
    let mut r = owned("/dev/video");
    push_str(&mut r, u64_to_text(i as u64).as_str());
    r
}

fn trim_end_close_parens(s: &[char], end: usize) -> (r: usize)
    requires
        end <= s@.len(),
    ensures
        r <= end,
        trim_close_parens(s@.subrange(0, end as int)) == s@.subrange(0, r as int),
{
    let mut e = end;
    while e > 0 && s[e - 1] == ')'
        invariant
            e <= end,
            end <= s@.len(),
            trim_close_parens(s@.subrange(0, end as int)) == trim_close_parens(s@.subrange(0, e as int)),
        decreases e,
    {
        assert(s@.subrange(0, e as int).drop_last() =~= s@.subrange(0, e - 1));
        e = e - 1;
    }
    e
}

/// The device a Linux camera stream reads (see `spec_linux_camera_device`).
fn linux_camera_device(selected: &str, video0_exists: bool, video1_exists: bool) -> (r: String)
    ensures
        r@ == spec_linux_camera_device(selected@, video0_exists, video1_exists),
{
    let sel = chars_of(selected);
    let needle = chars_of("/dev/video");
    match find_chars(sel.as_slice(), needle.as_slice()) {
        Some(idx) => {
            let e = trim_end_close_parens(sel.as_slice(), sel.len());
            assert(sel@.subrange(0, sel@.len() as int) =~= sel@);
            proof {
                reveal_strlit("/dev/video");
                let n = "/dev/video"@;
                assert(occurs_at(selected@, n, idx as int)
                    && forall|j: int| 0 <= j < idx ==> !occurs_at(selected@, n, j));
                let f = first_video_mention(selected@);
                assert(occurs_at(selected@, n, f)
                    && forall|j: int| 0 <= j < f ==> !occurs_at(selected@, n, j));
                if f < idx {
                    assert(!occurs_at(selected@, n, f));
                } else if f > idx {
                    assert(!occurs_at(selected@, n, idx as int));
                }
                assert(f == idx);
                assert(sel@[idx + 9] == sel@.subrange(idx as int, idx + 10)[9]);
                lemma_trim_keeps(sel@, idx + 9);
                lemma_trim_prefix(sel@);
                lemma_trim_skip(sel@, idx as int);
                assert(trim_close_parens(sel@).skip(idx as int) =~= sel@.subrange(idx as int, e as int));
                assert(spec_contains(selected@, n));
            }
            let mut part: Vec<char> = Vec::new();
            let mut k: usize = idx;
            while k < e
                invariant
                    idx <= k <= e,
                    e <= sel@.len(),
                    part@ == sel@.subrange(idx as int, k as int),
                decreases e - k,
            {
                part.push(sel[k]);
                assert(sel@.subrange(idx as int, k + 1) =~= sel@.subrange(idx as int, k as int).push(sel@[k as int]));
                k = k + 1;
            }
            string_from_chars(part.as_slice())
        },
        None => {
            if video0_exists {
                owned("/dev/video0")
            } else if video1_exists {
                owned("/dev/video1")
            } else {
                owned("/dev/video0")
            }
        },
    }
}

impl WebcamEngine {
    /// The webcams to offer. `present[i]` says whether `/dev/video{i}` exists
    /// (missing entries count as absent); only Linux devices are listed.
    pub fn list_video_devices(os: TargetOs, present: &Vec<bool>) -> (devices: Vec<String>)
        ensures
            devices.deep_view() == spec_video_devices(os, present@),
    {
        let mut devices: Vec<String> = Vec::new();
        if os == TargetOs::Linux {
            let mut i: u32 = 0;
            while i < 8
                invariant
                    i <= 8,
                    os == TargetOs::Linux,
                    devices.deep_view() == camera_entries(present@, i as nat),
                decreases 8 - i,
            {
                if (i as usize) < present.len() && present[i as usize] {
                    let mut entry = owned("Camera ");
                    push_str(&mut entry, u64_to_text(i as u64).as_str());
                    push_str(&mut entry, " (");
                    push_str(&mut entry, video_device_path(i).as_str());
                    push_str(&mut entry, ")");
                    devices.push(entry);
                }
                assert(devices.deep_view() =~= camera_entries(present@, (i + 1) as nat));
                i = i + 1;
            }
        }
        if devices.len() == 0 {
            devices.push(owned("Auto (/dev/video0)"));
        }
        assert(devices.deep_view() =~= spec_video_devices(os, present@));
        devices
    }

    /// The FFmpeg input arguments that open the camera chosen as `selected`;
    /// `video0_exists` and `video1_exists` say whether `/dev/video0` and
    /// `/dev/video1` exist.
    pub fn camera_input_args(os: TargetOs, selected: &str, video0_exists: bool, video1_exists: bool) -> (args: Vec<String>)
        ensures
            args.deep_view() == spec_camera_input_args(os, selected@, video0_exists, video1_exists),
    {
        let mut args: Vec<String> = Vec::new();
        if os == TargetOs::MacOs {
            args.push(owned("-f"));
            args.push(owned("avfoundation"));
            args.push(owned("-i"));
            args.push(owned("0"));
        } else if os == TargetOs::Windows {
            args.push(owned("-f"));
            args.push(owned("dshow"));
            args.push(owned("-i"));
            args.push(owned("video=Integrated Camera"));
        } else {
            let dev_path = linux_camera_device(selected, video0_exists, video1_exists);
            args.push(owned("-f"));
            args.push(owned("v4l2"));
            args.push(owned("-i"));
            args.push(dev_path);
        }
        assert(args.deep_view() =~= spec_camera_input_args(os, selected@, video0_exists, video1_exists));
        args
    }

    /// The FFmpeg command line that streams the camera opened by `input`
    /// as 30 frames per second of raw 320x240 RGBA on standard output.
    pub fn camera_stream_args(input: &Vec<String>) -> (args: Vec<String>)
        ensures
            args.deep_view() == spec_camera_stream_args(input.deep_view()),
    {
        let mut args: Vec<String> = Vec::new();
        args.push(owned("-y"));
        assert(args.deep_view() =~= seq!["-y"@] + input.deep_view().subrange(0, 0));
        let mut i: usize = 0;
        while i < input.len()
            invariant
                i <= input@.len(),
                args.deep_view() == seq!["-y"@] + input.deep_view().subrange(0, i as int),
            decreases input@.len() - i,
        {
            let ghost before = args.deep_view();
            args.push(input[i].clone());
            assert(args.deep_view() =~= before.push(input.deep_view()[i as int]));
            assert(input.deep_view().subrange(0, i + 1) =~= input.deep_view().subrange(0, i as int).push(input.deep_view()[i as int]));
            assert(args.deep_view() =~= seq!["-y"@] + input.deep_view().subrange(0, i + 1));
            i = i + 1;
        }
        assert(input.deep_view().subrange(0, input@.len() as int) =~= input.deep_view());
        args.push(owned("-video_size"));
        args.push(owned("320x240"));
        args.push(owned("-f"));
        args.push(owned("rawvideo"));
        args.push(owned("-pix_fmt"));
        args.push(owned("rgba"));
        args.push(owned("-r"));
        args.push(owned("30"));
        args.push(owned("-"));
        assert(args.deep_view() =~= spec_camera_stream_args(input.deep_view()));
        args
    }

    /// Bytes in one raw RGBA webcam frame.
    pub fn frame_size() -> (n: usize)
        ensures
            n == 4 * 320 * 240,
    {
        307200
    }
}

/// The trimmed text is a prefix of the text.
proof fn lemma_trim_prefix(s: Seq<char>)
    ensures
        trim_close_parens(s).len() <= s.len(),
        trim_close_parens(s) == s.subrange(0, trim_close_parens(s).len() as int),
    decreases s.len(),
{
    if s.len() > 0 && s.last() == ')' {
        lemma_trim_prefix(s.drop_last());
        assert(s.drop_last().subrange(0, trim_close_parens(s).len() as int)
            =~= s.subrange(0, trim_close_parens(s).len() as int));
    } else {
        assert(s.subrange(0, s.len() as int) =~= s);
    }
}

/// Trimming keeps every character up to the last one that is not `)`.
proof fn lemma_trim_keeps(s: Seq<char>, j: int)
    requires
        0 <= j < s.len(),
        s[j] != ')',
    ensures
        trim_close_parens(s).len() > j,
    decreases s.len(),
{
    if s.len() > 0 && s.last() == ')' {
        lemma_trim_keeps(s.drop_last(), j);
    }
}

/// Trimming a suffix that starts within the trimmed text gives the same
/// suffix of the trimmed text.
proof fn lemma_trim_skip(s: Seq<char>, i: int)
    requires
        0 <= i <= trim_close_parens(s).len(),
    ensures
        trim_close_parens(s.skip(i)) == trim_close_parens(s).skip(i),
    decreases s.len(),
{
    lemma_trim_prefix(s);
    if s.len() > 0 && s.last() == ')' {
        lemma_trim_prefix(s.drop_last());
        lemma_trim_skip(s.drop_last(), i);
        assert(s.skip(i).drop_last() =~= s.drop_last().skip(i));
        assert(s.skip(i).last() == s.last());
    } else if s.skip(i).len() > 0 {
        assert(s.skip(i).last() == s.last());
    } else {
        assert(s.skip(i) =~= trim_close_parens(s).skip(i));
    }
}

/// Among the first `n` devices, at most `n` entries.
proof fn lemma_camera_entries_len(present: Seq<bool>, n: nat)
    ensures
        camera_entries(present, n).len() <= n,
    decreases n,
{
    if n > 0 {
        lemma_camera_entries_len(present, (n - 1) as nat);
    }
}

/// The webcam list always offers a choice, and at most eight.
pub proof fn lemma_video_devices_offered(os: TargetOs, present: Seq<bool>)
    ensures
        1 <= spec_video_devices(os, present).len() <= 8,
{
    lemma_camera_entries_len(present, 8);
}

} // verus!
