//! Audio: the microphone list, the applications playing sound (read from
//! `pactl list sink-inputs`), file names of the recorded tracks, the FFmpeg
//! command line that records system audio, and the microphone gain.

use vstd::prelude::*;
use crate::hardware::TargetOs;
use crate::text::{owned, push_str, i64_to_text, int_text, chars_of, find_chars,
    spec_contains, string_from_chars, str_eq, trim_chars, trim_ws, trim_quotes};

verus! {

/// The program's audio capture.
pub struct AudioEngine;

/// `acc` followed by the names of `names` that it does not hold yet, each once,
/// in order.
pub open spec fn add_unique(acc: Seq<Seq<char>>, names: Seq<Seq<char>>) -> Seq<Seq<char>>
    decreases names.len(),
{
    if names.len() == 0 {
        acc
    } else {
        let next = if acc.contains(names[0]) { acc } else { acc.push(names[0]) };
        add_unique(next, names.drop_first())
    }
}

/// Whether `s` is among `v`.
fn contains_string(v: &Vec<String>, s: &String) -> (r: bool)
    ensures
        r == v.deep_view().contains(s@),
{
    let mut i: usize = 0;
    while i < v.len()
        invariant
            i <= v@.len(),
            forall|j: int| 0 <= j < i ==> v.deep_view()[j] != s@,
        decreases v@.len() - i,
    {
        if v[i] == *s {
            assert(v.deep_view()[i as int] == s@);
            return true;
        }
        i = i + 1;
    }
    false
}

/// Appends to `acc` the names of `names` it does not hold yet.
fn append_unique(acc: &mut Vec<String>, names: &Vec<String>)
    ensures
        final(acc).deep_view() == add_unique(old(acc).deep_view(), names.deep_view()),
{
    let ghost ns = names.deep_view();
    let ghost start = acc.deep_view();
    let mut i: usize = 0;
    assert(ns.skip(0) =~= ns);
    while i < names.len()
        invariant
            i <= names@.len(),
            ns == names.deep_view(),
            add_unique(start, ns) == add_unique(acc.deep_view(), ns.skip(i as int)),
        decreases names@.len() - i,
    {
        assert(ns.skip(i as int)[0] == ns[i as int]);
        assert(ns.skip(i as int).drop_first() =~= ns.skip(i + 1));
        if !contains_string(acc, &names[i]) {
            let ghost before = acc.deep_view();
            acc.push(names[i].clone());
            assert(acc.deep_view() =~= before.push(ns[i as int]));
        }
        i = i + 1;
    }
    assert(ns.skip(names@.len() as int) =~= Seq::<Seq<char>>::empty());
}

// ---------------------------------------------------------------------------
// Text of `pactl list sink-inputs`

/// Drops one trailing carriage return.
pub open spec fn strip_cr(l: Seq<char>) -> Seq<char> {
    if l.len() > 0 && l.last() == '\r' { l.drop_last() } else { l }
}

/// The finished lines of `s` and the line still open at its end.
pub open spec fn lines_fold(s: Seq<char>) -> (Seq<Seq<char>>, Seq<char>)
    decreases s.len(),
{
    if s.len() == 0 {
        (seq![], seq![])
    } else {
        let (ls, cur) = lines_fold(s.drop_last());
        if s.last() == '\n' {
            (ls.push(strip_cr(cur)), seq![])
        } else {
            (ls, cur.push(s.last()))
        }
    }
}

/// The lines of `s`, as `str::lines` gives them: split at `\n`, a `\r`
/// before the `\n` dropped, and no empty line after a final `\n`.
pub open spec fn spec_lines(s: Seq<char>) -> Seq<Seq<char>> {
    let (ls, cur) = lines_fold(s);
    if cur.len() == 0 { ls } else { ls.push(cur) }
}

/// How many times `c` occurs in `s`.
pub open spec fn count_char(s: Seq<char>, c: char) -> nat
    decreases s.len(),
{
    if s.len() == 0 {
        0
    } else {
        count_char(s.drop_last(), c) + if s.last() == c { 1nat } else { 0nat }
    }
}

/// What follows the first `c` in `s` (empty when there is none).
pub open spec fn after_char(s: Seq<char>, c: char) -> Seq<char>
    decreases s.len(),
{
    if s.len() == 0 {
        seq![]
    } else if s[0] == c {
        s.drop_first()
    } else {
        after_char(s.drop_first(), c)
    }
}

/// The application named by a line of `pactl list sink-inputs`: a line that
/// mentions `application.name =` or `media.name =` and has exactly one `=`,
/// whose value, trimmed of white space and quotes, is not empty.
pub open spec fn sink_app_name(line: Seq<char>) -> Option<Seq<char>> {
    if (spec_contains(line, "application.name ="@) || spec_contains(line, "media.name ="@))
        && count_char(line, '=') == 1 {
        let name = trim_quotes(trim_ws(after_char(line, '=')));
        if name.len() > 0 { Some(name) } else { None }
    } else {
        None
    }
}

/// The application names of the lines, in order.
pub open spec fn names_of_lines(lines: Seq<Seq<char>>) -> Seq<Seq<char>>
    decreases lines.len(),
{
    if lines.len() == 0 {
        seq![]
    } else {
        let rest = names_of_lines(lines.drop_last());
        match sink_app_name(lines.last()) {
            Some(n) => rest.push(n),
            None => rest,
        }
    }
}

/// The applications to offer for system audio capture: those that `pactl`
/// lists, each once, or three usual sources when it lists none.
pub open spec fn spec_audio_apps(pactl_output: Option<Seq<char>>) -> Seq<Seq<char>> {
    let found = match pactl_output {
        Some(out) => add_unique(seq![], names_of_lines(spec_lines(out))),
        None => seq![],
    };
    if found.len() == 0 { seq!["Discord"@, "Spotify"@, "Browser Stream"@] } else { found }
}


/// The lines of a text.
fn split_lines(cs: &[char]) -> (r: Vec<Vec<char>>)
    ensures
        r.deep_view() == spec_lines(cs@),
{
    let mut lines: Vec<Vec<char>> = Vec::new();
    let mut cur: Vec<char> = Vec::new();
    let mut i: usize = 0;
    assert(cs@.subrange(0, 0) =~= Seq::<char>::empty());
    while i < cs.len()
        invariant
            i <= cs@.len(),
            (lines.deep_view(), cur@) == lines_fold(cs@.subrange(0, i as int)),
        decreases cs@.len() - i,
    {
        let c = cs[i];
        assert(cs@.subrange(0, i + 1).drop_last() =~= cs@.subrange(0, i as int));
        assert(cs@.subrange(0, i + 1).last() == c);
        if c == '\n' {
            if cur.len() > 0 && cur[cur.len() - 1] == '\r' {
                let ghost full = cur@;
                cur.pop();
                assert(cur@ =~= full.drop_last());
            }
            let ghost before = lines.deep_view();
            let ghost d = cur@;
            let done = cur;
            lines.push(done);
            cur = Vec::new();
            assert(lines@[lines@.len() - 1].deep_view() =~= d);
            assert(lines.deep_view() =~= before.push(d));
        } else {
            cur.push(c);
        }
        i = i + 1;
    }
    assert(cs@.subrange(0, cs@.len() as int) =~= cs@);
    if cur.len() > 0 {
        let ghost before = lines.deep_view();
        let ghost d = cur@;
        lines.push(cur);
        assert(lines@[lines@.len() - 1].deep_view() =~= d);
        assert(lines.deep_view() =~= before.push(d));
    }
    lines
}

/// How many times `c` occurs in `s`.
fn count_chars(s: &[char], c: char) -> (n: usize)
    ensures
        n == count_char(s@, c),
{
    let mut n: usize = 0;
    let mut i: usize = 0;
    assert(s@.subrange(0, 0) =~= Seq::<char>::empty());
    while i < s.len()
        invariant
            i <= s@.len(),
            n == count_char(s@.subrange(0, i as int), c),
            n <= i,
        decreases s@.len() - i,
    {
        assert(s@.subrange(0, i + 1).drop_last() =~= s@.subrange(0, i as int));
        if s[i] == c {
            n = n + 1;
        }
        i = i + 1;
    }
    assert(s@.subrange(0, s@.len() as int) =~= s@);
    n
}

/// What follows the first `c` in `s`.
fn after_first(s: &[char], c: char) -> (r: Vec<char>)
    ensures
        r@ == after_char(s@, c),
{
    let mut i: usize = 0;
    assert(s@.skip(0) =~= s@);
    while i < s.len() && s[i] != c
        invariant
            i <= s@.len(),
            after_char(s@, c) == after_char(s@.skip(i as int), c),
        decreases s@.len() - i,
    {
        assert(s@.skip(i as int)[0] == s@[i as int]);
        assert(s@.skip(i as int).drop_first() =~= s@.skip(i + 1));
        i = i + 1;
    }
    let mut r: Vec<char> = Vec::new();
    if i < s.len() {
        assert(s@.skip(i as int)[0] == s@[i as int]);
        assert(s@.skip(i as int).drop_first() =~= s@.skip(i + 1));
        let mut k: usize = i + 1;
        while k < s.len()
            invariant
                i + 1 <= k <= s@.len(),
                r@ == s@.subrange(i + 1, k as int),
            decreases s@.len() - k,
        {
            r.push(s[k]);
            assert(s@.subrange(i + 1, k + 1) =~= s@.subrange(i + 1, k as int).push(s@[k as int]));
            k = k + 1;
        }
        assert(r@ =~= s@.skip(i + 1));
    } else {
        assert(s@.skip(i as int) =~= Seq::<char>::empty());
    }
    r
}

/// The application a line names, if any.
fn app_name_of_line(line: &[char]) -> (r: Option<Vec<char>>)
    ensures
        match r {
            Some(n) => sink_app_name(line@) == Some(n@),
            None => sink_app_name(line@) is None,
        },
{
    let app = chars_of("application.name =");
    let media = chars_of("media.name =");
    let mentions = match find_chars(line, app.as_slice()) {
        Some(_) => true,
        None => match find_chars(line, media.as_slice()) {
            Some(_) => true,
            None => false,
        },
    };
    if !mentions || count_chars(line, '=') != 1 {
        return None;
    }
    let value = after_first(line, '=');
    let trimmed = trim_chars(value.as_slice(), false);
    let name = trim_chars(trimmed.as_slice(), true);
    if name.len() > 0 {
        Some(name)
    } else {
        None
    }
}

impl AudioEngine {
    /// The microphones to offer: "Default" first, then the names of the
    /// input devices found, each once, in order.
    pub fn list_input_devices(device_names: &Vec<String>) -> (devices: Vec<String>)
        ensures
            devices.deep_view() == add_unique(seq!["Default"@], device_names.deep_view()),
    {
        let mut devices: Vec<String> = Vec::new();
        devices.push(owned("Default"));
        assert(devices.deep_view() =~= seq!["Default"@]);
        append_unique(&mut devices, device_names);
        devices
    }

    /// The applications playing sound, read from the output of
    /// `pactl list sink-inputs` (`None` when it could not be run); three
    /// usual sources when none is found.
    pub fn list_active_audio_apps(pactl_output: Option<&str>) -> (apps: Vec<String>)
        ensures
            apps.deep_view() == spec_audio_apps(match pactl_output {
                Some(o) => Some(o@),
                None => None,
            }),
    {
        let mut apps: Vec<String> = Vec::new();
        match pactl_output {
            Some(out) => {
                let cs = chars_of(out);
                let lines = split_lines(cs.as_slice());
                let ghost ls = lines.deep_view();
                let mut names: Vec<String> = Vec::new();
                let mut i: usize = 0;
                assert(ls.subrange(0, 0) =~= Seq::<Seq<char>>::empty());
                while i < lines.len()
                    invariant
                        i <= lines@.len(),
                        ls == lines.deep_view(),
                        names.deep_view() == names_of_lines(ls.subrange(0, i as int)),
                    decreases lines@.len() - i,
                {
                    assert(ls.subrange(0, i + 1).drop_last() =~= ls.subrange(0, i as int));
                    assert(ls.subrange(0, i + 1).last() == lines@[i as int]@) by {
                        assert(lines@[i as int].deep_view() =~= lines@[i as int]@);
                    }
                    match app_name_of_line(lines[i].as_slice()) {
                        Some(n) => {
                            let ghost before = names.deep_view();
                            names.push(string_from_chars(n.as_slice()));
                            assert(names.deep_view() =~= before.push(n@));
                        },
                        None => {},
                    }
                    i = i + 1;
                }
                assert(ls.subrange(0, lines@.len() as int) =~= ls);
                assert(apps.deep_view() =~= Seq::<Seq<char>>::empty());
                append_unique(&mut apps, &names);
            },
            None => {},
        }
        if apps.len() == 0 {
            apps.push(owned("Discord"));
            apps.push(owned("Spotify"));
            apps.push(owned("Browser Stream"));
        }
        assert(apps.deep_view() =~= spec_audio_apps(match pactl_output {
            Some(o) => Some(o@),
            None => None,
        }));
        apps
    }

    /// Whether the microphone named `mic_device_name` is to be looked up by
    /// name; "Default" and the empty name mean the default input device.
    pub fn wants_named_microphone(mic_device_name: &str) -> (r: bool)
        ensures
            r == (mic_device_name@ != "Default"@ && mic_device_name@.len() > 0),
    {
        !str_eq(mic_device_name, "Default") && mic_device_name.unicode_len() > 0
    }

    /// The input device to record from, given the name of each device
    /// (`None` where it could not be read): the first device named
    /// `mic_device_name` when a named microphone is wanted; `None` for the
    /// default input device, also when no device has that name.
    pub fn choose_microphone(mic_device_name: &str, device_names: &Vec<Option<String>>) -> (r: Option<usize>)
        ensures
            match r {
                Some(i) => mic_device_name@ != "Default"@ && mic_device_name@.len() > 0
                    && i < device_names@.len()
                    && device_names.deep_view()[i as int] == Some(mic_device_name@)
                    && forall|j: int| 0 <= j < i ==> device_names.deep_view()[j] != Some(mic_device_name@),
                None => !(mic_device_name@ != "Default"@ && mic_device_name@.len() > 0)
                    || forall|j: int| 0 <= j < device_names@.len()
                        ==> device_names.deep_view()[j] != Some(mic_device_name@),
            },
    {
        if !Self::wants_named_microphone(mic_device_name) {
            return None;
        }
        let mut i: usize = 0;
        while i < device_names.len()
            invariant
                i <= device_names@.len(),
                mic_device_name@ != "Default"@ && mic_device_name@.len() > 0,
                forall|j: int| 0 <= j < i ==> device_names.deep_view()[j] != Some(mic_device_name@),
            decreases device_names@.len() - i,
        {
            match &device_names[i] {
                Some(n) => {
                    assert(device_names.deep_view()[i as int] == Some(n@));
                    if str_eq(n.as_str(), mic_device_name) {
                        return Some(i);
                    }
                },
                None => {},
            }
            i = i + 1;
        }
        None
    }

    /// The file name of a microphone track started at Unix time `timestamp`.
    pub fn microphone_file_name(timestamp: i64) -> (r: String)
        ensures
            r@ == "temp_audio_"@ + int_text(timestamp as int) + ".wav"@,
    {
        let mut r = owned("temp_audio_");
        push_str(&mut r, i64_to_text(timestamp).as_str());
        push_str(&mut r, ".wav");
        r
    }

    /// The file name of a system audio track started at Unix time `timestamp`.
    pub fn system_audio_file_name(timestamp: i64) -> (r: String)
        ensures
            r@ == "temp_system_audio_"@ + int_text(timestamp as int) + ".wav"@,
    {
        let mut r = owned("temp_system_audio_");
        push_str(&mut r, i64_to_text(timestamp).as_str());
        push_str(&mut r, ".wav");
        r
    }

    /// The FFmpeg command line that records the system's sound output into
    /// `output_path`: 2 channels at 44.1 kHz.
    pub fn system_audio_ffmpeg_args(os: TargetOs, output_path: &str) -> (args: Vec<String>)
        ensures
            args.deep_view() == spec_system_audio_args(os, output_path@),
    {
        let mut args: Vec<String> = Vec::new();
        args.push(owned("-y"));
        args.push(owned("-fflags"));
        args.push(owned("+genpts"));
        args.push(owned("-f"));
        if os == TargetOs::MacOs {
            args.push(owned("avfoundation"));
            args.push(owned("-i"));
            args.push(owned(":0"));
        } else if os == TargetOs::Windows {
            args.push(owned("dshow"));
            args.push(owned("-i"));
            args.push(owned("audio=virtual-audio-capturer"));
        } else {
            args.push(owned("pulse"));
            args.push(owned("-i"));
            args.push(owned("default.monitor"));
        }
        args.push(owned("-ac"));
        args.push(owned("2"));
        args.push(owned("-ar"));
        args.push(owned("44100"));
        args.push(owned("-async"));
        args.push(owned("1"));
        args.push(owned(output_path));
        assert(args.deep_view() =~= spec_system_audio_args(os, output_path@));
        args
    }

    /// A 16-bit microphone sample with the 2.5x gain applied, saturated to
    /// the 16-bit range.
    pub fn amplify_i16_sample(sample: i16) -> (r: i16)
        ensures
            r == clamp_i16(half_toward_zero(5 * sample as int)),
    {
        let v: i32 = (sample as i32) * 5 / 2;
        if v > 32767 {
            32767
        } else if v < -32768 {
            -32768
        } else {
            v as i16
        }
    }

    /// An unsigned 16-bit microphone sample, centred on zero, with the 2.5x
    /// gain applied and saturated to the 16-bit range.
    pub fn amplify_u16_sample(sample: u16) -> (r: i16)
        ensures
            r == clamp_i16(half_toward_zero(5 * (sample as int - 32768))),
    {
        let v: i32 = ((sample as i32) - 32768) * 5 / 2;
        if v > 32767 {
            32767
        } else if v < -32768 {
            -32768
        } else {
            v as i16
        }
    }
}

/// Half of `v`, rounded toward zero.
pub open spec fn half_toward_zero(v: int) -> int {
    if v >= 0 { v / 2 } else { -((-v) / 2) }
}

/// `v` saturated to the range of `i16`.
pub open spec fn clamp_i16(v: int) -> int {
    if v > 32767 { 32767 } else if v < -32768 { -32768 } else { v }
}

/// The FFmpeg command line that records system audio.
pub open spec fn spec_system_audio_args(os: TargetOs, out: Seq<char>) -> Seq<Seq<char>> {
    let input = if os == TargetOs::MacOs {
        seq!["-f"@, "avfoundation"@, "-i"@, ":0"@]
    } else if os == TargetOs::Windows {
        seq!["-f"@, "dshow"@, "-i"@, "audio=virtual-audio-capturer"@]
    } else {
        seq!["-f"@, "pulse"@, "-i"@, "default.monitor"@]
    };
    seq!["-y"@, "-fflags"@, "+genpts"@] + input
        + seq!["-ac"@, "2"@, "-ar"@, "44100"@, "-async"@, "1"@, out]
}

/// Adding names keeps the list it starts from in front, never lists a name
/// twice, lists every name added, and lists nothing else.
pub proof fn lemma_add_unique(acc: Seq<Seq<char>>, names: Seq<Seq<char>>)
    requires
        acc.no_duplicates(),
    ensures
        add_unique(acc, names).no_duplicates(),
        acc.len() <= add_unique(acc, names).len(),
        add_unique(acc, names).subrange(0, acc.len() as int) == acc,
        forall|i: int| 0 <= i < names.len() ==> add_unique(acc, names).contains(#[trigger] names[i]),
        forall|i: int| 0 <= i < add_unique(acc, names).len()
            ==> acc.contains(#[trigger] add_unique(acc, names)[i]) || names.contains(add_unique(acc, names)[i]),
    decreases names.len(),
{
    if names.len() > 0 {
        let next = if acc.contains(names[0]) { acc } else { acc.push(names[0]) };
        assert(next.no_duplicates()) by {
            if !acc.contains(names[0]) {
                assert forall|i: int, j: int| 0 <= i < next.len() && 0 <= j < next.len() && i != j
                    implies next[i] != next[j] by {
                    if i == acc.len() as int {
                        assert(acc[j] == next[j]);
                    } else if j == acc.len() as int {
                        assert(acc[i] == next[i]);
                    }
                }
            }
        }
        lemma_add_unique(next, names.drop_first());
        let r = add_unique(acc, names);
        assert(r == add_unique(next, names.drop_first()));
        assert(r.subrange(0, next.len() as int) == next);
        assert(r.subrange(0, acc.len() as int) =~= acc) by {
            assert forall|k: int| 0 <= k < acc.len() implies r.subrange(0, acc.len() as int)[k] == acc[k] by {
                assert(r.subrange(0, next.len() as int)[k] == next[k]);
            }
        }
        assert forall|i: int| 0 <= i < names.len() implies r.contains(#[trigger] names[i]) by {
            if i == 0 {
                if acc.contains(names[0]) {
                    let k = choose|k: int| 0 <= k < acc.len() && acc[k] == names[0];
                    assert(r.subrange(0, acc.len() as int)[k] == r[k]);
                } else {
                    assert(r.subrange(0, next.len() as int)[acc.len() as int] == r[acc.len() as int]);
                }
            } else {
                assert(names.drop_first()[i - 1] == names[i]);
            }
        }
        assert forall|i: int| 0 <= i < r.len() implies acc.contains(#[trigger] r[i]) || names.contains(r[i]) by {
            if next.contains(r[i]) {
                if !acc.contains(r[i]) {
                    let k = choose|k: int| 0 <= k < next.len() && next[k] == r[i];
                    assert(k == acc.len() as int);
                    assert(names[0] == r[i]);
                }
            } else {
                let k = choose|k: int| 0 <= k < names.drop_first().len() && names.drop_first()[k] == r[i];
                assert(names[k + 1] == r[i]);
            }
        }
    } else {
        assert(acc.subrange(0, acc.len() as int) =~= acc);
    }
}

/// The microphone list starts with "Default", lists every device found, each
/// once, and nothing else.
pub proof fn lemma_input_devices_listed(device_names: Seq<Seq<char>>)
    ensures
        add_unique(seq!["Default"@], device_names)[0] == "Default"@,
        add_unique(seq!["Default"@], device_names).no_duplicates(),
        forall|i: int| 0 <= i < device_names.len()
            ==> add_unique(seq!["Default"@], device_names).contains(#[trigger] device_names[i]),
        forall|i: int| 0 < i < add_unique(seq!["Default"@], device_names).len()
            ==> device_names.contains(#[trigger] add_unique(seq!["Default"@], device_names)[i]),
{
    let acc = seq!["Default"@];
    lemma_add_unique(acc, device_names);
    let r = add_unique(acc, device_names);
    assert(r.subrange(0, 1)[0] == r[0]);
    assert forall|i: int| 0 < i < r.len() implies device_names.contains(#[trigger] r[i]) by {
        if acc.contains(r[i]) {
            assert(r[i] == r[0]);
            assert(r[i] == "Default"@ && r[0] == "Default"@);
        }
    }
}

/// The applications offered for system audio are never none, and each is
/// listed once.
pub proof fn lemma_audio_apps_listed(pactl_output: Option<Seq<char>>)
    ensures
        spec_audio_apps(pactl_output).len() > 0,
        spec_audio_apps(pactl_output).no_duplicates(),
{
    reveal_strlit("Discord");
    reveal_strlit("Spotify");
    reveal_strlit("Browser Stream");
    match pactl_output {
        Some(out) => lemma_add_unique(seq![], names_of_lines(spec_lines(out))),
        None => {},
    }
    let usual = seq!["Discord"@, "Spotify"@, "Browser Stream"@];
    assert(usual[0] != usual[1] && usual[0] != usual[2] && usual[1] != usual[2]) by {
        assert(usual[0][0] != usual[1][0]);
        assert(usual[0][0] != usual[2][0]);
        assert(usual[1][0] != usual[2][0]);
    }
}

/// The microphone gain is 2.5: a sample whose amplified value fits in 16
/// bits comes out as 2.5 times itself, rounded toward zero; louder samples
/// saturate at the 16-bit limit of their sign.
pub proof fn lemma_gain(s: int)
    ensures
        -13107 <= s <= 13107 ==> {
            let r = clamp_i16(half_toward_zero(5 * s));
            &&& 5 * s - 1 <= 2 * r <= 5 * s + 1
            &&& (s >= 0 ==> 2 * r <= 5 * s) && (s <= 0 ==> 2 * r >= 5 * s)
        },
        s > 13107 ==> clamp_i16(half_toward_zero(5 * s)) == 32767,
        s < -13107 ==> clamp_i16(half_toward_zero(5 * s)) == -32768,
{
}

} // verus!
