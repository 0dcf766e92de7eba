use wolf_screen_recorder::hardware::HwEncoder;
use wolf_screen_recorder::status::{
    export_complete_message, finalizing_message, ready_message, recording_message, snapshot_saved_message,
    snapshot_watermark, toggle_language,
};
use wolf_screen_recorder::text::{
    chars_of, contains_text, extend_strings, find_chars, i64_to_text, is_white_space_char, matches_at, owned,
    push_str, stamped_name, str_eq, string_from_chars, trim_chars, u64_to_text,
};

#[test]
fn decimal_text() {
    assert_eq!(u64_to_text(0), "0");
    assert_eq!(u64_to_text(907), "907");
    assert_eq!(u64_to_text(u64::MAX), u64::MAX.to_string());
    assert_eq!(i64_to_text(-42), "-42");
    assert_eq!(i64_to_text(i64::MIN), i64::MIN.to_string());
    assert_eq!(i64_to_text(i64::MAX), i64::MAX.to_string());
}

#[test]
fn string_building() {
    let mut s = owned("ab");
    push_str(&mut s, "cé");
    assert_eq!(s, "abcé");
    assert_eq!(chars_of("héllo"), vec!['h', 'é', 'l', 'l', 'o']);
    assert_eq!(string_from_chars(&['x', 'ÿ']), "xÿ");
    assert_eq!(stamped_name("a_", -7, ".b"), "a_-7.b");
    let mut v = vec!["1".to_string()];
    extend_strings(&mut v, &vec!["2".to_string(), "3".to_string()]);
    assert_eq!(v, vec!["1", "2", "3"]);
}

#[test]
fn searching_text() {
    assert!(str_eq("abc", "abc"));
    assert!(!str_eq("abc", "abd"));
    let h = chars_of("xx/dev/video3");
    let n = chars_of("/dev/video");
    assert_eq!(find_chars(&h, &n), Some(2));
    assert!(matches_at(&h, &n, 2));
    assert!(!matches_at(&h, &n, 1));
    assert!(!matches_at(&h, &n, 10));
    assert_eq!(find_chars(&n, &h), None);
    assert!(contains_text("abc h264_nvenc def", "h264_nvenc"));
    assert!(!contains_text("h264_nven", "h264_nvenc"));
    assert!(contains_text("anything", ""));
}

#[test]
fn white_space_matches_std() {
    for u in 0u32..0x3100 {
        if let Some(c) = char::from_u32(u) {
            assert_eq!(is_white_space_char(c), c.is_whitespace(), "U+{:04X}", u);
        }
    }
}

#[test]
fn trimming() {
    assert_eq!(trim_chars(&chars_of("  \t a b \n"), false), chars_of("a b"));
    assert_eq!(trim_chars(&chars_of("\"\"Firefox\""), true), chars_of("Firefox"));
    assert_eq!(trim_chars(&chars_of("   "), false), Vec::<char>::new());
    assert_eq!(trim_chars(&chars_of(" \"x\" "), true), chars_of(" \"x\" "));
}

#[test]
fn language_toggle() {
    assert_eq!(toggle_language("en"), "ro");
    assert_eq!(toggle_language("ro"), "en");
    assert_eq!(toggle_language("de"), "en");
    assert_eq!(toggle_language(toggle_language("en")), "en");
}

#[test]
fn status_messages() {
    assert_eq!(ready_message(HwEncoder::Nvenc), "Ready (NVIDIA NVENC)");
    assert_eq!(recording_message("en", HwEncoder::Libx264), "RECORDING ACTIVE [SW x264]");
    assert_eq!(recording_message("ro", HwEncoder::Vaapi), "ÎNREGISTRARE ACTIVĂ [VA-API]");
    assert_eq!(finalizing_message("en"), "Muxing & finalizing...");
    assert_eq!(finalizing_message("ro"), "Finalizare procesare...");
    assert_eq!(snapshot_saved_message("fr"), "Snapshot saved!");
    assert_eq!(snapshot_saved_message("ro"), "Instantaneu salvat!");
    assert_eq!(export_complete_message("en"), "Export complete!");
    assert_eq!(export_complete_message("ro"), "Export finalizat cu succes!");
    assert_eq!(snapshot_watermark(true), Some("WOLFITWAY"));
    assert_eq!(snapshot_watermark(false), None);
}
