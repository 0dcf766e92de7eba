//! What the main window shows: the interface language toggle and the
//! status messages in English and Romanian.

use vstd::prelude::*;
use crate::hardware::{HwEncoder, spec_display_name, spec_tag};
use crate::text::{owned, push_str, str_eq};

verus! {

/// The language the toggle switches to: Romanian from English, English
/// from anything else.
pub open spec fn spec_toggle_language(current: Seq<char>) -> Seq<char> {
    if current == "en"@ { "ro"@ } else { "en"@ }
}

/// The interface language after the language toggle.
pub fn toggle_language(current: &str) -> (next: &'static str)
    ensures
        next@ == spec_toggle_language(current@),
{
    if str_eq(current, "en") { "ro" } else { "en" }
}

/// Toggling twice from English or Romanian comes back to it.
pub proof fn lemma_toggle_twice(current: Seq<char>)
    requires
        current == "en"@ || current == "ro"@,
    ensures
        spec_toggle_language(spec_toggle_language(current)) == current,
{
    reveal_strlit("en");
    reveal_strlit("ro");
}

/// The status shown once the encoder is known.
pub fn ready_message(encoder: HwEncoder) -> (m: String)
    ensures
        m@ == "Ready ("@ + spec_display_name(encoder) + ")"@,
{
    let mut m = owned("Ready (");
    push_str(&mut m, encoder.display_name());
    push_str(&mut m, ")");
    m
}

/// The status shown while recording, with the encoder's badge.
pub fn recording_message(lang: &str, encoder: HwEncoder) -> (m: String)
    ensures
        m@ == (if lang@ == "ro"@ { "ÎNREGISTRARE ACTIVĂ "@ } else { "RECORDING ACTIVE "@ }) + spec_tag(encoder),
{
    let mut m = if str_eq(lang, "ro") { owned("ÎNREGISTRARE ACTIVĂ ") } else { owned("RECORDING ACTIVE ") };
    push_str(&mut m, encoder.tag());
    m
}

/// The status shown while the recording is being finalised.
pub fn finalizing_message(lang: &str) -> (m: &'static str)
    ensures
        m@ == if lang@ == "ro"@ { "Finalizare procesare..."@ } else { "Muxing & finalizing..."@ },
{
    if str_eq(lang, "ro") { "Finalizare procesare..." } else { "Muxing & finalizing..." }
}

/// The status shown once a snapshot is saved.
pub fn snapshot_saved_message(lang: &str) -> (m: &'static str)
    ensures
        m@ == if lang@ == "ro"@ { "Instantaneu salvat!"@ } else { "Snapshot saved!"@ },
{
    if str_eq(lang, "ro") { "Instantaneu salvat!" } else { "Snapshot saved!" }
}

/// The status shown once a recording is exported.
pub fn export_complete_message(lang: &str) -> (m: &'static str)
    ensures
        m@ == if lang@ == "ro"@ { "Export finalizat cu succes!"@ } else { "Export complete!"@ },
{
    if str_eq(lang, "ro") { "Export finalizat cu succes!" } else { "Export complete!" }
}

/// The watermark a snapshot gets: the brand when watermarking is on.
pub fn snapshot_watermark(enabled: bool) -> (w: Option<&'static str>)
    ensures
        match w {
            Some(t) => enabled && t@ == "WOLFITWAY"@,
            None => !enabled,
        },
{
    if enabled { Some("WOLFITWAY") } else { None }
}

} // verus!
