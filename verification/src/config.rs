//! The recorder's settings and their defaults.

use vstd::prelude::*;
use crate::text::owned;

verus! {

/// The recorder's settings.
#[derive(Debug, Clone)]
pub struct AppConfig {
    /// "image" or "video".
    pub primary_mode: String,
    pub language: String,
    pub hw_encoder_override: String,
    pub save_directory: String,
    pub default_fps: u32,
    pub crf_quality: u8,
    pub watermark_text: String,
    pub watermark_logo_path: Option<String>,
    /// "BottomRight", "BottomLeft", "TopRight" or "TopLeft".
    pub watermark_position: String,
    pub auto_watermark: bool,
    pub cinematic_zoom: bool,
    pub paddle_checkout_url: String,
    pub hotkey_toggle_record: String,
    pub hotkey_snapshot: String,
    pub hotkey_region_select: String,
    pub hotkey_cancel: String,
}

/// The default settings, saving into `save_directory`.
pub open spec fn is_default_config(c: AppConfig, save_directory: Seq<char>) -> bool {
    &&& c.primary_mode@ == "image"@
    &&& c.language@ == "en"@
    &&& c.hw_encoder_override@ == "Auto"@
    &&& c.save_directory@ == save_directory
    &&& c.default_fps == 30
    &&& c.crf_quality == 23
    &&& c.watermark_text@ == "WOLFITWAY"@
    &&& c.watermark_logo_path is None
    &&& c.watermark_position@ == "BottomRight"@
    &&& c.auto_watermark
    &&& c.cinematic_zoom
    &&& c.paddle_checkout_url@ == "https://buy.paddle.com/placeholder-wolfitway"@
    &&& c.hotkey_toggle_record@ == "Super+Shift+R"@
    &&& c.hotkey_snapshot@ == "Super+Shift+S"@
    &&& c.hotkey_region_select@ == "Super+Shift+X"@
    &&& c.hotkey_cancel@ == "Escape"@
}

impl AppConfig {
    /// The default settings, with recordings saved into `save_directory`.
    pub fn defaults(save_directory: &str) -> (c: AppConfig)
        ensures
            is_default_config(c, save_directory@),
    {
        AppConfig {
            primary_mode: owned("image"),
            language: owned("en"),
            hw_encoder_override: owned("Auto"),
            save_directory: owned(save_directory),
            default_fps: 30,
            crf_quality: 23,
            watermark_text: owned("WOLFITWAY"),
            watermark_logo_path: None,
            watermark_position: owned("BottomRight"),
            auto_watermark: true,
            cinematic_zoom: true,
            paddle_checkout_url: owned("https://buy.paddle.com/placeholder-wolfitway"),
            hotkey_toggle_record: owned("Super+Shift+R"),
            hotkey_snapshot: owned("Super+Shift+S"),
            hotkey_region_select: owned("Super+Shift+X"),
            hotkey_cancel: owned("Escape"),
        }
    }
}

} // verus!
