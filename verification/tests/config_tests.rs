use wolf_screen_recorder::config::AppConfig;

#[test]
fn default_settings() {
    let c = AppConfig::defaults("/home/u/Videos/WolfRecordings");
    assert_eq!(c.primary_mode, "image");
    assert_eq!(c.language, "en");
    assert_eq!(c.hw_encoder_override, "Auto");
    assert_eq!(c.save_directory, "/home/u/Videos/WolfRecordings");
    assert_eq!(c.default_fps, 30);
    assert_eq!(c.crf_quality, 23);
    assert_eq!(c.watermark_text, "WOLFITWAY");
    assert_eq!(c.watermark_logo_path, None);
    assert_eq!(c.watermark_position, "BottomRight");
    assert!(c.auto_watermark);
    assert!(c.cinematic_zoom);
    assert_eq!(c.paddle_checkout_url, "https://buy.paddle.com/placeholder-wolfitway");
    assert_eq!(c.hotkey_toggle_record, "Super+Shift+R");
    assert_eq!(c.hotkey_snapshot, "Super+Shift+S");
    assert_eq!(c.hotkey_region_select, "Super+Shift+X");
    assert_eq!(c.hotkey_cancel, "Escape");
}
