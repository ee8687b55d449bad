use hen_local::preferences::{
    app_file_in, join_path, preferences_dir_in, preferences_path, transcript_dir_in,
    TranslationChoices,
};

fn choices() -> TranslationChoices {
    TranslationChoices {
        app_language: "zh".into(),
        accent_theme: "neon-blue".into(),
        translation_source_language: "zh".into(),
        translation_target_language: "en".into(),
        translation_font_size_preset: "24".into(),
        translation_anchor_position_preset: "50".into(),
    }
}

#[test]
fn sanitizes_invalid_translation_values() {
    let mut preferences = TranslationChoices {
        translation_source_language: "xx".into(),
        translation_target_language: "yy".into(),
        translation_font_size_preset: "999".into(),
        translation_anchor_position_preset: "42".into(),
        accent_theme: "unknown".into(),
        ..choices()
    };
    preferences.sanitize();
    assert_eq!(preferences.translation_source_language, "zh");
    assert_eq!(preferences.translation_target_language, "en");
    assert_eq!(preferences.translation_font_size_preset, "24");
    assert_eq!(preferences.translation_anchor_position_preset, "50");
    assert_eq!(preferences.accent_theme, "neon-blue");
}

#[test]
fn preserves_supported_accent_themes() {
    for theme in ["neon-blue", "neon-orange", "neon-pink", "neon-green"] {
        let mut preferences = TranslationChoices {
            accent_theme: theme.into(),
            ..choices()
        };
        preferences.sanitize();
        assert_eq!(preferences.accent_theme, theme);
    }
}

#[test]
fn keeps_supported_choices_and_fixes_the_app_language() {
    let mut preferences = TranslationChoices {
        app_language: "fr".into(),
        translation_source_language: "ja".into(),
        translation_target_language: "none".into(),
        translation_font_size_preset: "160".into(),
        translation_anchor_position_preset: "100".into(),
        ..choices()
    };
    preferences.sanitize();
    assert_eq!(preferences.app_language, "zh");
    assert_eq!(preferences.translation_source_language, "ja");
    assert_eq!(preferences.translation_target_language, "none");
    assert_eq!(preferences.translation_font_size_preset, "160");
    assert_eq!(preferences.translation_anchor_position_preset, "100");
}

#[test]
fn paths_join_like_unix_paths() {
    assert_eq!(join_path("/a", "b"), "/a/b");
    assert_eq!(join_path("/a/", "b"), "/a/b");
    assert_eq!(join_path("", "b"), "b");
    assert_eq!(
        preferences_dir_in(Some("/home/u/.config".into())),
        "/home/u/.config/Hen Local Translator"
    );
    assert_eq!(preferences_dir_in(None), "./Hen Local Translator");
    assert_eq!(
        app_file_in(Some("/c".into()), "license_lease.json"),
        "/c/Hen Local Translator/license_lease.json"
    );
    assert_eq!(transcript_dir_in(&Some("/t".into()), Some("/c".into())), "/t");
    assert_eq!(transcript_dir_in(&None, Some("/c".into())), "/c/Hen Local Translator/transcripts");
    assert!(preferences_path().ends_with("/Hen Local Translator/app_preferences.json"));
}

#[test]
fn default_choices_are_the_fresh_install_settings() {
    let mut choices = hen_local::preferences::TranslationChoices::default();
    assert_eq!(choices.app_language, "zh");
    assert_eq!(choices.accent_theme, "neon-blue");
    assert_eq!(choices.translation_source_language, "zh");
    assert_eq!(choices.translation_target_language, "en");
    assert_eq!(choices.translation_font_size_preset, "24");
    assert_eq!(choices.translation_anchor_position_preset, "50");
    choices.sanitize();
    assert_eq!(choices.translation_target_language, "en");
    assert_eq!(choices.accent_theme, "neon-blue");
}

#[test]
fn fresh_install_options_match_the_shell_defaults() {
    let translation = hen_local::preferences::TranslationOptions::default();
    assert!(!translation.auto_save_transcript && !translation.periodic_save_transcript);
    assert_eq!(translation.transcript_file_name, "transcript.md");
    assert_eq!(translation.input_device, "__system_audio__");
    assert!(translation.overlay_fullscreen && translation.subtitle_split);
    assert!(!translation.spoken_translation_enabled);
    assert_eq!(translation.spoken_translation_voice.as_deref(), Some("vivian"));
    let studio = hen_local::preferences::StudioOptions::default();
    assert_eq!(studio.display_name, "User");
    assert_eq!(studio.history_retention_days, -1);
    assert_eq!(studio.default_voice_id.as_deref(), Some("vivian"));
    assert_eq!(studio.tts_download_format, "mp3");
    assert!(!studio.debug_logs_enabled);
}
