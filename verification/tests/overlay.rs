use hen_local::overlay::{
    anchor_position_percent, build_split_texts, footer_brand_text, format_history_segments,
    idle_placeholder_text, is_footer_font_size_preset, join_sentences, lang_display,
    language_pair_mode, normalized_anchor_preset, normalized_font_size_preset,
    normalized_footer_font_size_preset, HistorySegment,
};

fn pairs(items: &[(&str, &str)]) -> Vec<(String, String)> {
    items
        .iter()
        .map(|(s, t)| (s.to_string(), t.to_string()))
        .collect()
}

#[test]
fn format_history_passthrough_shows_source() {
    let items = vec![("hello".to_string(), "".to_string())];
    let segments = format_history_segments(&items, true);
    assert_eq!(segments, vec![HistorySegment::translation("hello")]);

    let items = vec![
        ("hi".to_string(), "".to_string()),
        ("world".to_string(), "".to_string()),
    ];
    let segments = format_history_segments(&items, true);
    assert_eq!(
        segments,
        vec![
            HistorySegment::translation("hi"),
            HistorySegment::translation("world"),
        ]
    );
}

#[test]
fn format_history_translation_mode_shows_source_and_translation() {
    let items = vec![("hello".to_string(), "你好".to_string())];
    let segments = format_history_segments(&items, false);
    assert_eq!(
        segments,
        vec![
            HistorySegment::source("hello"),
            HistorySegment::translation("你好")
        ]
    );

    let items = vec![
        ("hi".to_string(), "你好".to_string()),
        ("bye".to_string(), "再见".to_string()),
    ];
    let segments = format_history_segments(&items, false);
    assert_eq!(
        segments,
        vec![
            HistorySegment::source("hi"),
            HistorySegment::translation("你好"),
            HistorySegment::source("bye"),
            HistorySegment::translation("再见"),
        ]
    );
}

#[test]
fn format_history_fallback_to_source_when_translation_empty() {
    let items = vec![("hello".to_string(), "".to_string())];
    let segments = format_history_segments(&items, false);
    assert_eq!(segments, vec![HistorySegment::source("hello")]);
}

#[test]
fn anchor_position_preset_values_match_expected_ratios() {
    assert_eq!(anchor_position_percent("35") as f64 / 100.0, 0.35);
    assert_eq!(anchor_position_percent("50") as f64 / 100.0, 0.5);
    assert_eq!(anchor_position_percent("70") as f64 / 100.0, 0.7);
    assert_eq!(anchor_position_percent("100") as f64 / 100.0, 1.0);
    assert_eq!(anchor_position_percent("12"), 50);
}

#[test]
fn footer_font_size_presets_include_large_tagline_sizes() {
    for preset in ["22", "24", "26", "28", "30", "32"] {
        assert!(
            is_footer_font_size_preset(preset),
            "missing footer font size preset {preset}"
        );
    }
    assert!(!is_footer_font_size_preset("34"));
}

#[test]
fn presets_fall_back_to_their_defaults() {
    assert_eq!(normalized_font_size_preset("36"), "36");
    assert_eq!(normalized_font_size_preset("37"), "24");
    assert_eq!(normalized_footer_font_size_preset("8"), "8");
    assert_eq!(normalized_footer_font_size_preset("abc"), "10");
    assert_eq!(normalized_anchor_preset("70"), "70");
    assert_eq!(normalized_anchor_preset("71"), "50");
}

#[test]
fn sentences_are_joined_one_per_line() {
    let parts = vec![" a ".to_string(), "".to_string(), "  ".to_string(), "b".to_string()];
    assert_eq!(join_sentences(&parts), "a\nb");
    assert_eq!(join_sentences(&[]), "");
}

#[test]
fn split_view_keeps_recent_sentences_and_pending_text() {
    let history = pairs(&[("s1", "t1"), ("s2", " "), ("s3", "t3")]);
    let (translation, source) = build_split_texts(&history, "now", false);
    assert_eq!(translation, "t1\nt3");
    assert_eq!(source, "s1\ns2\ns3\nnow");
    let (primary, other) = build_split_texts(&history, "", true);
    assert_eq!(primary, "s1\ns2\ns3");
    assert_eq!(other, "");

    let many: Vec<(String, String)> = (0..20)
        .map(|i| (format!("s{i}"), format!("t{i}")))
        .collect();
    let (translation, _) = build_split_texts(&many, "", false);
    assert!(translation.starts_with("t4\n"));
    assert_eq!(translation.lines().count(), 16);
}

#[test]
fn overlay_texts_follow_the_language() {
    assert_eq!(lang_display("zh"), "中文");
    assert_eq!(lang_display("ko"), "한국어");
    assert_eq!(lang_display("xx"), "•");
    assert_eq!(
        footer_brand_text(true),
        "Hen Local Translator - Fully offline live translation, private by design"
    );
    assert_eq!(
        idle_placeholder_text("de"),
        "Local AI is ready. Subtitles and voice stay on this device."
    );
    assert_eq!(language_pair_mode("zh", "NoNe"), (true, "zh".to_string()));
    assert_eq!(language_pair_mode("zh", "en"), (false, "en".to_string()));
}

use hen_local::overlay::OverlayTracking;

#[test]
fn overlay_scrolls_on_new_text_and_shows_idle_text_when_empty() {
    let mut tracking = OverlayTracking::new();
    assert_eq!(tracking.on_status("idle"), Some(false));
    assert!(tracking.idle_placeholder_visible);
    assert!(tracking.pending_scroll);

    tracking.pending_scroll = false;
    tracking.on_translation_update(0, "  hello ");
    assert!(!tracking.idle_placeholder_visible);
    assert!(tracking.pending_only_mode);
    assert!(tracking.pending_scroll);
    assert_eq!(tracking.last_pending_text, "hello");

    tracking.pending_scroll = false;
    tracking.on_translation_update(1, "hello");
    assert!(!tracking.pending_only_mode);
    assert!(tracking.pending_scroll);
    tracking.pending_scroll = false;
    tracking.on_translation_update(1, "hello");
    assert!(!tracking.pending_scroll);

    assert_eq!(tracking.on_status("listening"), Some(true));
    assert_eq!(tracking.on_status("listening"), None);
    assert!(tracking.has_runtime_content());
    tracking.clear();
    assert!(!tracking.has_runtime_content());
    tracking.on_split_view(true);
    assert!(tracking.split_mode);
    assert!(tracking.idle_placeholder_visible);
}

use hen_local::overlay::split_chips;

#[test]
fn split_chips_follow_the_language_pair() {
    assert_eq!(split_chips(false, "zh", "en"), ("EN", "中文", true));
    assert_eq!(split_chips(true, "ja", "none"), ("日本語", "日本語", false));
}
