use hen_local::bridge::{BridgeState, MoxinNodeType, WidgetBinding};
use hen_local::data::SentenceUnit;
use hen_local::shell::{
    accent_theme_choice, audio_input_choice, connected_bridges, core_model_files,
    core_models_ready, input_device_choices, localized_app_name, model_component,
    overlay_status, preset_number, preview_history, sample_text, speech_backlog,
    start_failure_message, status_check_due, transcript_file_name, transcript_markdown,
    transcript_wanted, voice_preview_sample, ModelFiles, RuntimeEvent, RuntimeState,
};

#[test]
fn runtime_events_update_the_visible_state() {
    let mut state = RuntimeState::idle();
    assert_eq!(state.message, "Local AI is ready");
    assert_eq!(state.apply(RuntimeEvent::Started("flow-1".into())), (false, false));
    assert!(state.running);
    assert_eq!(state.status, "listening");
    assert_eq!(state.message, "Local translation connected · flow-1");
    assert_eq!(state.apply(RuntimeEvent::Error("boom".into())), (true, true));
    assert_eq!(state.status, "error");
    assert_eq!(state.message, "boom");
    assert_eq!(state.apply(RuntimeEvent::Stopped), (true, false));
    assert_eq!(state.status, "idle");
    assert_eq!(state.message, "Translation stopped");
}

#[test]
fn overlay_listens_once_both_bridges_connect() {
    let both = vec!["moxin-translation-listener".to_string(), "moxin-mic-input".to_string()];
    assert_eq!(overlay_status(true, &both), "listening");
    assert_eq!(overlay_status(true, &both[..1]), "warming");
    assert_eq!(overlay_status(false, &both), "idle");
}

#[test]
fn presets_parse_as_numbers_with_defaults() {
    assert_eq!(preset_number("36", 24), 36);
    assert_eq!(preset_number("+70", 50), 70);
    assert_eq!(preset_number("abc", 24), 24);
    assert_eq!(preset_number("", 50), 50);
    assert_eq!(preset_number("99999999999", 24), 24);
}

#[test]
fn only_new_sentences_are_spoken() {
    assert_eq!(speech_backlog(3, 1, 3), (1, 3));
    assert_eq!(speech_backlog(3, 3, 3), (3, 3));
    assert_eq!(speech_backlog(2, 5, 2), (0, 2));
    assert_eq!(speech_backlog(60, 10, 50), (0, 60));
}

#[test]
fn transcripts_are_markdown() {
    assert_eq!(transcript_file_name("  notes.md "), "notes.md");
    assert_eq!(transcript_file_name("   "), "transcript.md");
    let history = vec![SentenceUnit {
        source_text: "你好".into(),
        translation: "Hello".into(),
    }];
    assert_eq!(
        transcript_markdown(&history),
        "# Translation transcript\n\n**Source**\n\n你好\n\n**Translation**\n\nHello\n\n---\n\n"
    );
    assert!(transcript_wanted(true, false, 1));
    assert!(!transcript_wanted(true, true, 0));
    assert!(!transcript_wanted(false, false, 3));
}

#[test]
fn input_choice_selects_the_audio_source() {
    assert_eq!(audio_input_choice("__system_audio__"), (true, None));
    assert_eq!(audio_input_choice("__default_microphone__"), (false, None));
    assert_eq!(audio_input_choice("USB Mic"), (false, Some("USB Mic".to_string())));
}

#[test]
fn test_subtitles_follow_the_languages() {
    assert_eq!(sample_text("zh", 0), "这是一段用于调整字幕大小和布局的测试内容。");
    assert_eq!(
        sample_text("de", 1),
        "Check that every sentence is clear, readable, and suitable for the venue screen."
    );
    let history = preview_history("en", "none");
    assert_eq!(history.len(), 2);
    assert_eq!(history[0].source_text, "This sample helps you adjust subtitle size and layout.");
    assert_eq!(history[1].translation, "");
    let history = preview_history("en", "fr");
    assert_eq!(
        history[1].translation,
        "Vérifiez que chaque phrase est claire et lisible sur l’écran de la salle."
    );
    assert_eq!(
        voice_preview_sample("ja"),
        "Hen Local リアルタイム翻訳のシステム音声プレビューです。"
    );
    assert_eq!(localized_app_name("en"), "Hen Local Live Translator");
    assert_eq!(localized_app_name("zh"), "很 Local 实时翻译");
}

#[test]
fn settings_choices_and_components() {
    assert_eq!(accent_theme_choice("neon-pink"), "neon-pink");
    assert_eq!(accent_theme_choice("neon-blue"), "neon-blue");
    assert_eq!(accent_theme_choice("red"), "neon-blue");
    assert_eq!(model_component("core"), Ok("core"));
    assert_eq!(model_component("tts"), Err("Unknown model component".to_string()));
}

#[test]
fn core_models_need_every_file() {
    let all = ModelFiles {
        asr_config: true,
        translator_config: true,
        translator_tokenizer: true,
        translator_weights: false,
        translator_weights_index: true,
    };
    assert!(core_models_ready(&all));
    assert!(!core_models_ready(&ModelFiles { translator_weights_index: false, ..all }));
    assert!(!core_models_ready(&ModelFiles { asr_config: false, ..all }));
    assert_eq!(
        core_model_files("/m"),
        vec![
            "/m/qwen3-asr-1.7b/config.json".to_string(),
            "/m/Qwen3.5-2B-MLX-4bit/config.json".to_string(),
            "/m/Qwen3.5-2B-MLX-4bit/tokenizer.json".to_string(),
            "/m/Qwen3.5-2B-MLX-4bit/model.safetensors".to_string(),
            "/m/Qwen3.5-2B-MLX-4bit/model.safetensors.index.json".to_string(),
        ]
    );
}

#[test]
fn worker_reports_connected_bridges_and_checks_status_sparingly() {
    let bindings = vec![
        WidgetBinding {
            widget_id: "mic".into(),
            node_type: MoxinNodeType::MicInput,
            node_id: "moxin-mic-input".into(),
            state: BridgeState::Connected,
        },
        WidgetBinding {
            widget_id: "listener".into(),
            node_type: MoxinNodeType::TranslationListener,
            node_id: "moxin-translation-listener".into(),
            state: BridgeState::Error,
        },
    ];
    assert_eq!(connected_bridges(&bindings), vec!["moxin-mic-input".to_string()]);
    assert_eq!(
        start_failure_message("no daemon"),
        "Failed to start translation dataflow: no daemon"
    );
    assert!(!status_check_due(Some(9_999), 5_000));
    assert!(status_check_due(Some(10_000), 2_000));
    assert!(!status_check_due(None, 1_999));
    assert!(status_check_due(None, 2_000));
}

#[test]
fn input_devices_list_specials_first_then_sorted_names() {
    let devices = input_device_choices(vec![
        "Zoom Mic".to_string(),
        "__system_audio__".to_string(),
        "AirPods".to_string(),
        "Zoom Mic".to_string(),
    ]);
    assert_eq!(
        devices,
        vec![
            "__system_audio__".to_string(),
            "__default_microphone__".to_string(),
            "AirPods".to_string(),
            "Zoom Mic".to_string(),
        ]
    );
}

use hen_local::shell::{after_start_command, after_start_result, after_stop_command, after_tick, worker_idle};

#[test]
fn worker_reports_starts_stops_and_failures() {
    let idle = worker_idle();
    let (running, effects) = after_start_result(idle, Ok(("flow-7".to_string(), vec!["moxin-mic-input".to_string()])));
    assert!(running.running && running.has_dispatcher);
    assert_eq!(effects.overlay, Some((true, "warming")));
    assert!(matches!(effects.event, Some(RuntimeEvent::Started(ref id)) if id == "flow-7"));
    assert_eq!(effects.status.unwrap().active_bridges, vec!["moxin-mic-input".to_string()]);

    let (failed, effects) = after_start_result(idle, Err("no daemon".to_string()));
    assert!(!failed.running);
    assert_eq!(
        effects.status.unwrap().last_error.as_deref(),
        Some("Failed to start translation dataflow: no daemon")
    );

    let (during_grace, effects) = after_tick(running, Some(5_000), 3_000, Some(false));
    assert_eq!(during_grace, running);
    assert!(effects.event.is_none());
    let (ended, effects) = after_tick(running, Some(20_000), 3_000, Some(false));
    assert!(!ended.running);
    assert!(matches!(effects.event, Some(RuntimeEvent::Stopped)));
    let (_, effects) = after_tick(ended, Some(20_000), 3_000, Some(false));
    assert!(effects.event.is_none());

    let (stopped, effects) = after_stop_command(running);
    assert!(effects.stop_dispatcher);
    assert!(!stopped.has_dispatcher);
    assert!(matches!(effects.event, Some(RuntimeEvent::Stopped)));
}

#[test]
fn a_second_start_stops_the_dispatcher_it_still_holds() {
    let (running, _) = after_start_result(worker_idle(), Ok(("flow-1".to_string(), Vec::new())));
    let (restarting, effects) = after_start_command(running);
    assert!(effects.stop_dispatcher);
    assert!(!restarting.has_dispatcher);
    assert!(effects.event.is_none() && effects.status.is_none() && effects.overlay.is_none());

    let (fresh, effects) = after_start_command(worker_idle());
    assert!(!effects.stop_dispatcher);
    assert_eq!(fresh, worker_idle());
}

use hen_local::data::TranslationUpdate;
use hen_local::shell::{model_status_text, overlay_state, speech_settings_changed, start_preconditions};

#[test]
fn translation_starts_only_when_licensed_and_installed() {
    assert_eq!(start_preconditions(Ok(()), true), Ok(()));
    assert_eq!(
        start_preconditions(Ok(()), false),
        Err("Download the core translation models before starting live translation".to_string())
    );
    assert_eq!(start_preconditions(Err("no lease".into()), false), Err("no lease".to_string()));
    assert!(speech_settings_changed(false, true, &None, &None));
    assert!(speech_settings_changed(true, true, &Some("a".into()), &None));
    assert!(!speech_settings_changed(true, true, &Some("a".into()), &Some("a".into())));
    assert_eq!(model_status_text(true), ("Ready", "Core translation models are installed"));
    assert_eq!(model_status_text(false).0, "Models required");
}

#[test]
fn overlay_state_reads_the_shared_values() {
    let update = TranslationUpdate {
        history: vec![SentenceUnit { source_text: "a".into(), translation: "b".into() }],
        pending_source_text: "c".into(),
        completed_count: 1,
    };
    let state = overlay_state(
        true,
        &["moxin-mic-input".to_string()],
        ("zh".to_string(), "en".to_string()),
        true,
        "36",
        "oops",
        "neon-pink".to_string(),
        Some(update),
    );
    assert_eq!(state.status, "warming");
    assert_eq!(state.font_size, 36);
    assert_eq!(state.anchor_position, 50);
    assert_eq!(state.history.len(), 1);
    assert_eq!(state.pending_source_text, "c");
    let empty = overlay_state(false, &[], ("zh".to_string(), "en".to_string()), false, "", "70", String::new(), None);
    assert_eq!(empty.status, "idle");
    assert_eq!(empty.font_size, 24);
    assert_eq!(empty.anchor_position, 70);
    assert!(empty.history.is_empty());
}

use hen_local::shell::{shared_settings, toggle_subtitle_preview};

#[test]
fn preview_toggle_and_published_settings() {
    assert_eq!(
        toggle_subtitle_preview(true, false),
        Err("Stop live translation before changing the test subtitles".to_string())
    );
    assert_eq!(toggle_subtitle_preview(false, true), Ok(false));
    let shared = shared_settings("en", "zh", "en", true, false, "36", "70", "USB Mic");
    assert!(shared.window_visible && shared.locale_en);
    assert_eq!(shared.footer_font_size_preset, "12");
    assert!(!shared.system_audio);
    assert_eq!(shared.input_device.as_deref(), Some("USB Mic"));
    let shared = shared_settings("zh", "zh", "en", true, true, "24", "50", "__system_audio__");
    assert!(!shared.locale_en && shared.system_audio && shared.input_device.is_none());
}
