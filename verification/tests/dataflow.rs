use hen_local::dataflow::{
    absolutize_dataflow_paths, relative_path_values, render_dataflow_text, strip_optional_tts,
    RenderOptions,
};

#[test]
fn removes_optional_tts_block_without_touching_translation_nodes() {
    let content = "before\n# TTS-BEGIN\ntts\n# TTS-END\nafter\n";
    assert_eq!(strip_optional_tts(content), "before\nafter\n");
}

#[test]
fn strip_adds_a_final_newline_and_keeps_lines_outside_blocks() {
    assert_eq!(strip_optional_tts("a\r\nb"), "a\nb\n");
    assert_eq!(
        strip_optional_tts("x\n  # TTS-BEGIN\n  y\n  # TTS-END\nz"),
        "x\nz\n"
    );
    assert_eq!(strip_optional_tts(""), "");
}

#[test]
fn relative_paths_are_listed_in_order() {
    let content = "nodes:\n    path: ./bin/asr\n    path: \"../x/y\"\n    path: dynamic\n    path: /abs/z\n    path: plain\n  - path: ./list/item\n";
    assert_eq!(relative_path_values(content), vec!["./bin/asr".to_string(), "../x/y".to_string()]);
}

#[test]
fn resolved_paths_replace_relative_ones_and_keep_quotes() {
    let content = "    path: ./bin/asr\n    path: \"../x/y\"\n    path: ./missing/node";
    let resolved = vec![
        ("./bin/asr".to_string(), "/opt/flow/bin/asr".to_string()),
        ("../x/y".to_string(), "/opt/x/y".to_string()),
    ];
    assert_eq!(
        absolutize_dataflow_paths(content, &resolved),
        "    path: /opt/flow/bin/asr\n    path: \"/opt/x/y\"\n    path: ./missing/node"
    );
}

#[test]
fn renders_placeholders_for_system_audio_without_speech() {
    let template = "src=__TRANSLATION_SRC_LANG__ tgt=__TRANSLATION_TGT_LANG__ p=__TRANSLATOR_PASSTHROUGH__\n\
asr=__ASR_BIN_PATH__ tr=__TRANSLATOR_BIN_PATH__\n\
vad=__SPEECH_START_FRAMES__,__SPEECH_END_FRAMES__,__SPEECH_END_MS__,__QUESTION_END_SILENCE_MS__,__MIN_SEGMENT_MS__,__MAX_SEGMENT_MS__\n\
rms=__START_RMS_THRESHOLD__/__END_RMS_THRESHOLD__\n\
# TTS-BEGIN\n\
tts=__TTS_BIN_PATH__ voice=__SPOKEN_VOICE__\n\
# TTS-END\n";
    let options = RenderOptions {
        source_language: "zh",
        target_language: "none",
        system_audio: true,
        spoken_translation: false,
        spoken_voice: "ryan",
    };
    let rendered = render_dataflow_text(template, &options, "/bin/asr", "/bin/tr", None);
    assert_eq!(
        rendered,
        "src=zh tgt=none p=1\nasr=/bin/asr tr=/bin/tr\nvad=5,10,420,1200,420,8000\nrms=0.0054/0.0030\n"
    );
}

#[test]
fn renders_speech_block_when_a_speech_node_is_available() {
    let template = "rms=__START_RMS_THRESHOLD__/__END_RMS_THRESHOLD__\n# TTS-BEGIN\ntts=__TTS_BIN_PATH__ voice=__SPOKEN_VOICE__\n# TTS-END\n";
    let options = RenderOptions {
        source_language: "en",
        target_language: "zh",
        system_audio: false,
        spoken_translation: true,
        spoken_voice: "ryan",
    };
    let rendered = render_dataflow_text(template, &options, "a", "b", Some("/bin/tts"));
    assert_eq!(
        rendered,
        "rms=0.0150/0.0090\n# TTS-BEGIN\ntts=/bin/tts voice=ryan\n# TTS-END\n"
    );
}

use hen_local::dataflow::{binary_candidates, first_present, template_candidates, tts_model_config_path};

#[test]
fn binaries_are_looked_for_in_order() {
    let candidates = binary_candidates(
        "dora-qwen3-asr",
        Some("/bin-dir"),
        &["/t1".to_string()],
        Some("/app"),
    );
    assert_eq!(
        candidates,
        vec![
            "/bin-dir/dora-qwen3-asr".to_string(),
            "/t1/debug/dora-qwen3-asr".to_string(),
            "/t1/release/dora-qwen3-asr".to_string(),
            "/t1/dora-qwen3-asr".to_string(),
            "/app/dora-qwen3-asr".to_string(),
            "target/debug/dora-qwen3-asr".to_string(),
            "target/release/dora-qwen3-asr".to_string(),
        ]
    );
    assert_eq!(binary_candidates("x", None, &[], None).len(), 2);
}

#[test]
fn templates_are_looked_for_in_order() {
    let candidates = template_candidates("/crate", Some("/res"), None, Some("/home/u"));
    assert_eq!(
        candidates,
        vec![
            "/crate/dataflow/translation_qwen35.yml".to_string(),
            "/res/translation_qwen35.yml".to_string(),
            "/res/dataflow/translation_qwen35.yml".to_string(),
            "/res/_up_/hen-local-translator-shell/dataflow/translation_qwen35.yml".to_string(),
            "hen-local-translator-shell/dataflow/translation_qwen35.yml".to_string(),
            "/home/u/.OminiX/dataflows/translation_qwen35.yml".to_string(),
        ]
    );
    assert_eq!(first_present(&[false, true, true]), Some(1));
    assert_eq!(first_present(&[false]), None);
}

#[test]
fn speech_models_are_found_by_their_config() {
    assert_eq!(tts_model_config_path(Some("/m"), Some("/h")).as_deref(), Some("/m/config.json"));
    assert_eq!(
        tts_model_config_path(None, Some("/h")).as_deref(),
        Some("/h/.OminiX/models/qwen3-tts-mlx/Qwen3-TTS-12Hz-1.7B-CustomVoice-8bit/config.json")
    );
    assert_eq!(tts_model_config_path(None, None), None);
}

#[test]
fn stripping_the_speech_block_twice_changes_nothing_more() {
    let content = "nodes:\n  # TTS-BEGIN\n  - id: tts\n  # TTS-END\n  - id: asr\r\nend";
    let once = strip_optional_tts(content);
    assert_eq!(once, "nodes:\n  - id: asr\nend\n");
    assert_eq!(strip_optional_tts(&once), once);
}

#[test]
fn text_without_markers_comes_back_unchanged() {
    let plain = "nodes:\n  - id: asr\n    path: dora-asr\n";
    assert_eq!(strip_optional_tts(plain), plain);
    assert_eq!(strip_optional_tts("\n\n"), "\n\n");
}

#[test]
fn resolves_translation_template_independent_of_working_directory() {
    let crate_dir = "/opt/hen-local/hen-local-translator-shell";
    let candidates = template_candidates(crate_dir, None, None, None);
    let present: Vec<bool> = candidates
        .iter()
        .map(|path| path == "/opt/hen-local/hen-local-translator-shell/dataflow/translation_qwen35.yml")
        .collect();
    let chosen = &candidates[first_present(&present).expect("translation template should resolve")];
    assert!(chosen.starts_with(crate_dir));
    assert!(chosen.ends_with("/translation_qwen35.yml"));
    assert_eq!(chosen.rsplit('/').next(), Some("translation_qwen35.yml"));
}
