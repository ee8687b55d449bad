use hen_local::speech::{
    ensure_voice_available, output_device_names, parse_output_device_line, parse_voice_line,
    preferred_voice, select_voice, voice_index, normalize_voice_id, audition_text, is_locale,
    parse_system_voice_line, available_output_device_id, configure_command, speak_command,
    SpeechSession, SpeechCommand, SpeechAction, task_is_current,
};

#[test]
fn parses_multiword_apple_voice_names() {
    assert_eq!(
        parse_voice_line("Eddy (Chinese (China mainland)) zh_CN # hello"),
        Some(("Eddy (Chinese (China mainland))".into(), "zh_CN".into()))
    );
}

#[test]
fn never_falls_back_to_an_unselected_voice() {
    let installed = vec![("Fallback".into(), "fr_FR".into())];
    assert_eq!(select_voice(&installed, "fr", "apple-voice-2"), None);
}

#[test]
fn parses_three_digit_regions() {
    assert_eq!(
        parse_voice_line("Majed ar_001 # hello"),
        Some(("Majed".into(), "ar_001".into()))
    );
}

#[test]
fn parses_say_output_devices() {
    assert_eq!(
        parse_output_device_line("  94 MacBook Pro Speakers"),
        Some(("94".into(), "MacBook Pro Speakers".into()))
    );
    assert_eq!(parse_output_device_line("not a device"), None);
}

#[test]
fn maps_english_choices_to_siri_live_speech_voices() {
    assert_eq!(preferred_voice("en", 0), Some(("Voice 1", "en_US")));
    assert_eq!(preferred_voice("en", 4), Some(("Voice 5", "en_US")));
}

#[test]
fn maps_first_chinese_choice_to_yue_premium() {
    assert_eq!(preferred_voice("zh", 0), Some(("Yue (Premium)", "zh_CN")));
    assert_eq!(preferred_voice("zh", 1), Some(("Tingting", "zh_CN")));
    assert_eq!(preferred_voice("zh", 2), None);
}

#[test]
fn rejects_same_named_voice_from_wrong_locale() {
    let installed = vec![
        ("Voice 4".into(), "fr_FR".into()),
        ("Voice 4".into(), "en_GB".into()),
    ];
    assert_eq!(
        select_voice(&installed, "en", "apple-voice-4"),
        None,
        "Voice 4 must be the US English variant"
    );
}

#[test]
fn has_no_unapproved_japanese_or_french_voice() {
    assert_eq!(preferred_voice("ja", 0), None);
    assert_eq!(preferred_voice("fr", 0), None);
}

#[test]
fn selects_installed_approved_voice() {
    let installed = vec![
        ("Voice 4".into(), "en_GB".into()),
        ("Voice 4".into(), "en_US".into()),
        ("Tingting".into(), "zh_CN".into()),
    ];
    assert_eq!(select_voice(&installed, "en", "apple-voice-4"), Some("Voice 4".to_string()));
    assert_eq!(select_voice(&installed, "zh", "apple-voice-2"), Some("Tingting".to_string()));
    assert_eq!(select_voice(&installed, "zh", "apple-voice-1"), None);
}

#[test]
fn voice_index_reads_number_and_clamps() {
    assert_eq!(voice_index("apple-voice-1"), 0);
    assert_eq!(voice_index("apple-voice-3"), 2);
    assert_eq!(voice_index("apple-voice-+2"), 1);
    assert_eq!(voice_index("apple-voice-9"), 4);
    assert_eq!(voice_index("apple-voice-0"), 0);
    assert_eq!(voice_index("apple-voice-x"), 0);
    assert_eq!(voice_index("apple-voice-99999999999999999999999"), 0);
    assert_eq!(voice_index("ryan"), 0);
}

#[test]
fn normalizes_unknown_voice_ids() {
    assert_eq!(normalize_voice_id("apple-voice-3"), "apple-voice-3");
    assert_eq!(normalize_voice_id("apple-voice-6"), "apple-voice-1");
    assert_eq!(normalize_voice_id("vivian"), "apple-voice-1");
}

#[test]
fn audition_text_follows_locale_language() {
    assert!(audition_text("zh_CN").starts_with("你好"));
    assert!(audition_text("ja_JP").starts_with("こんにちは"));
    assert!(audition_text("fr_FR").starts_with("Bonjour"));
    assert!(audition_text("en_US").starts_with("Hello"));
    assert!(audition_text("zh").starts_with("Hello"));
}

#[test]
fn locale_tags_need_short_letters_and_region() {
    assert!(is_locale("en_US"));
    assert!(is_locale("yue_HK"));
    assert!(is_locale("ar_001"));
    assert!(!is_locale("e_US"));
    assert!(!is_locale("engl_US"));
    assert!(!is_locale("en_"));
    assert!(!is_locale("en-US"));
    assert!(!is_locale("e1_US"));
}

#[test]
fn voice_line_without_name_or_locale_is_rejected() {
    assert_eq!(parse_voice_line("zh_CN # hello"), None);
    assert_eq!(parse_voice_line("Just A Name # hello"), None);
    let voice = parse_system_voice_line("Alex   en_US    #   Most people recognize me.  ").unwrap();
    assert_eq!(voice.name, "Alex");
    assert_eq!(voice.locale, "en_US");
    assert_eq!(voice.sample, "Most people recognize me.");
}

#[test]
fn output_device_names_are_sorted_and_unique() {
    let listing = "  94 MacBook Pro Speakers\n 12 External Headphones\r\nnot a device\n94 MacBook Pro Speakers\n7 AirPods";
    assert_eq!(
        output_device_names(listing),
        vec!["AirPods".to_string(), "External Headphones".to_string(), "MacBook Pro Speakers".to_string()]
    );
    assert!(output_device_names("").is_empty());
}

#[test]
fn output_device_id_uses_first_matching_name() {
    let devices = vec![
        ("3".to_string(), "Speakers".to_string()),
        ("4".to_string(), "Speakers".to_string()),
    ];
    assert_eq!(available_output_device_id(&devices, Some(" Speakers ")), Some("3".to_string()));
    assert_eq!(available_output_device_id(&devices, Some("Headphones")), None);
    assert_eq!(available_output_device_id(&devices, Some("  ")), None);
    assert_eq!(available_output_device_id(&devices, None), None);
}

#[test]
fn missing_voice_reports_what_to_install() {
    let installed: Vec<(String, String)> = Vec::new();
    assert_eq!(
        ensure_voice_available(&installed, "en", "apple-voice-2"),
        Err("Selected Apple voice is not installed: Voice 2 (en_US). Download it in macOS Accessibility settings before enabling spoken translation.".to_string())
    );
    assert_eq!(
        ensure_voice_available(&installed, "ja", "apple-voice-1"),
        Err("Spoken translation is not available for ja".to_string())
    );
    let installed = vec![("Voice 1".to_string(), "en_US".to_string())];
    assert_eq!(ensure_voice_available(&installed, "en", "unknown"), Ok(()));
}

#[test]
fn speech_session_drops_speech_after_stop_and_retires_generations() {
    let installed = vec![("Voice 2".to_string(), "en_US".to_string())];
    let mut session = SpeechSession::new();
    assert!(matches!(session.handle(SpeechCommand::Speak("hi".into()), &installed), SpeechAction::Nothing));
    let generation = session.generation;
    let action = session.handle(configure_command(true, "en", "apple-voice-2", Some("Speakers")), &installed);
    assert!(matches!(action, SpeechAction::Nothing));
    assert_eq!(session.generation, generation + 1);
    match session.handle(SpeechCommand::Speak("hello".into()), &installed) {
        SpeechAction::Synthesize(task) => {
            assert_eq!(task.voice, "Voice 2");
            assert_eq!(task.text, "hello");
            assert_eq!(task.output_device.as_deref(), Some("Speakers"));
            assert!(task_is_current(task.generation, session.generation));
            session.handle(SpeechCommand::Stop, &installed);
            assert!(!task_is_current(task.generation, session.generation));
        }
        _ => panic!("expected synthesis"),
    }
    assert!(matches!(session.handle(SpeechCommand::Speak("again".into()), &installed), SpeechAction::Nothing));
    assert!(matches!(session.handle(SpeechCommand::Shutdown, &installed), SpeechAction::Shutdown));
}

#[test]
fn blank_text_is_not_sent_for_speech() {
    assert!(speak_command("  \n\t".to_string()).is_none());
    assert!(matches!(speak_command(" hi ".to_string()), Some(SpeechCommand::Speak(t)) if t == " hi "));
    match configure_command(true, "zh", "nope", None) {
        SpeechCommand::Configure { enabled, language, voice, output_device } => {
            assert!(enabled);
            assert_eq!(language, "zh");
            assert_eq!(voice, "apple-voice-1");
            assert_eq!(output_device, None);
        }
        _ => panic!("expected configure"),
    }
}
