use hen_local::protocol::TtsRequest;

#[test]
fn parses_preset_voice_requests() {
    match TtsRequest::parse("  VOICE:vivian|你好|world  ") {
        Some(TtsRequest::Preset { voice, text }) => {
            assert_eq!(voice, "vivian");
            assert_eq!(text, "你好|world");
        }
        other => panic!("unexpected {other:?}"),
    }
}

#[test]
fn parses_custom_clone_requests() {
    match TtsRequest::parse("VOICE:CUSTOM|/tmp/ref.wav|prompt|english|Hello | there") {
        Some(TtsRequest::Custom { ref_wav, prompt_text, language, text }) => {
            assert_eq!(ref_wav, "/tmp/ref.wav");
            assert_eq!(prompt_text, "prompt");
            assert_eq!(language, "english");
            assert_eq!(text, "Hello | there");
        }
        other => panic!("unexpected {other:?}"),
    }
}

#[test]
fn rejects_malformed_requests() {
    assert!(TtsRequest::parse("hello").is_none());
    assert!(TtsRequest::parse("VOICE:vivian").is_none());
    assert!(TtsRequest::parse("VOICE:CUSTOM|a|b|c").is_none());
    assert!(TtsRequest::parse("voice:vivian|hi").is_none());
}

#[test]
fn parsed_requests_print_back_to_the_trimmed_message() {
    let message = "  VOICE:vivian|hello | world \n";
    match TtsRequest::parse(message) {
        Some(TtsRequest::Preset { voice, text }) => {
            assert_eq!(format!("VOICE:{voice}|{text}"), message.trim());
        }
        other => panic!("unexpected {other:?}"),
    }
    let message = "VOICE:CUSTOM|ref.wav|hi|en|a|b";
    match TtsRequest::parse(message) {
        Some(TtsRequest::Custom { ref_wav, prompt_text, language, text }) => {
            assert_eq!(text, "a|b");
            assert_eq!(format!("VOICE:CUSTOM|{ref_wav}|{prompt_text}|{language}|{text}"), message);
        }
        other => panic!("unexpected {other:?}"),
    }
    assert!(TtsRequest::parse("VOICE:CUSTOM|only|three").is_none());
}
