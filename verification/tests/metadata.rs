use hen_local::data::EventMetadata;
use hen_local::speech::{available_voices, installed_voices};

#[test]
fn metadata_reads_back_what_was_stored() {
    let mut metadata = EventMetadata::new();
    assert_eq!(metadata.get("session_status"), None);
    metadata.insert("session_status".into(), "started".into());
    metadata.insert("question_id".into(), "q1".into());
    metadata.insert("session_status".into(), "ended".into());
    assert_eq!(metadata.session_status(), Some("ended"));
    assert_eq!(metadata.question_id(), Some("q1"));
    assert_eq!(metadata.participant_id(), None);
    assert_eq!(metadata.values.len(), 2);
}

#[test]
fn voices_are_read_from_the_listing() {
    let listing = "Alex                en_US    # Most people recognize me by my voice.\nnot a voice line\nEddy (Chinese (China mainland)) zh_CN # hello\n";
    let voices = available_voices(listing);
    assert_eq!(voices.len(), 2);
    assert_eq!(voices[0].name, "Alex");
    assert_eq!(voices[0].sample, "Most people recognize me by my voice.");
    assert_eq!(voices[1].name, "Eddy (Chinese (China mainland))");
    assert_eq!(
        installed_voices(listing),
        vec![
            ("Alex".to_string(), "en_US".to_string()),
            ("Eddy (Chinese (China mainland))".to_string(), "zh_CN".to_string()),
        ]
    );
}
