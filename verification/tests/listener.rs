use hen_local::bridge::BridgeState;
use hen_local::listener::{listener_lifecycle_step, ListenerEvent, RegistryAction};
use hen_local::listener::{StreamEffect, TranslationDisplayState};

#[test]
fn complete_pairing_uses_commit_id_instead_of_latest_streaming_source() {
    let mut state = TranslationDisplayState::default();

    state.handle_source_text("streaming", "旧句".to_string(), None, 50);
    state.handle_source_text("complete", "旧句".to_string(), Some(1), 50);
    state.handle_source_text("streaming", "新句，后半段".to_string(), None, 50);

    let completed =
        state.handle_translation_complete("old translation".to_string(), Some(1), None, 50);
    assert!(completed);

    assert_eq!(state.history.len(), 1);
    assert_eq!(state.history[0].source_text, "旧句");
    assert_eq!(state.history[0].translation, "old translation");
    assert_eq!(state.pending_source_text, "新句，后半段");
    assert_eq!(state.completed_count, 1);
}

#[test]
fn finalized_commit_clears_pending_only_when_pending_matches_same_source() {
    let mut state = TranslationDisplayState::default();

    state.handle_source_text("streaming", "同一句".to_string(), None, 50);
    state.handle_source_text("complete", "同一句".to_string(), Some(7), 50);

    let completed =
        state.handle_translation_complete("same translation".to_string(), Some(7), None, 50);
    assert!(completed);

    assert!(state.pending_source_text.is_empty());
    assert_eq!(state.history.len(), 1);
    assert_eq!(state.history[0].source_text, "同一句");
}

#[test]
fn translation_complete_with_embedded_source_finalizes_without_separate_source_event() {
    let mut state = TranslationDisplayState::default();

    state.handle_source_text("streaming", "新句，后半段".to_string(), None, 50);

    let completed = state.handle_translation_complete(
        "old translation".to_string(),
        Some(11),
        Some("旧句".to_string()),
        50,
    );
    assert!(completed);

    assert_eq!(state.history.len(), 1);
    assert_eq!(state.history[0].source_text, "旧句");
    assert_eq!(state.history[0].translation, "old translation");
    assert_eq!(state.pending_source_text, "新句，后半段");

    let completed_again =
        state.handle_source_text("complete", "旧句".to_string(), Some(11), 50);
    assert!(!completed_again);
    assert_eq!(state.history.len(), 1);
    assert_eq!(state.completed_count, 1);
}

#[test]
fn translating_state_separates_committed_source_from_new_asr_tail() {
    let mut state = TranslationDisplayState::default();

    state.handle_source_text(
        "streaming",
        "The first sentence. The next".to_string(),
        None,
        50,
    );
    state.handle_source_text(
        "translating",
        "The first sentence.".to_string(),
        Some(3),
        50,
    );

    assert_eq!(
        state.active_translation.as_ref().map(|active| (
            active.commit_id,
            active.source_text.as_str(),
            active.translation.as_str(),
            active.complete
        )),
        Some((3, "The first sentence.", "", false))
    );
    assert_eq!(state.pending_source_text, "The next");
}

#[test]
fn cumulative_translation_snapshots_replace_active_text() {
    let mut state = TranslationDisplayState::default();
    state.handle_source_text(
        "translating",
        "A complete sentence.".to_string(),
        Some(8),
        50,
    );

    assert!(state.handle_translation_streaming(
        "一个".to_string(),
        Some(8),
        Some("A complete sentence.".to_string())
    ));
    assert!(state.handle_translation_streaming(
        "一个完整的句子。".to_string(),
        Some(8),
        Some("A complete sentence.".to_string())
    ));

    let active = state.active_translation.expect("active translation");
    assert_eq!(active.translation, "一个完整的句子。");
    assert!(!active.complete);
}

#[test]
fn failed_translation_restores_source_for_retry() {
    let mut state = TranslationDisplayState::default();
    state.handle_source_text(
        "streaming",
        "First sentence. Next words".to_string(),
        None,
        50,
    );
    state.handle_source_text("translating", "First sentence.".to_string(), Some(9), 50);

    assert!(state.handle_translation_failed(Some(9)));
    assert!(state.active_translation.is_none());
    assert_eq!(state.pending_source_text, "First sentence. Next words");
    assert_eq!(state.current_source_text, state.pending_source_text);
}

#[test]
fn final_snapshot_marks_active_translation_complete_and_adds_history() {
    let mut state = TranslationDisplayState::default();
    state.handle_source_text(
        "translating",
        "A complete sentence.".to_string(),
        Some(12),
        50,
    );
    state.handle_translation_streaming(
        "一个完整".to_string(),
        Some(12),
        Some("A complete sentence.".to_string()),
    );

    assert!(state.handle_translation_complete(
        "一个完整的句子。".to_string(),
        Some(12),
        Some("A complete sentence.".to_string()),
        50
    ));

    let active = state
        .active_translation
        .as_ref()
        .expect("active translation");
    assert!(active.complete);
    assert_eq!(active.translation, "一个完整的句子。");
    assert_eq!(state.history.len(), 1);
    assert_eq!(state.completed_count, 1);
}

#[test]
fn translation_arriving_before_source_is_paired_later() {
    let mut state = TranslationDisplayState::default();
    assert!(!state.handle_translation_complete("bonjour".to_string(), Some(5), None, 50));
    assert!(state.history.is_empty());
    assert!(state.handle_source_text("complete", "hello".to_string(), Some(5), 50));
    assert_eq!(state.history.len(), 1);
    assert_eq!(state.history[0].source_text, "hello");
    assert_eq!(state.history[0].translation, "bonjour");
    assert!(!state.handle_translation_complete("again".to_string(), Some(5), None, 50));
    assert_eq!(state.completed_count, 1);
}

#[test]
fn history_is_capped_at_its_limit() {
    let mut state = TranslationDisplayState::default();
    for commit in 0..5 {
        state.handle_translation_complete(
            format!("t{commit}"),
            Some(commit),
            Some(format!("s{commit}")),
            3,
        );
    }
    assert_eq!(state.history.len(), 3);
    assert_eq!(state.history[0].source_text, "s2");
    assert_eq!(state.history[2].translation, "t4");
    assert_eq!(state.completed_count, 5);
    let update = state.snapshot();
    assert_eq!(update.history.len(), 3);
    assert_eq!(update.completed_count, 5);
}

#[test]
fn failure_for_another_commit_changes_nothing() {
    let mut state = TranslationDisplayState::default();
    state.handle_source_text("translating", "Hi.".to_string(), Some(1), 50);
    assert!(!state.handle_translation_failed(Some(2)));
    assert!(!state.handle_translation_failed(None));
    assert!(state.active_translation.is_some());
    assert!(state.handle_translation_failed(Some(1)));
    assert_eq!(state.pending_source_text, "Hi.");
}

#[test]
fn streaming_source_drops_sentence_under_translation() {
    let mut state = TranslationDisplayState::default();
    state.handle_source_text("translating", "One.".to_string(), Some(1), 50);
    state.handle_source_text("streaming", "One.   Two".to_string(), None, 50);
    assert_eq!(state.pending_source_text, "Two");
    assert_eq!(state.current_source_text, "Two");
    state.handle_source_text("other", "raw".to_string(), None, 50);
    assert_eq!(state.pending_source_text, "raw");
}

#[test]
fn translator_events_are_dispatched_by_input() {
    let mut display = TranslationDisplayState::default();
    assert_eq!(
        display.handle_input("source_text", "Hello there".into(), None, None, None, 50),
        (true, StreamEffect::Keep)
    );
    assert_eq!(display.pending_source_text, "Hello there");
    assert_eq!(
        display.handle_input("translation", "你好".into(), Some("streaming".into()), Some(1), Some("Hello there".into()), 50),
        (false, StreamEffect::PublishActive)
    );
    assert_eq!(
        display.handle_input("translation", "你好。".into(), None, Some(1), Some("Hello there".into()), 50),
        (true, StreamEffect::PublishActive)
    );
    assert_eq!(display.history.len(), 1);
    assert_eq!(
        display.handle_input("log", "debug".into(), None, None, None, 50),
        (false, StreamEffect::Keep)
    );
    assert_eq!(
        display.handle_input("translation", "x".into(), Some("failed".into()), Some(9), None, 50),
        (false, StreamEffect::Keep)
    );
}

#[test]
fn listener_life_cycle_registers_while_up() {
    use_lifecycle();
}

fn use_lifecycle() {
    let up = listener_lifecycle_step(BridgeState::Connecting, ListenerEvent::Initialized);
    assert_eq!(up.state, BridgeState::Connected);
    assert_eq!(up.registry, RegistryAction::Register);
    assert!(up.clear_stream && up.keep_running);
    let same = listener_lifecycle_step(BridgeState::Connected, ListenerEvent::DoraError);
    assert_eq!(same.state, BridgeState::Connected);
    assert_eq!(same.registry, RegistryAction::Nothing);
    assert!(same.keep_running && !same.clear_stream);
    let stopped = listener_lifecycle_step(BridgeState::Connected, ListenerEvent::StopRequested);
    assert_eq!(stopped.state, BridgeState::Disconnected);
    assert_eq!(stopped.registry, RegistryAction::Unregister);
    assert!(stopped.clear_stream && !stopped.keep_running);
    let failed = listener_lifecycle_step(BridgeState::Connecting, ListenerEvent::InitFailed);
    assert_eq!(failed.state, BridgeState::Error);
    assert!(!failed.keep_running);
}
