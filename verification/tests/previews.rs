use hen_local::previews::{
    dir_or_under_root, qwen_root, resolve_voice_dir, voice_dir_candidates, voice_is_selected,
};

#[test]
fn every_voice_is_selected_without_a_list() {
    assert!(voice_is_selected(None, "vivian"));
}

#[test]
fn listed_voices_match_ignoring_case_and_spaces() {
    assert!(voice_is_selected(Some("ryan, Vivian ,aiden"), "vivian"));
    assert!(voice_is_selected(Some("RYAN"), "ryan"));
    assert!(!voice_is_selected(Some("ryan,aiden"), "vivian"));
    assert!(!voice_is_selected(Some(""), "vivian"));
    assert!(voice_is_selected(Some(",,maple"), "maple"));
}

#[test]
fn roots_and_directories_resolve_in_order() {
    assert_eq!(qwen_root(Some("/models"), Some("/home/u")), "/models");
    assert_eq!(qwen_root(None, Some("/home/u")), "/home/u/.OminiX/models/qwen3-tts-mlx");
    assert_eq!(qwen_root(None, None), "./.OminiX/models/qwen3-tts-mlx");
    assert_eq!(dir_or_under_root(None, "/r", "previews"), "/r/previews");
    assert_eq!(dir_or_under_root(Some("/out"), "/r", "previews"), "/out");
}

#[test]
fn voice_directory_prefers_the_cache() {
    let candidates = voice_dir_candidates("maple", "/r", "/node");
    assert_eq!(candidates.0, "/r/voices/maple");
    assert_eq!(candidates.1, "/node/voices/maple");
    assert_eq!(resolve_voice_dir("maple", &candidates, (true, true)), Ok("/r/voices/maple".to_string()));
    assert_eq!(resolve_voice_dir("maple", &candidates, (false, true)), Ok("/node/voices/maple".to_string()));
    assert_eq!(
        resolve_voice_dir("maple", &candidates, (false, false)),
        Err("reference voice is not installed: maple".to_string())
    );
}
