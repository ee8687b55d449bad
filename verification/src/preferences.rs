//! Where the app keeps its files, and the translation choices it accepts.

use vstd::prelude::*;

use crate::text::{concat, str_eq};

verus! {

/// `Path::join` of a relative path on Unix: the base, a `/` unless the base
/// is empty or already ends with one, then the relative path.
pub open spec fn path_join(base: Seq<char>, rel: Seq<char>) -> Seq<char> {
    if base.len() == 0 {
        rel
    } else if base.last() == '/' {
        base + rel
    } else {
        base + seq!['/'] + rel
    }
}

/// Joins a relative path onto a base.
pub fn join_path(base: &str, rel: &str) -> (out: String)
    ensures
        out@ == path_join(base@, rel@),
{
    let v = crate::text::chars_of(base);
    if v.len() == 0 {
        rel.to_string()
    } else if v[v.len() - 1] == '/' {
        concat(base, rel)
    } else {
        let with_sep = concat(base, "/");
        proof {
            reveal_strlit("/");
        }
        let out = concat(with_sep.as_str(), rel);
        assert(out@ =~= base@ + seq!['/'] + rel@);
        out
    }
}

/// `dirs::config_dir`, as text. The answer depends on the user's
/// environment, so nothing is claimed of it.
#[verifier::external_body]
fn config_dir() -> Option<String> {
    dirs::config_dir().map(|path| path.to_string_lossy().into_owned())
}

/// The app's own directory under the user's configuration directory (the
/// working directory when there is none).
pub open spec fn preferences_dir_of(config: Option<Seq<char>>) -> Seq<char> {
    let base = match config {
        Some(c) => c,
        None => "."@,
    };
    path_join(base, "Hen Local Translator"@)
}

/// The view of an optional string.
pub open spec fn opt_chars(o: Option<String>) -> Option<Seq<char>> {
    match o {
        Some(s) => Some(s@),
        None => None,
    }
}

/// The app's directory, given the configuration directory.
pub fn preferences_dir_in(config: Option<String>) -> (out: String)
    ensures
        out@ == preferences_dir_of(opt_chars(config)),
{
    proof {
        reveal_strlit(".");
    }
    match config {
        Some(c) => join_path(c.as_str(), "Hen Local Translator"),
        None => join_path(".", "Hen Local Translator"),
    }
}

/// A file in the app's directory.
pub fn app_file_in(config: Option<String>, name: &str) -> (out: String)
    ensures
        out@ == path_join(preferences_dir_of(opt_chars(config)), name@),
{
    let dir = preferences_dir_in(config);
    join_path(dir.as_str(), name)
}

/// Where the preferences are saved.
pub fn preferences_path() -> (out: String)
    ensures
        exists|c: Option<Seq<char>>| out@ == path_join(preferences_dir_of(c), "app_preferences.json"@),
{
    let config = config_dir();
    let ghost c = opt_chars(config);
    app_file_in(config, "app_preferences.json")
}

/// Where the device license is saved.
pub fn lease_path() -> (out: String)
    ensures
        exists|c: Option<Seq<char>>| out@ == path_join(preferences_dir_of(c), "license_lease.json"@),
{
    let config = config_dir();
    let ghost c = opt_chars(config);
    app_file_in(config, "license_lease.json")
}

/// Where the account configuration file is read from.
pub fn account_config_path() -> (out: String)
    ensures
        exists|c: Option<Seq<char>>| out@ == path_join(preferences_dir_of(c), "account_config.json"@),
{
    let config = config_dir();
    let ghost c = opt_chars(config);
    app_file_in(config, "account_config.json")
}

/// Where transcripts go: the chosen directory, else `transcripts` in the
/// app's directory.
pub open spec fn transcript_dir_of(chosen: Option<Seq<char>>, config: Option<Seq<char>>) -> Seq<char> {
    match chosen {
        Some(d) => d,
        None => path_join(preferences_dir_of(config), "transcripts"@),
    }
}

/// The transcript directory, given the chosen one and the configuration
/// directory.
pub fn transcript_dir_in(chosen: &Option<String>, config: Option<String>) -> (out: String)
    ensures
        out@ == transcript_dir_of(opt_chars(*chosen), opt_chars(config)),
{
    match chosen {
        Some(d) => d.clone(),
        None => app_file_in(config, "transcripts"),
    }
}

/// The translation choices of the preferences that must be one of a fixed
/// set of values.
pub struct TranslationChoices {
    pub app_language: String,
    pub accent_theme: String,
    pub translation_source_language: String,
    pub translation_target_language: String,
    pub translation_font_size_preset: String,
    pub translation_anchor_position_preset: String,
}

/// The choices as plain values.
pub struct ChoicesView {
    pub app_language: Seq<char>,
    pub accent_theme: Seq<char>,
    pub translation_source_language: Seq<char>,
    pub translation_target_language: Seq<char>,
    pub translation_font_size_preset: Seq<char>,
    pub translation_anchor_position_preset: Seq<char>,
}

impl View for TranslationChoices {
    type V = ChoicesView;

    open spec fn view(&self) -> ChoicesView {
        ChoicesView {
            app_language: self.app_language@,
            accent_theme: self.accent_theme@,
            translation_source_language: self.translation_source_language@,
            translation_target_language: self.translation_target_language@,
            translation_font_size_preset: self.translation_font_size_preset@,
            translation_anchor_position_preset: self.translation_anchor_position_preset@,
        }
    }
}

/// Languages that can be listened to.
pub open spec fn source_languages() -> Seq<Seq<char>> {
    seq!["zh"@, "en"@, "ja"@, "fr"@]
}

/// Languages that can be translated into (`none` shows the source only).
pub open spec fn target_languages() -> Seq<Seq<char>> {
    seq!["zh"@, "en"@, "ja"@, "fr"@, "none"@]
}

/// Subtitle font sizes.
pub open spec fn font_size_presets() -> Seq<Seq<char>> {
    seq![
        "16"@,
        "20"@,
        "24"@,
        "30"@,
        "36"@,
        "44"@,
        "52"@,
        "64"@,
        "80"@,
        "96"@,
        "120"@,
        "160"@,
    ]
}

/// Subtitle anchor positions, in percent of the screen height.
pub open spec fn anchor_presets() -> Seq<Seq<char>> {
    seq!["35"@, "50"@, "70"@, "100"@]
}

/// Interface languages.
pub open spec fn app_languages() -> Seq<Seq<char>> {
    seq!["zh"@, "en"@]
}

/// Accent colours.
pub open spec fn accent_themes() -> Seq<Seq<char>> {
    seq!["neon-blue"@, "neon-orange"@, "neon-pink"@, "neon-green"@]
}

/// `value` when it is one of `allowed`, else `fallback`.
pub open spec fn chosen(value: Seq<char>, allowed: Seq<Seq<char>>, fallback: Seq<char>) -> Seq<char> {
    if allowed.contains(value) {
        value
    } else {
        fallback
    }
}

/// The choices with every unsupported value replaced by its default.
pub open spec fn sanitized(c: ChoicesView) -> ChoicesView {
    ChoicesView {
        app_language: chosen(c.app_language, app_languages(), "zh"@),
        accent_theme: chosen(c.accent_theme, accent_themes(), "neon-blue"@),
        translation_source_language: chosen(c.translation_source_language, source_languages(), "zh"@),
        translation_target_language: chosen(c.translation_target_language, target_languages(), "en"@),
        translation_font_size_preset: chosen(c.translation_font_size_preset, font_size_presets(), "24"@),
        translation_anchor_position_preset: chosen(
            c.translation_anchor_position_preset,
            anchor_presets(),
            "50"@,
        ),
    }
}

/// The choices a fresh installation starts with.
pub open spec fn default_choices() -> ChoicesView {
    ChoicesView {
        app_language: "zh"@,
        accent_theme: "neon-blue"@,
        translation_source_language: "zh"@,
        translation_target_language: "en"@,
        translation_font_size_preset: "24"@,
        translation_anchor_position_preset: "50"@,
    }
}

impl Default for TranslationChoices {
    /// The choices of a fresh installation.
    fn default() -> (c: Self)
        ensures
            c@ == default_choices(),
    {
        TranslationChoices {
            app_language: "zh".to_string(),
            accent_theme: "neon-blue".to_string(),
            translation_source_language: "zh".to_string(),
            translation_target_language: "en".to_string(),
            translation_font_size_preset: "24".to_string(),
            translation_anchor_position_preset: "50".to_string(),
        }
    }
}

/// The live-translation settings that are not checked against a list:
/// transcripts, the audio input, the overlay's layout and spoken
/// translation.
pub struct TranslationOptions {
    pub auto_save_transcript: bool,
    pub periodic_save_transcript: bool,
    pub transcript_file_name: String,
    pub transcript_save_dir: Option<String>,
    pub input_device: String,
    pub overlay_fullscreen: bool,
    pub subtitle_split: bool,
    pub spoken_translation_enabled: bool,
    pub spoken_translation_output_device: Option<String>,
    pub spoken_translation_voice: Option<String>,
}

impl Default for TranslationOptions {
    /// A fresh installation: transcripts are not saved on their own, the
    /// system audio is listened to, the overlay fills the screen with split
    /// subtitles, and spoken translation is off, with Vivian as its voice.
    fn default() -> (o: Self)
        ensures
            !o.auto_save_transcript,
            !o.periodic_save_transcript,
            o.transcript_file_name@ == "transcript.md"@,
            o.transcript_save_dir is None,
            o.input_device@ == "__system_audio__"@,
            o.overlay_fullscreen,
            o.subtitle_split,
            !o.spoken_translation_enabled,
            o.spoken_translation_output_device is None,
            o.spoken_translation_voice matches Some(v) && v@ == "vivian"@,
    {
        TranslationOptions {
            auto_save_transcript: false,
            periodic_save_transcript: false,
            transcript_file_name: "transcript.md".to_string(),
            transcript_save_dir: None,
            input_device: "__system_audio__".to_string(),
            overlay_fullscreen: true,
            subtitle_split: true,
            spoken_translation_enabled: false,
            spoken_translation_output_device: None,
            spoken_translation_voice: Some("vivian".to_string()),
        }
    }
}

/// The voice studio's stored settings that are not floating point: the
/// profile, the default voice, history retention (negative: kept forever),
/// the model back ends, the audio devices, the download format and debug
/// logging.
pub struct StudioOptions {
    pub display_name: String,
    pub avatar_letter: String,
    pub last_seen_app_version: Option<String>,
    pub default_voice_id: Option<String>,
    pub history_retention_days: i64,
    pub inference_backend: String,
    pub zero_shot_backend: String,
    pub training_backend: String,
    pub preferred_output_device: Option<String>,
    pub preferred_input_device: Option<String>,
    pub tts_download_format: String,
    pub debug_logs_enabled: bool,
}

impl Default for StudioOptions {
    /// A fresh installation.
    fn default() -> (o: Self)
        ensures
            o.display_name@ == "User"@,
            o.avatar_letter@ == "U"@,
            o.last_seen_app_version is None,
            o.default_voice_id matches Some(v) && v@ == "vivian"@,
            o.history_retention_days == -1,
            o.inference_backend@ == "qwen3_tts_mlx"@,
            o.zero_shot_backend@ == "qwen3_tts_mlx"@,
            o.training_backend@ == "option_c"@,
            o.preferred_output_device is None,
            o.preferred_input_device is None,
            o.tts_download_format@ == "mp3"@,
            !o.debug_logs_enabled,
    {
        StudioOptions {
            display_name: "User".to_string(),
            avatar_letter: "U".to_string(),
            last_seen_app_version: None,
            default_voice_id: Some("vivian".to_string()),
            history_retention_days: -1,
            inference_backend: "qwen3_tts_mlx".to_string(),
            zero_shot_backend: "qwen3_tts_mlx".to_string(),
            training_backend: "option_c".to_string(),
            preferred_output_device: None,
            preferred_input_device: None,
            tts_download_format: "mp3".to_string(),
            debug_logs_enabled: false,
        }
    }
}

/// Whether `value` is one of `allowed`.
fn one_of(value: &str, allowed: &[&str]) -> (r: bool)
    ensures
        r == allowed@.map_values(|a: &str| a@).contains(value@),
{
    let ghost view = allowed@.map_values(|a: &str| a@);
    let mut i: usize = 0;
    while i < allowed.len()
        invariant
            i <= allowed@.len(),
            view == allowed@.map_values(|a: &str| a@),
            forall|j: int| 0 <= j < i ==> view[j] != value@,
        decreases allowed@.len() - i,
    {
        if str_eq(allowed[i], value) {
            assert(view[i as int] == value@);
            return true;
        }
        i += 1;
    }
    false
}

/// Replaces `value` by `fallback` unless it is one of `allowed`.
fn keep_or_default(value: &mut String, allowed: &[&str], fallback: &str)
    ensures
        final(value)@ == chosen(old(value)@, allowed@.map_values(|a: &str| a@), fallback@),
{
    if !one_of(value.as_str(), allowed) {
        *value = fallback.to_string();
    }
}

impl TranslationChoices {
    /// Replaces every unsupported choice by its default.
    pub fn sanitize(&mut self)
        ensures
            final(self)@ == sanitized(old(self)@),
    {
        proof {
            reveal_strlit("zh");
            reveal_strlit("en");
            reveal_strlit("ja");
            reveal_strlit("fr");
            reveal_strlit("none");
        }
        let a: [&str; 4] = ["zh", "en", "ja", "fr"];
        assert(a@.map_values(|x: &str| x@) =~= source_languages());
        keep_or_default(&mut self.translation_source_language, &a, "zh");
        let a: [&str; 5] = ["zh", "en", "ja", "fr", "none"];
        assert(a@.map_values(|x: &str| x@) =~= target_languages());
        keep_or_default(&mut self.translation_target_language, &a, "en");
        let a: [&str; 12] = ["16", "20", "24", "30", "36", "44", "52", "64", "80", "96", "120", "160"];
        assert(a@.map_values(|x: &str| x@) =~= font_size_presets());
        keep_or_default(&mut self.translation_font_size_preset, &a, "24");
        let a: [&str; 4] = ["35", "50", "70", "100"];
        assert(a@.map_values(|x: &str| x@) =~= anchor_presets());
        keep_or_default(&mut self.translation_anchor_position_preset, &a, "50");
        let a: [&str; 2] = ["zh", "en"];
        assert(a@.map_values(|x: &str| x@) =~= app_languages());
        keep_or_default(&mut self.app_language, &a, "zh");
        let a: [&str; 4] = ["neon-blue", "neon-orange", "neon-pink", "neon-green"];
        assert(a@.map_values(|x: &str| x@) =~= accent_themes());
        keep_or_default(&mut self.accent_theme, &a, "neon-blue");
    }
}

/// Sanitizing keeps every supported choice and is idempotent: a second pass
/// changes nothing.
pub proof fn law_sanitize_is_idempotent(c: ChoicesView)
    ensures
        sanitized(sanitized(c)) == sanitized(c),
        source_languages().contains(sanitized(c).translation_source_language),
        target_languages().contains(sanitized(c).translation_target_language),
        font_size_presets().contains(sanitized(c).translation_font_size_preset),
        anchor_presets().contains(sanitized(c).translation_anchor_position_preset),
        app_languages().contains(sanitized(c).app_language),
        accent_themes().contains(sanitized(c).accent_theme),
{
    assert(source_languages()[0] == "zh"@);
    assert(target_languages()[1] == "en"@);
    assert(font_size_presets()[2] == "24"@);
    assert(anchor_presets()[1] == "50"@);
    assert(app_languages()[0] == "zh"@);
    assert(accent_themes()[0] == "neon-blue"@);
}

/// The default choices are all supported: sanitizing them changes nothing.
pub proof fn law_default_choices_are_supported()
    ensures
        sanitized(default_choices()) == default_choices(),
{
    assert(source_languages()[0] == "zh"@);
    assert(target_languages()[1] == "en"@);
    assert(font_size_presets()[2] == "24"@);
    assert(anchor_presets()[1] == "50"@);
    assert(app_languages()[0] == "zh"@);
    assert(accent_themes()[0] == "neon-blue"@);
}

} // verus!
