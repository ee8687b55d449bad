//! Decisions of the desktop shell: the runtime's state as the user sees
//! it, what is spoken aloud, transcripts, test subtitles, input devices and
//! model checks.

use vstd::prelude::*;

use crate::bridge::{bridges_view, BridgeState, DoraStatus, WidgetBinding};
use crate::data::{SentenceUnit, TranslationUpdate};
use crate::preferences::path_join;
use crate::text::{
    chars_of, concat, insert_sorted_unique, parse_usize, parse_usize_chars, sorted_strict, str_eq, trim, trimmed,
};

verus! {

/// What the translation runtime reports.
#[derive(Debug)]
pub enum RuntimeEvent {
    Started(String),
    Stopped,
    Error(String),
}

/// The runtime as the main window shows it.
#[derive(Debug)]
pub struct RuntimeState {
    pub running: bool,
    pub status: String,
    pub message: String,
}

/// The runtime state as plain values.
pub struct RuntimeView {
    pub running: bool,
    pub status: Seq<char>,
    pub message: Seq<char>,
}

impl View for RuntimeState {
    type V = RuntimeView;

    open spec fn view(&self) -> RuntimeView {
        RuntimeView { running: self.running, status: self.status@, message: self.message@ }
    }
}

/// What follows from one runtime event: the new state, whether queued
/// speech must stop, and whether the usage timer must stop (it only runs
/// while the runtime does).
pub open spec fn after_event(s: RuntimeView, e: RuntimeEvent) -> (RuntimeView, bool, bool) {
    match e {
        RuntimeEvent::Started(id) => (
            RuntimeView {
                running: true,
                status: "listening"@,
                message: "Local translation connected · "@ + id@,
            },
            false,
            false,
        ),
        RuntimeEvent::Stopped => (
            RuntimeView { running: false, status: "idle"@, message: "Translation stopped"@ },
            true,
            s.running,
        ),
        RuntimeEvent::Error(m) => (RuntimeView { running: false, status: "error"@, message: m@ }, true, s.running),
    }
}

impl RuntimeState {
    /// Nothing runs yet.
    pub fn idle() -> (s: RuntimeState)
        ensures
            s@ == (RuntimeView { running: false, status: "idle"@, message: "Local AI is ready"@ }),
    {
        RuntimeState {
            running: false,
            status: "idle".to_string(),
            message: "Local AI is ready".to_string(),
        }
    }

    /// Applies one runtime event; returns whether speech and the usage timer
    /// must stop.
    pub fn apply(&mut self, event: RuntimeEvent) -> (r: (bool, bool))
        ensures
            (final(self)@, r.0, r.1) == after_event(old(self)@, event),
    {
        match event {
            RuntimeEvent::Started(id) => {
                self.running = true;
                self.status = "listening".to_string();
                self.message = concat("Local translation connected · ", id.as_str());
                (false, false)
            },
            RuntimeEvent::Stopped => {
                let was_running = self.running;
                self.running = false;
                self.status = "idle".to_string();
                self.message = "Translation stopped".to_string();
                (true, was_running)
            },
            RuntimeEvent::Error(message) => {
                let was_running = self.running;
                self.running = false;
                self.status = "error".to_string();
                self.message = message;
                (true, was_running)
            },
        }
    }
}

/// The usage timer is stopped once per run: after any stop or error the
/// runtime no longer runs, so a second stop or error stops nothing more.
pub proof fn law_usage_stops_once_per_run(s: RuntimeView, e1: RuntimeEvent, e2: RuntimeEvent)
    requires
        !(e1 is Started),
        !(e2 is Started),
    ensures
        !after_event(after_event(s, e1).0, e2).2,
        !after_event(s, e1).0.running,
{
}

/// The overlay status: idle when inactive, listening once the microphone
/// and the translation listener bridges are both connected, warming up
/// before that.
pub open spec fn overlay_status_of(active: bool, bridges: Seq<Seq<char>>) -> Seq<char> {
    if !active {
        "idle"@
    } else if bridges.contains("moxin-mic-input"@) && bridges.contains("moxin-translation-listener"@) {
        "listening"@
    } else {
        "warming"@
    }
}

/// Whether `name` is among `names`.
fn contains_name(names: &[String], name: &str) -> (r: bool)
    ensures
        r == names@.map_values(|s: String| s@).contains(name@),
{
    let ghost v = names@.map_values(|s: String| s@);
    let mut i: usize = 0;
    while i < names.len()
        invariant
            i <= names@.len(),
            v == names@.map_values(|s: String| s@),
            forall|j: int| 0 <= j < i ==> v[j] != name@,
        decreases names@.len() - i,
    {
        if str_eq(names[i].as_str(), name) {
            assert(v[i as int] == name@);
            return true;
        }
        i += 1;
    }
    false
}

/// The overlay status for the active bridges.
pub fn overlay_status(active: bool, active_bridges: &[String]) -> (r: &'static str)
    ensures
        r@ == overlay_status_of(active, active_bridges@.map_values(|s: String| s@)),
{
    if !active {
        "idle"
    } else if contains_name(active_bridges, "moxin-mic-input") && contains_name(
        active_bridges,
        "moxin-translation-listener",
    ) {
        "listening"
    } else {
        "warming"
    }
}

/// A preset read as a number, `default` when it is not one.
pub open spec fn preset_number_of(text: Seq<char>, default: u32) -> u32 {
    match parse_usize(text) {
        Some(v) => if v <= u32::MAX {
            v as u32
        } else {
            default
        },
        None => default,
    }
}

/// `str::parse::<u32>` with a default.
pub fn preset_number(text: &str, default: u32) -> (r: u32)
    ensures
        r == preset_number_of(text@, default),
{
    let v = chars_of(text);
    match parse_usize_chars(v.as_slice()) {
        Some(n) => if n <= u32::MAX as usize {
            n as u32
        } else {
            default
        },
        None => default,
    }
}

/// Which completed sentences are still to be spoken: the history index to
/// start at and the new count of spoken sentences. A count that went back
/// (a new session) starts over.
pub open spec fn speech_backlog_of(completed: u64, spoken: u64, history_len: nat) -> (int, u64) {
    let spoken = if completed < spoken {
        0
    } else {
        spoken
    };
    let fresh = completed - spoken;
    let start = if history_len > fresh {
        history_len - fresh
    } else {
        0
    };
    (start, completed)
}

/// The sentences still to be spoken.
pub fn speech_backlog(completed: u64, spoken: u64, history_len: usize) -> (r: (usize, u64))
    ensures
        (r.0 as int, r.1) == speech_backlog_of(completed, spoken, history_len as nat),
{
    let spoken = if completed < spoken {
        0
    } else {
        spoken
    };
    let fresh = completed - spoken;
    let start = if (history_len as u64) > fresh {
        history_len - fresh as usize
    } else {
        0
    };
    (start, completed)
}

/// Each completed sentence is spoken once: after speaking, a second look
/// at the same count finds nothing new.
pub proof fn law_sentences_are_spoken_once(completed: u64, spoken: u64, history_len: nat)
    ensures
        speech_backlog_of(completed, speech_backlog_of(completed, spoken, history_len).1, history_len).0
            == history_len,
{
}

/// The transcript's file name: the chosen one trimmed, `transcript.md` when
/// blank.
pub fn transcript_file_name(name: &str) -> (r: String)
    ensures
        r@ == (if trim(name@).len() == 0 {
            "transcript.md"@
        } else {
            trim(name@)
        }),
{
    let t = trimmed(name);
    if t.as_str().is_empty() {
        "transcript.md".to_string()
    } else {
        t
    }
}

/// The markdown for one sentence.
pub open spec fn transcript_entry(source: Seq<char>, translation: Seq<char>) -> Seq<char> {
    "**Source**\n\n"@ + source + "\n\n**Translation**\n\n"@ + translation + "\n\n---\n\n"@
}

/// The transcript of a history.
pub open spec fn transcript_of(h: Seq<(Seq<char>, Seq<char>)>) -> Seq<char>
    decreases h.len(),
{
    if h.len() == 0 {
        "# Translation transcript\n\n"@
    } else {
        transcript_of(h.drop_last()) + transcript_entry(h.last().0, h.last().1)
    }
}

/// Sentences as pairs of character sequences.
pub open spec fn sentences_view(h: Seq<SentenceUnit>) -> Seq<(Seq<char>, Seq<char>)> {
    h.map_values(|u: SentenceUnit| (u.source_text@, u.translation@))
}

/// Writes the transcript of a history as markdown.
pub fn transcript_markdown(history: &[SentenceUnit]) -> (r: String)
    ensures
        r@ == transcript_of(sentences_view(history@)),
{
    let ghost hv = sentences_view(history@);
    let mut out = "# Translation transcript\n\n".to_string();
    let mut i: usize = 0;
    assert(hv.subrange(0, 0) =~= Seq::<(Seq<char>, Seq<char>)>::empty());
    while i < history.len()
        invariant
            i <= history@.len(),
            hv == sentences_view(history@),
            out@ == transcript_of(hv.subrange(0, i as int)),
        decreases history@.len() - i,
    {
        let ghost before = out@;
        out = concat(out.as_str(), "**Source**\n\n");
        out = concat(out.as_str(), history[i].source_text.as_str());
        out = concat(out.as_str(), "\n\n**Translation**\n\n");
        out = concat(out.as_str(), history[i].translation.as_str());
        out = concat(out.as_str(), "\n\n---\n\n");
        proof {
            let pre = hv.subrange(0, i + 1);
            assert(pre.drop_last() =~= hv.subrange(0, i as int));
            assert(pre.last() == hv[i as int]);
            assert(out@ =~= before + transcript_entry(hv[i as int].0, hv[i as int].1));
        }
        i += 1;
    }
    assert(hv.subrange(0, history@.len() as int) =~= hv);
    out
}

/// Whether a transcript is to be written: saving is on and something was
/// said.
pub fn transcript_wanted(auto_save: bool, periodic_save: bool, history_len: usize) -> (r: bool)
    ensures
        r == ((auto_save || periodic_save) && history_len > 0),
{
    (auto_save || periodic_save) && history_len > 0
}

/// Where the audio comes from: system audio, or a microphone (`None` for
/// the default one).
pub open spec fn audio_input_of(device: Seq<char>) -> (bool, Option<Seq<char>>) {
    if device == "__system_audio__"@ {
        (true, None)
    } else if device == "__default_microphone__"@ {
        (false, None)
    } else {
        (false, Some(device))
    }
}

/// The audio source for an input device choice.
pub fn audio_input_choice(device: &str) -> (r: (bool, Option<String>))
    ensures
        (r.0, match r.1 {
            Some(d) => Some(d@),
            None => None,
        }) == audio_input_of(device@),
{
    if str_eq(device, "__system_audio__") {
        (true, None)
    } else if str_eq(device, "__default_microphone__") {
        (false, None)
    } else {
        (false, Some(device.to_string()))
    }
}

/// A test subtitle sentence in a language (two per language).
pub fn sample_text(language: &str, index: usize) -> (r: &'static str)
    ensures
        r@ == (if language@ == "zh"@ {
            if index == 0 {
                "这是一段用于调整字幕大小和布局的测试内容。"@
            } else {
                "请确认每句话都清晰、易读，并适合现场屏幕。"@
            }
        } else if language@ == "ja"@ {
            if index == 0 {
                "これは字幕のサイズとレイアウトを調整するためのテストです。"@
            } else {
                "各文が読みやすく、会場の画面に適しているか確認してください。"@
            }
        } else if language@ == "fr"@ {
            if index == 0 {
                "Ceci est un texte de test pour régler la taille et la disposition des sous-titres."@
            } else {
                "Vérifiez que chaque phrase est claire et lisible sur l’écran de la salle."@
            }
        } else if index == 0 {
            "This sample helps you adjust subtitle size and layout."@
        } else {
            "Check that every sentence is clear, readable, and suitable for the venue screen."@
        }),
{
    if str_eq(language, "zh") {
        if index == 0 {
            "这是一段用于调整字幕大小和布局的测试内容。"
        } else {
            "请确认每句话都清晰、易读，并适合现场屏幕。"
        }
    } else if str_eq(language, "ja") {
        if index == 0 {
            "これは字幕のサイズとレイアウトを調整するためのテストです。"
        } else {
            "各文が読みやすく、会場の画面に適しているか確認してください。"
        }
    } else if str_eq(language, "fr") {
        if index == 0 {
            "Ceci est un texte de test pour régler la taille et la disposition des sous-titres."
        } else {
            "Vérifiez que chaque phrase est claire et lisible sur l’écran de la salle."
        }
    } else if index == 0 {
        "This sample helps you adjust subtitle size and layout."
    } else {
        "Check that every sentence is clear, readable, and suitable for the venue screen."
    }
}

/// The test subtitles: two sample sentences, untranslated when the target
/// is `none`.
pub fn preview_history(source_language: &str, target_language: &str) -> (r: Vec<SentenceUnit>)
    ensures
        r@.len() == 2,
        forall|i: int|
            0 <= i < 2 ==> {
                &&& (#[trigger] r@[i]).source_text@ == sample_text_of(source_language@, i)
                &&& r@[i].translation@ == (if target_language@ == "none"@ {
                    Seq::<char>::empty()
                } else {
                    sample_text_of(target_language@, i)
                })
            },
{
    let mut out: Vec<SentenceUnit> = Vec::new();
    let mut index: usize = 0;
    while index < 2
        invariant
            index <= 2,
            out@.len() == index,
            forall|i: int|
                0 <= i < index ==> {
                    &&& (#[trigger] out@[i]).source_text@ == sample_text_of(source_language@, i)
                    &&& out@[i].translation@ == (if target_language@ == "none"@ {
                        Seq::<char>::empty()
                    } else {
                        sample_text_of(target_language@, i)
                    })
                },
        decreases 2 - index,
    {
        let source = sample_text(source_language, index).to_string();
        let translation = if str_eq(target_language, "none") {
            String::new()
        } else {
            sample_text(target_language, index).to_string()
        };
        out.push(SentenceUnit { source_text: source, translation });
        index += 1;
    }
    out
}

/// The test sentence `sample_text` returns.
pub open spec fn sample_text_of(language: Seq<char>, index: int) -> Seq<char> {
    if language == "zh"@ {
        if index == 0 {
            "这是一段用于调整字幕大小和布局的测试内容。"@
        } else {
            "请确认每句话都清晰、易读，并适合现场屏幕。"@
        }
    } else if language == "ja"@ {
        if index == 0 {
            "これは字幕のサイズとレイアウトを調整するためのテストです。"@
        } else {
            "各文が読みやすく、会場の画面に適しているか確認してください。"@
        }
    } else if language == "fr"@ {
        if index == 0 {
            "Ceci est un texte de test pour régler la taille et la disposition des sous-titres."@
        } else {
            "Vérifiez que chaque phrase est claire et lisible sur l’écran de la salle."@
        }
    } else if index == 0 {
        "This sample helps you adjust subtitle size and layout."@
    } else {
        "Check that every sentence is clear, readable, and suitable for the venue screen."@
    }
}

/// The sentence spoken when a voice is previewed.
pub fn voice_preview_sample(language: &str) -> (r: &'static str)
    ensures
        r@ == (if language@ == "zh"@ {
            "欢迎使用很 Local 实时翻译，这是苹果系统音色试听。"@
        } else if language@ == "ja"@ {
            "Hen Local リアルタイム翻訳のシステム音声プレビューです。"@
        } else if language@ == "fr"@ {
            "Bienvenue dans Hen Local, voici un aperçu de la voix système Apple."@
        } else {
            "Welcome to Hen Local Live Translator. This is an Apple system voice preview."@
        }),
{
    if str_eq(language, "zh") {
        "欢迎使用很 Local 实时翻译，这是苹果系统音色试听。"
    } else if str_eq(language, "ja") {
        "Hen Local リアルタイム翻訳のシステム音声プレビューです。"
    } else if str_eq(language, "fr") {
        "Bienvenue dans Hen Local, voici un aperçu de la voix système Apple."
    } else {
        "Welcome to Hen Local Live Translator. This is an Apple system voice preview."
    }
}

/// The app's name in the interface language.
pub fn localized_app_name(language: &str) -> (r: &'static str)
    ensures
        r@ == (if language@ == "en"@ {
            "Hen Local Live Translator"@
        } else {
            "很 Local 实时翻译"@
        }),
{
    if str_eq(language, "en") {
        "Hen Local Live Translator"
    } else {
        "很 Local 实时翻译"
    }
}

/// The accent colour kept from the settings: one of the alternatives, else
/// the default blue.
pub fn accent_theme_choice(theme: &str) -> (r: String)
    ensures
        r@ == (if theme@ == "neon-orange"@ || theme@ == "neon-pink"@ || theme@ == "neon-green"@ {
            theme@
        } else {
            "neon-blue"@
        }),
{
    if str_eq(theme, "neon-orange") || str_eq(theme, "neon-pink") || str_eq(theme, "neon-green") {
        theme.to_string()
    } else {
        "neon-blue".to_string()
    }
}

/// The model component a download request names: only the core models can
/// be downloaded.
pub fn model_component(component: &str) -> (r: Result<&'static str, String>)
    ensures
        match r {
            Ok(c) => component@ == "core"@ && c@ == "core"@,
            Err(e) => component@ != "core"@ && e@ == "Unknown model component"@,
        },
{
    if str_eq(component, "core") {
        Ok("core")
    } else {
        Err("Unknown model component".to_string())
    }
}

/// Which of the core model files are installed.
pub struct ModelFiles {
    pub asr_config: bool,
    pub translator_config: bool,
    pub translator_tokenizer: bool,
    pub translator_weights: bool,
    pub translator_weights_index: bool,
}

/// Whether the core models can run: the speech recognizer's configuration,
/// and the translator's configuration, tokenizer and weights (whole or
/// sharded).
pub fn core_models_ready(files: &ModelFiles) -> (r: bool)
    ensures
        r == (files.asr_config && files.translator_config && files.translator_tokenizer && (
        files.translator_weights || files.translator_weights_index)),
{
    files.asr_config && files.translator_config && files.translator_tokenizer && (
    files.translator_weights || files.translator_weights_index)
}

/// The files that tell whether the core models are installed, under the
/// models directory `root`, in the order of `ModelFiles`.
pub fn core_model_files(root: &str) -> (r: Vec<String>)
    ensures
        r@.map_values(|s: String| s@) == seq![
            path_join(path_join(root@, "qwen3-asr-1.7b"@), "config.json"@),
            path_join(path_join(root@, "Qwen3.5-2B-MLX-4bit"@), "config.json"@),
            path_join(path_join(root@, "Qwen3.5-2B-MLX-4bit"@), "tokenizer.json"@),
            path_join(path_join(root@, "Qwen3.5-2B-MLX-4bit"@), "model.safetensors"@),
            path_join(path_join(root@, "Qwen3.5-2B-MLX-4bit"@), "model.safetensors.index.json"@),
        ],
{
    let asr = crate::preferences::join_path(root, "qwen3-asr-1.7b");
    let translator = crate::preferences::join_path(root, "Qwen3.5-2B-MLX-4bit");
    let mut r: Vec<String> = Vec::new();
    r.push(crate::preferences::join_path(asr.as_str(), "config.json"));
    r.push(crate::preferences::join_path(translator.as_str(), "config.json"));
    r.push(crate::preferences::join_path(translator.as_str(), "tokenizer.json"));
    r.push(crate::preferences::join_path(translator.as_str(), "model.safetensors"));
    r.push(crate::preferences::join_path(translator.as_str(), "model.safetensors.index.json"));
    assert(r@.map_values(|s: String| s@) =~= seq![
        path_join(path_join(root@, "qwen3-asr-1.7b"@), "config.json"@),
        path_join(path_join(root@, "Qwen3.5-2B-MLX-4bit"@), "config.json"@),
        path_join(path_join(root@, "Qwen3.5-2B-MLX-4bit"@), "tokenizer.json"@),
        path_join(path_join(root@, "Qwen3.5-2B-MLX-4bit"@), "model.safetensors"@),
        path_join(path_join(root@, "Qwen3.5-2B-MLX-4bit"@), "model.safetensors.index.json"@),
    ]);
    r
}

/// The message of a dataflow that failed to start.
pub fn start_failure_message(error: &str) -> (r: String)
    ensures
        r@ == "Failed to start translation dataflow: "@ + error@,
{
    concat("Failed to start translation dataflow: ", error)
}

/// The node ids of the connected bridges.
pub open spec fn connected_ids(bindings: Seq<WidgetBinding>) -> Seq<Seq<char>>
    decreases bindings.len(),
{
    if bindings.len() == 0 {
        seq![]
    } else {
        let rest = connected_ids(bindings.drop_last());
        if bindings.last().state == BridgeState::Connected {
            rest.push(bindings.last().node_id@)
        } else {
            rest
        }
    }
}

/// The node ids of the bridges that connected, in order.
pub fn connected_bridges(bindings: &[WidgetBinding]) -> (r: Vec<String>)
    ensures
        r@.map_values(|s: String| s@) == connected_ids(bindings@),
{
    let mut out: Vec<String> = Vec::new();
    let mut i: usize = 0;
    while i < bindings.len()
        invariant
            i <= bindings@.len(),
            out@.map_values(|s: String| s@) == connected_ids(bindings@.subrange(0, i as int)),
        decreases bindings@.len() - i,
    {
        let ghost before = out@.map_values(|s: String| s@);
        let ghost pre = bindings@.subrange(0, i + 1);
        assert(pre.drop_last() =~= bindings@.subrange(0, i as int));
        assert(pre.last() == bindings@[i as int]);
        if bindings[i].state == BridgeState::Connected {
            out.push(bindings[i].node_id.clone());
            assert(out@.map_values(|s: String| s@) =~= before.push(bindings@[i as int].node_id@));
        }
        i += 1;
    }
    assert(bindings@.subrange(0, bindings@.len() as int) =~= bindings@);
    out
}

/// Whether the runtime should look at the dataflow's status now: not in
/// the first ten seconds after a start, and at most every two seconds.
pub fn status_check_due(since_start_ms: Option<u64>, since_last_check_ms: u64) -> (r: bool)
    ensures
        r == (!(since_start_ms matches Some(t) && t < 10_000) && since_last_check_ms >= 2000),
{
    let in_grace = match since_start_ms {
        Some(t) => t < 10_000,
        None => false,
    };
    !in_grace && since_last_check_ms >= 2000
}

/// The two listed first, in this order.
pub open spec fn special_inputs() -> Seq<Seq<char>> {
    seq!["__system_audio__"@, "__default_microphone__"@]
}

/// The input device choices: system audio, the default microphone, then
/// every other device name once, sorted.
pub fn input_device_choices(discovered: Vec<String>) -> (r: Vec<String>)
    ensures
        r@.len() >= 2,
        r@.map_values(|s: String| s@).take(2) == special_inputs(),
        sorted_strict(r@.map_values(|s: String| s@).skip(2)),
        r@.map_values(|s: String| s@).skip(2).to_set() == discovered@.map_values(|s: String| s@).to_set()
            .difference(special_inputs().to_set()),
{
    let ghost dv = discovered@.map_values(|s: String| s@);
    let mut others: Vec<String> = Vec::new();
    let mut i: usize = 0;
    proof {
        reveal_strlit("__system_audio__");
        reveal_strlit("__default_microphone__");
    }
    assert(others@.map_values(|s: String| s@).to_set() =~= dv.take(0).to_set().difference(
        special_inputs().to_set(),
    ));
    while i < discovered.len()
        invariant
            i <= discovered@.len(),
            dv == discovered@.map_values(|s: String| s@),
            sorted_strict(others@.map_values(|s: String| s@)),
            others@.map_values(|s: String| s@).to_set() == dv.take(i as int).to_set().difference(
                special_inputs().to_set(),
            ),
        decreases discovered@.len() - i,
    {
        let name = discovered[i].clone();
        let ghost before = others@.map_values(|s: String| s@).to_set();
        assert(dv.take(i + 1) =~= dv.take(i as int).push(dv[i as int]));
        proof {
            dv.take(i as int).lemma_push_to_set_commute(dv[i as int]);
        }
        if str_eq(name.as_str(), "__system_audio__") || str_eq(name.as_str(), "__default_microphone__") {
            assert(special_inputs().to_set().contains(dv[i as int])) by {
                assert(special_inputs()[0] == "__system_audio__"@);
                assert(special_inputs()[1] == "__default_microphone__"@);
            }
            assert(dv.take(i + 1).to_set().difference(special_inputs().to_set()) =~= before);
        } else {
            assert(!special_inputs().to_set().contains(dv[i as int])) by {
                if special_inputs().to_set().contains(dv[i as int]) {
                    let k = choose|k: int| 0 <= k < 2 && special_inputs()[k] == dv[i as int];
                    assert(k == 0 || k == 1);
                }
            }
            let ghost nv = name@;
            insert_sorted_unique(&mut others, name);
            assert(dv.take(i + 1).to_set().difference(special_inputs().to_set()) =~= before.insert(nv));
        }
        i += 1;
    }
    assert(dv.take(discovered@.len() as int) =~= dv);
    let mut r: Vec<String> = Vec::new();
    r.push("__system_audio__".to_string());
    r.push("__default_microphone__".to_string());
    let ghost ov = others@.map_values(|s: String| s@);
    let mut k: usize = 0;
    while k < others.len()
        invariant
            k <= others@.len(),
            ov == others@.map_values(|s: String| s@),
            r@.map_values(|s: String| s@) == special_inputs() + ov.take(k as int),
        decreases others@.len() - k,
    {
        let ghost before_r = r@.map_values(|s: String| s@);
        r.push(others[k].clone());
        assert(r@.map_values(|s: String| s@) =~= before_r.push(ov[k as int]));
        assert(ov.take(k + 1) =~= ov.take(k as int).push(ov[k as int]));
        assert(r@.map_values(|s: String| s@) =~= special_inputs() + ov.take(k + 1));
        k += 1;
    }
    assert(ov.take(others@.len() as int) =~= ov);
    assert(r@.map_values(|s: String| s@).take(2) =~= special_inputs());
    assert(r@.map_values(|s: String| s@).skip(2) =~= ov);
    r
}

// ---------------------------------------------------------------------
// The runtime worker
// ---------------------------------------------------------------------

/// What the runtime worker keeps between steps: whether the dataflow is
/// believed to run, whether a dispatcher is held, and whether the start-up
/// grace period is being timed.
#[derive(Debug, Clone, Copy, PartialEq, Eq, Structural)]
pub struct WorkerState {
    pub running: bool,
    pub has_dispatcher: bool,
    pub timing_start: bool,
}

/// What the worker does after a step: stop the dispatcher it holds, publish
/// a bridge status, set the overlay's activity and status, restart the
/// status-check clock, and report an event.
#[derive(Debug)]
pub struct WorkerEffects {
    pub stop_dispatcher: bool,
    pub status: Option<DoraStatus>,
    pub overlay: Option<(bool, &'static str)>,
    pub restart_check_clock: bool,
    pub event: Option<RuntimeEvent>,
}

/// The worker before any command.
pub fn worker_idle() -> (w: WorkerState)
    ensures
        !w.running && !w.has_dispatcher && !w.timing_start,
{
    WorkerState { running: false, has_dispatcher: false, timing_start: false }
}

/// A start command, before the new dataflow is started: a dispatcher still
/// held from an earlier start is stopped first and let go; nothing is
/// published yet.
pub fn after_start_command(w: WorkerState) -> (r: (WorkerState, WorkerEffects))
    ensures
        r.0 == (WorkerState { has_dispatcher: false, ..w }),
        r.1.stop_dispatcher == w.has_dispatcher,
        r.1.status is None,
        r.1.overlay is None,
        r.1.event is None,
        !r.1.restart_check_clock,
{
    (
        WorkerState { has_dispatcher: false, ..w },
        WorkerEffects {
            stop_dispatcher: w.has_dispatcher,
            status: None,
            overlay: None,
            restart_check_clock: false,
            event: None,
        },
    )
}

/// The outcome of starting a dataflow: its id and connected bridges, or
/// the error. Success holds the new dispatcher and reports `Started`;
/// failure reports why and leaves the overlay idle.
pub fn after_start_result(w: WorkerState, result: Result<(String, Vec<String>), String>) -> (r: (
    WorkerState,
    WorkerEffects,
))
    ensures
        match result {
            Ok((id, connected)) => {
                &&& r.0 == WorkerState { running: true, has_dispatcher: true, timing_start: true }
                &&& r.1.status matches Some(st) && bridges_view(st) == connected@.map_values(
                    |b: String| b@,
                ) && st.last_error is None
                &&& r.1.overlay matches Some(o) && o.0 && o.1@ == "warming"@
                &&& r.1.event matches Some(RuntimeEvent::Started(i)) && i@ == id@
                &&& !r.1.stop_dispatcher && !r.1.restart_check_clock
            },
            Err(error) => {
                &&& r.0 == WorkerState { running: false, has_dispatcher: false, ..w }
                &&& r.1.status matches Some(st) && bridges_view(st).len() == 0 && (st.last_error
                    matches Some(m) && m@ == "Failed to start translation dataflow: "@ + error@)
                &&& r.1.overlay matches Some(o) && !o.0 && o.1@ == "idle"@
                &&& r.1.event matches Some(RuntimeEvent::Error(m)) && m@
                    == "Failed to start translation dataflow: "@ + error@
                &&& !r.1.stop_dispatcher && !r.1.restart_check_clock
            },
        },
{
    match result {
        Ok((id, connected)) => {
            let status = DoraStatus { active_bridges: connected, last_error: None };
            (
                WorkerState { running: true, has_dispatcher: true, timing_start: true },
                WorkerEffects {
                    stop_dispatcher: false,
                    status: Some(status),
                    overlay: Some((true, "warming")),
                    restart_check_clock: false,
                    event: Some(RuntimeEvent::Started(id)),
                },
            )
        },
        Err(error) => {
            let message = start_failure_message(error.as_str());
            let status = DoraStatus { active_bridges: Vec::new(), last_error: Some(message.clone()) };
            assert(bridges_view(status) =~= Seq::<Seq<char>>::empty());
            (
                WorkerState { running: false, has_dispatcher: false, ..w },
                WorkerEffects {
                    stop_dispatcher: false,
                    status: Some(status),
                    overlay: Some((false, "idle")),
                    restart_check_clock: false,
                    event: Some(RuntimeEvent::Error(message)),
                },
            )
        },
    }
}

/// A stop command: the dispatcher (if any) is stopped, the bridges cleared,
/// the overlay set idle, and `Stopped` reported.
pub fn after_stop_command(w: WorkerState) -> (r: (WorkerState, WorkerEffects))
    ensures
        r.0 == (WorkerState { running: false, has_dispatcher: false, timing_start: false }),
        r.1.stop_dispatcher == w.has_dispatcher,
        (r.1.status matches Some(st) && bridges_view(st).len() == 0 && (st.last_error is None)),
        (r.1.overlay matches Some(o) && !o.0 && o.1@ == "idle"@),
        (r.1.event matches Some(RuntimeEvent::Stopped)),
        !r.1.restart_check_clock,
{
    (
        WorkerState { running: false, has_dispatcher: false, timing_start: false },
        WorkerEffects {
            stop_dispatcher: w.has_dispatcher,
            status: Some(DoraStatus::new()),
            overlay: Some((false, "idle")),
            restart_check_clock: false,
            event: Some(RuntimeEvent::Stopped),
        },
    )
}

/// A periodic tick. Outside the start-up grace period and at most every
/// two seconds the dataflow's status is consulted (`dataflow_running`,
/// when it could be read); a dataflow that stopped on its own is reported
/// as `Stopped` once.
pub fn after_tick(
    w: WorkerState,
    since_start_ms: Option<u64>,
    since_check_ms: u64,
    dataflow_running: Option<bool>,
) -> (r: (WorkerState, WorkerEffects))
    ensures
        ({
            let due = !(w.timing_start && (since_start_ms matches Some(t) && t < 10_000))
                && since_check_ms >= 2000;
            let ended = due && w.has_dispatcher && w.running && dataflow_running == Some(false);
            &&& r.1.restart_check_clock == due
            &&& !r.1.stop_dispatcher
            &&& r.1.status is None
            &&& if ended {
                &&& r.0 == WorkerState { running: false, timing_start: false, ..w }
                &&& r.1.overlay matches Some(o) && !o.0 && o.1@ == "idle"@
                &&& r.1.event matches Some(RuntimeEvent::Stopped)
            } else {
                &&& r.0 == w
                &&& r.1.overlay is None
                &&& r.1.event is None
            }
        }),
{
    let since = if w.timing_start {
        since_start_ms
    } else {
        None
    };
    let due = status_check_due(since, since_check_ms);
    let ended = due && w.has_dispatcher && w.running && match dataflow_running {
        Some(r) => !r,
        None => false,
    };
    if ended {
        (
            WorkerState { running: false, timing_start: false, ..w },
            WorkerEffects {
                stop_dispatcher: false,
                status: None,
                overlay: Some((false, "idle")),
                restart_check_clock: true,
                event: Some(RuntimeEvent::Stopped),
            },
        )
    } else {
        (
            w,
            WorkerEffects {
                stop_dispatcher: false,
                status: None,
                overlay: None,
                restart_check_clock: due,
                event: None,
            },
        )
    }
}

// ---------------------------------------------------------------------
// Starting, settings and the overlay window
// ---------------------------------------------------------------------

/// Whether live translation may start: the license must allow it, then the
/// core models must be installed.
pub fn start_preconditions(license: Result<(), String>, core_ready: bool) -> (r: Result<(), String>)
    ensures
        match license {
            Err(e) => r == Err::<(), String>(e),
            Ok(_) => if core_ready {
                r is Ok
            } else {
                r matches Err(e) && e@
                    == "Download the core translation models before starting live translation"@
            },
        },
{
    match license {
        Err(e) => Err(e),
        Ok(_) => if core_ready {
            Ok(())
        } else {
            Err("Download the core translation models before starting live translation".to_string())
        },
    }
}

/// Whether the spoken-translation settings changed (on/off or voice).
pub fn speech_settings_changed(
    old_enabled: bool,
    new_enabled: bool,
    old_voice: &Option<String>,
    new_voice: &Option<String>,
) -> (r: bool)
    ensures
        r == (old_enabled != new_enabled || match (old_voice, new_voice) {
            (Some(a), Some(b)) => a@ != b@,
            (None, None) => false,
            _ => true,
        }),
{
    let voice_changed = match (old_voice, new_voice) {
        (Some(a), Some(b)) => !str_eq(a.as_str(), b.as_str()),
        (None, None) => false,
        _ => true,
    };
    old_enabled != new_enabled || voice_changed
}

/// The title and detail of the model panel when no download runs.
pub fn model_status_text(core_ready: bool) -> (r: (&'static str, &'static str))
    ensures
        r.0@ == (if core_ready {
            "Ready"@
        } else {
            "Models required"@
        }),
        r.1@ == (if core_ready {
            "Core translation models are installed"@
        } else {
            "Download models to start translating"@
        }),
{
    if core_ready {
        ("Ready", "Core translation models are installed")
    } else {
        ("Models required", "Download models to start translating")
    }
}

/// What the overlay window shows.
#[derive(Debug)]
pub struct OverlayState {
    pub active: bool,
    pub status: String,
    pub source_language: String,
    pub target_language: String,
    pub subtitle_split: bool,
    pub font_size: u32,
    pub anchor_position: u32,
    pub accent_theme: String,
    pub history: Vec<SentenceUnit>,
    pub pending_source_text: String,
}

/// Builds the overlay's state from what the bridges share: the status from
/// the active bridges, the presets as numbers (24 and 50 when unreadable),
/// and the latest subtitles (none yet gives an empty history).
pub fn overlay_state(
    active: bool,
    active_bridges: &[String],
    language_pair: (String, String),
    subtitle_split: bool,
    font_size_preset: &str,
    anchor_position_preset: &str,
    accent_theme: String,
    update: Option<TranslationUpdate>,
) -> (r: OverlayState)
    ensures
        r.active == active,
        r.status@ == overlay_status_of(active, active_bridges@.map_values(|s: String| s@)),
        r.source_language@ == language_pair.0@,
        r.target_language@ == language_pair.1@,
        r.subtitle_split == subtitle_split,
        r.font_size == preset_number_of(font_size_preset@, 24),
        r.anchor_position == preset_number_of(anchor_position_preset@, 50),
        r.accent_theme@ == accent_theme@,
        match update {
            Some(u) => sentences_view(r.history@) == sentences_view(u.history@) && r.pending_source_text@
                == u.pending_source_text@,
            None => r.history@.len() == 0 && r.pending_source_text@.len() == 0,
        },
{
    let status = overlay_status(active, active_bridges).to_string();
    let (history, pending_source_text) = match update {
        Some(u) => (u.history, u.pending_source_text),
        None => (Vec::new(), String::new()),
    };
    OverlayState {
        active,
        status,
        source_language: language_pair.0,
        target_language: language_pair.1,
        subtitle_split,
        font_size: preset_number(font_size_preset, 24),
        anchor_position: preset_number(anchor_position_preset, 50),
        accent_theme,
        history,
        pending_source_text,
    }
}

/// Whether the test subtitles are to be shown after a toggle; refused
/// while live translation runs.
pub fn toggle_subtitle_preview(running: bool, visible: bool) -> (r: Result<bool, String>)
    ensures
        running ==> (r matches Err(e) && e@ == "Stop live translation before changing the test subtitles"@),
        !running ==> r == Ok::<bool, String>(!visible),
{
    if running {
        Err("Stop live translation before changing the test subtitles".to_string())
    } else {
        Ok(!visible)
    }
}

/// The values the shell publishes to the overlay and the bridges from the
/// preferences (the overlay opacity, a floating-point value, aside).
#[derive(Debug)]
pub struct SharedSettings {
    pub window_visible: bool,
    pub locale_en: bool,
    pub language_pair: (String, String),
    pub overlay_fullscreen: bool,
    pub subtitle_split: bool,
    pub font_size_preset: String,
    pub footer_font_size_preset: String,
    pub anchor_position_preset: String,
    pub system_audio: bool,
    pub input_device: Option<String>,
}

/// What the shell publishes for these preferences: the window is shown,
/// English is chosen by `en`, the footer uses size 12, and the input
/// device selects the audio source.
pub fn shared_settings(
    app_language: &str,
    source_language: &str,
    target_language: &str,
    overlay_fullscreen: bool,
    subtitle_split: bool,
    font_size_preset: &str,
    anchor_position_preset: &str,
    input_device: &str,
) -> (r: SharedSettings)
    ensures
        r.window_visible,
        r.locale_en == (app_language@ == "en"@),
        r.language_pair.0@ == source_language@ && r.language_pair.1@ == target_language@,
        r.overlay_fullscreen == overlay_fullscreen,
        r.subtitle_split == subtitle_split,
        r.font_size_preset@ == font_size_preset@,
        r.footer_font_size_preset@ == "12"@,
        r.anchor_position_preset@ == anchor_position_preset@,
        (r.system_audio, match r.input_device {
            Some(d) => Some(d@),
            None => None,
        }) == audio_input_of(input_device@),
{
    let (system_audio, device) = audio_input_choice(input_device);
    SharedSettings {
        window_visible: true,
        locale_en: str_eq(app_language, "en"),
        language_pair: (source_language.to_string(), target_language.to_string()),
        overlay_fullscreen,
        subtitle_split,
        font_size_preset: font_size_preset.to_string(),
        footer_font_size_preset: "12".to_string(),
        anchor_position_preset: anchor_position_preset.to_string(),
        system_audio,
        input_device: device,
    }
}

} // verus!
