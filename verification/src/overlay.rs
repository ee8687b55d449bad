//! What the subtitle overlay shows: the sentence history as coloured
//! segments, the split view's two panes, and the overlay's fixed texts and
//! presets.

use vstd::prelude::*;

use crate::text::{chars_of, str_eq, trim, trimmed};

verus! {

/// How a history segment is drawn: dimmed source, or bright translation.
#[derive(Clone, Copy, Debug, PartialEq, Eq, Structural)]
pub enum HistoryTone {
    Source,
    Translation,
}

/// One piece of text in the history.
#[derive(Debug, PartialEq, Eq)]
pub struct HistorySegment {
    pub text: String,
    pub tone: HistoryTone,
}

impl HistorySegment {
    /// Source text.
    pub fn source(text: &str) -> (s: HistorySegment)
        ensures
            s.text@ == text@,
            s.tone == HistoryTone::Source,
    {
        HistorySegment { text: text.to_string(), tone: HistoryTone::Source }
    }

    /// Translated text.
    pub fn translation(text: &str) -> (s: HistorySegment)
        ensures
            s.text@ == text@,
            s.tone == HistoryTone::Translation,
    {
        HistorySegment { text: text.to_string(), tone: HistoryTone::Translation }
    }
}

/// A segment as plain values.
pub open spec fn segment_view(s: HistorySegment) -> (Seq<char>, HistoryTone) {
    (s.text@, s.tone)
}

/// A history of `(source, translation)` pairs as plain values.
pub open spec fn pairs_view(h: Seq<(String, String)>) -> Seq<(Seq<char>, Seq<char>)> {
    h.map_values(|p: (String, String)| (p.0@, p.1@))
}

/// The segments of one sentence. Without translation the source is the
/// output and is drawn bright; otherwise the source comes first, followed
/// by the translation when there is one.
pub open spec fn sentence_segments(p: (Seq<char>, Seq<char>), passthrough: bool) -> Seq<
    (Seq<char>, HistoryTone),
> {
    if passthrough {
        seq![(trim(p.0), HistoryTone::Translation)]
    } else if trim(p.1).len() == 0 {
        seq![(trim(p.0), HistoryTone::Source)]
    } else {
        seq![(trim(p.0), HistoryTone::Source), (trim(p.1), HistoryTone::Translation)]
    }
}

/// The segments of a whole history, sentence after sentence.
pub open spec fn history_segments(h: Seq<(Seq<char>, Seq<char>)>, passthrough: bool) -> Seq<
    (Seq<char>, HistoryTone),
>
    decreases h.len(),
{
    if h.len() == 0 {
        seq![]
    } else {
        history_segments(h.drop_last(), passthrough) + sentence_segments(h.last(), passthrough)
    }
}

/// Lays out the history as segments.
pub fn format_history_segments(history: &[(String, String)], passthrough: bool) -> (out: Vec<
    HistorySegment,
>)
    ensures
        out@.map_values(|s: HistorySegment| segment_view(s)) == history_segments(
            pairs_view(history@),
            passthrough,
        ),
{
    let ghost hv = pairs_view(history@);
    let mut out: Vec<HistorySegment> = Vec::new();
    let mut i: usize = 0;
    while i < history.len()
        invariant
            i <= history@.len(),
            hv == pairs_view(history@),
            out@.map_values(|s: HistorySegment| segment_view(s)) == history_segments(
                hv.subrange(0, i as int),
                passthrough,
            ),
        decreases history@.len() - i,
    {
        let ghost before = out@.map_values(|s: HistorySegment| segment_view(s));
        let source = trimmed(history[i].0.as_str());
        if passthrough {
            out.push(HistorySegment::translation(source.as_str()));
        } else {
            let translation = trimmed(history[i].1.as_str());
            if translation.as_str().is_empty() {
                out.push(HistorySegment::source(source.as_str()));
            } else {
                out.push(HistorySegment::source(source.as_str()));
                out.push(HistorySegment::translation(translation.as_str()));
            }
        }
        proof {
            let pre = hv.subrange(0, i + 1);
            assert(pre.drop_last() =~= hv.subrange(0, i as int));
            assert(pre.last() == hv[i as int]);
            assert(out@.map_values(|s: HistorySegment| segment_view(s)) =~= before + sentence_segments(
                hv[i as int],
                passthrough,
            ));
        }
        i += 1;
    }
    assert(hv.subrange(0, history@.len() as int) =~= hv);
    out
}

/// Sentences one per line: each trimmed, blank ones left out.
pub open spec fn joined(parts: Seq<Seq<char>>) -> Seq<char>
    decreases parts.len(),
{
    if parts.len() == 0 {
        seq![]
    } else {
        let acc = joined(parts.drop_last());
        let p = trim(parts.last());
        if p.len() == 0 {
            acc
        } else if acc.len() == 0 {
            p
        } else {
            acc + seq!['\n'] + p
        }
    }
}

/// Joins sentences one per line.
pub fn join_sentences(parts: &[String]) -> (out: String)
    ensures
        out@ == joined(parts@.map_values(|s: String| s@)),
{
    let ghost pv = parts@.map_values(|s: String| s@);
    let mut out = String::new();
    let mut i: usize = 0;
    while i < parts.len()
        invariant
            i <= parts@.len(),
            pv == parts@.map_values(|s: String| s@),
            out@ == joined(pv.subrange(0, i as int)),
        decreases parts@.len() - i,
    {
        let part = trimmed(parts[i].as_str());
        let ghost pre = pv.subrange(0, i + 1);
        assert(pre.drop_last() =~= pv.subrange(0, i as int));
        assert(pre.last() == pv[i as int]);
        if !part.as_str().is_empty() {
            if !out.as_str().is_empty() {
                crate::text::push_char(&mut out, '\n');
            }
            let ghost before = out@;
            out = crate::text::concat(out.as_str(), part.as_str());
            assert(out@ =~= before + part@);
        }
        i += 1;
    }
    assert(pv.subrange(0, parts@.len() as int) =~= pv);
    out
}

/// How many recent sentences each split pane keeps.
pub open spec fn split_keep() -> int {
    16
}

/// The split panes' texts: the last sixteen sentences, the pending text
/// after the sources. Without translation everything is in the primary
/// pane and the other is empty.
pub open spec fn split_texts(h: Seq<(Seq<char>, Seq<char>)>, pending: Seq<char>, passthrough: bool) -> (
    Seq<char>,
    Seq<char>,
) {
    let start = if h.len() > split_keep() {
        h.len() - split_keep()
    } else {
        0
    };
    let recent = h.subrange(start, h.len() as int);
    let sources = recent.map_values(|p: (Seq<char>, Seq<char>)| p.0).push(pending);
    if passthrough {
        (joined(sources), seq![])
    } else {
        (joined(recent.map_values(|p: (Seq<char>, Seq<char>)| p.1)), joined(sources))
    }
}

/// Builds the two panes of the split view.
pub fn build_split_texts(history: &[(String, String)], pending: &str, passthrough: bool) -> (r: (
    String,
    String,
))
    ensures
        (r.0@, r.1@) == split_texts(pairs_view(history@), pending@, passthrough),
{
    let start = history.len().saturating_sub(16);
    let ghost hv = pairs_view(history@);
    let ghost recent = hv.subrange(start as int, hv.len() as int);
    let mut sources: Vec<String> = Vec::new();
    let mut translations: Vec<String> = Vec::new();
    let mut i = start;
    while i < history.len()
        invariant
            start <= i <= history@.len(),
            hv == pairs_view(history@),
            recent == hv.subrange(start as int, hv.len() as int),
            sources@.map_values(|s: String| s@) == recent.subrange(0, i - start).map_values(
                |p: (Seq<char>, Seq<char>)| p.0,
            ),
            translations@.map_values(|s: String| s@) == recent.subrange(0, i - start).map_values(
                |p: (Seq<char>, Seq<char>)| p.1,
            ),
        decreases history@.len() - i,
    {
        let ghost bs = sources@.map_values(|s: String| s@);
        let ghost bt = translations@.map_values(|s: String| s@);
        sources.push(history[i].0.clone());
        translations.push(history[i].1.clone());
        proof {
            let k = i - start;
            assert(recent[k] == hv[i as int]);
            assert(hv[i as int] == (history@[i as int].0@, history@[i as int].1@));
            assert(sources@.map_values(|s: String| s@) =~= bs.push(history@[i as int].0@));
            assert(translations@.map_values(|s: String| s@) =~= bt.push(history@[i as int].1@));
            assert(recent.subrange(0, k + 1).map_values(|p: (Seq<char>, Seq<char>)| p.0)
                =~= recent.subrange(0, k).map_values(|p: (Seq<char>, Seq<char>)| p.0).push(recent[k].0));
            assert(recent.subrange(0, k + 1).map_values(|p: (Seq<char>, Seq<char>)| p.1)
                =~= recent.subrange(0, k).map_values(|p: (Seq<char>, Seq<char>)| p.1).push(recent[k].1));
        }
        i += 1;
    }
    assert(recent.subrange(0, history@.len() - start) =~= recent);
    let ghost before = sources@.map_values(|s: String| s@);
    sources.push(pending.to_string());
    assert(sources@.map_values(|s: String| s@) =~= before.push(pending@));
    if passthrough {
        let text = join_sentences(sources.as_slice());
        let empty = String::new();
        assert(empty@ =~= Seq::<char>::empty());
        (text, empty)
    } else {
        (join_sentences(translations.as_slice()), join_sentences(sources.as_slice()))
    }
}

/// The short label of a language code.
pub fn lang_display(code: &str) -> (r: &'static str)
    ensures
        r@ == lang_display_of(code@),
{
    if str_eq(code, "zh") {
        "中文"
    } else if str_eq(code, "en") {
        "EN"
    } else if str_eq(code, "ja") {
        "日本語"
    } else if str_eq(code, "ko") {
        "한국어"
    } else if str_eq(code, "fr") {
        "FR"
    } else if str_eq(code, "de") {
        "DE"
    } else if str_eq(code, "es") {
        "ES"
    } else if str_eq(code, "ru") {
        "RU"
    } else {
        "•"
    }
}

/// The split view's language chips: the top pane's label, the source
/// pane's label, and whether the source pane (and its divider) is shown.
/// Without translation the top pane shows the source language alone.
pub fn split_chips(passthrough: bool, source_code: &str, target_code: &str) -> (r: (
    &'static str,
    &'static str,
    bool,
))
    ensures
        r.0@ == lang_display_of(if passthrough {
            source_code@
        } else {
            target_code@
        }),
        r.1@ == lang_display_of(source_code@),
        r.2 == !passthrough,
{
    let top = if passthrough {
        lang_display(source_code)
    } else {
        lang_display(target_code)
    };
    (top, lang_display(source_code), !passthrough)
}

/// The short label `lang_display` gives a language code.
pub open spec fn lang_display_of(code: Seq<char>) -> Seq<char> {
    if code == "zh"@ {
        "中文"@
    } else if code == "en"@ {
        "EN"@
    } else if code == "ja"@ {
        "日本語"@
    } else if code == "ko"@ {
        "한국어"@
    } else if code == "fr"@ {
        "FR"@
    } else if code == "de"@ {
        "DE"@
    } else if code == "es"@ {
        "ES"@
    } else if code == "ru"@ {
        "RU"@
    } else {
        "•"@
    }
}

/// The tagline in the overlay's footer.
pub fn footer_brand_text(locale_en: bool) -> (r: &'static str)
    ensures
        r@ == (if locale_en {
            "Hen Local Translator - Fully offline live translation, private by design"@
        } else {
            "很Local 实时翻译 - 完全离线本地部署，隐私优先"@
        }),
{
    if locale_en {
        "Hen Local Translator - Fully offline live translation, private by design"
    } else {
        "很Local 实时翻译 - 完全离线本地部署，隐私优先"
    }
}

/// The text shown while nothing has been heard yet, in the overlay's
/// language (English for any language without its own text).
pub fn idle_placeholder_text(lang: &str) -> (r: &'static str)
    ensures
        r@ == (if lang@ == "zh"@ {
            "本地 AI 正在待命，字幕和声音只留在你的设备上。"@
        } else if lang@ == "ja"@ {
            "ローカルAIが待機中です。字幕と音声は端末内に留まります。"@
        } else if lang@ == "fr"@ {
            "L'IA locale est prête. Voix et sous-titres restent sur cet appareil."@
        } else {
            "Local AI is ready. Subtitles and voice stay on this device."@
        }),
{
    if str_eq(lang, "zh") {
        "本地 AI 正在待命，字幕和声音只留在你的设备上。"
    } else if str_eq(lang, "ja") {
        "ローカルAIが待機中です。字幕と音声は端末内に留まります。"
    } else if str_eq(lang, "fr") {
        "L'IA locale est prête. Voix et sous-titres restent sur cet appareil."
    } else {
        "Local AI is ready. Subtitles and voice stay on this device."
    }
}

/// The subtitle font size presets.
pub open spec fn font_size_presets() -> Seq<Seq<char>> {
    seq![
        "16"@,
        "20"@,
        "24"@,
        "30"@,
        "36"@,
        "44"@,
        "52"@,
        "64"@,
        "80"@,
        "96"@,
        "120"@,
        "160"@,
    ]
}

/// The footer font size presets.
pub open spec fn footer_font_size_presets() -> Seq<Seq<char>> {
    seq![
        "8"@,
        "10"@,
        "12"@,
        "14"@,
        "16"@,
        "18"@,
        "20"@,
        "22"@,
        "24"@,
        "26"@,
        "28"@,
        "30"@,
        "32"@,
    ]
}

/// Whether `value` is one of `allowed`.
fn listed(value: &str, allowed: &[&str]) -> (r: bool)
    ensures
        r == allowed@.map_values(|a: &str| a@).contains(value@),
{
    let ghost view = allowed@.map_values(|a: &str| a@);
    let mut i: usize = 0;
    while i < allowed.len()
        invariant
            i <= allowed@.len(),
            view == allowed@.map_values(|a: &str| a@),
            forall|j: int| 0 <= j < i ==> view[j] != value@,
        decreases allowed@.len() - i,
    {
        if str_eq(allowed[i], value) {
            assert(view[i as int] == value@);
            return true;
        }
        i += 1;
    }
    false
}

/// A subtitle font size preset, `24` when it is not one of the presets.
pub fn normalized_font_size_preset(preset: &str) -> (r: String)
    ensures
        r@ == (if font_size_presets().contains(preset@) {
            preset@
        } else {
            "24"@
        }),
{
    let a: [&str; 12] = ["16", "20", "24", "30", "36", "44", "52", "64", "80", "96", "120", "160"];
    proof {
        reveal_strlit("16");
        reveal_strlit("20");
        reveal_strlit("24");
        reveal_strlit("30");
        reveal_strlit("36");
        reveal_strlit("44");
        reveal_strlit("52");
        reveal_strlit("64");
        reveal_strlit("80");
        reveal_strlit("96");
        reveal_strlit("120");
        reveal_strlit("160");
    }
    assert(a@.map_values(|x: &str| x@) =~= font_size_presets());
    if listed(preset, &a) {
        preset.to_string()
    } else {
        "24".to_string()
    }
}

/// Whether `preset` is a footer font size preset.
pub fn is_footer_font_size_preset(preset: &str) -> (r: bool)
    ensures
        r == footer_font_size_presets().contains(preset@),
{
    let a: [&str; 13] = ["8", "10", "12", "14", "16", "18", "20", "22", "24", "26", "28", "30", "32"];
    proof {
        reveal_strlit("8");
        reveal_strlit("10");
        reveal_strlit("12");
        reveal_strlit("14");
        reveal_strlit("16");
        reveal_strlit("18");
        reveal_strlit("20");
        reveal_strlit("22");
        reveal_strlit("24");
        reveal_strlit("26");
        reveal_strlit("28");
        reveal_strlit("30");
        reveal_strlit("32");
    }
    assert(a@.map_values(|x: &str| x@) =~= footer_font_size_presets());
    listed(preset, &a)
}

/// A footer font size preset, `10` when it is not one of the presets.
pub fn normalized_footer_font_size_preset(preset: &str) -> (r: String)
    ensures
        r@ == (if footer_font_size_presets().contains(preset@) {
            preset@
        } else {
            "10"@
        }),
{
    if is_footer_font_size_preset(preset) {
        preset.to_string()
    } else {
        "10".to_string()
    }
}

/// An anchor position preset, `50` when it is not one of the presets.
pub fn normalized_anchor_preset(preset: &str) -> (r: String)
    ensures
        r@ == (if preset@ == "35"@ || preset@ == "50"@ || preset@ == "70"@ || preset@ == "100"@ {
            preset@
        } else {
            "50"@
        }),
{
    if str_eq(preset, "35") || str_eq(preset, "50") || str_eq(preset, "70") || str_eq(preset, "100") {
        preset.to_string()
    } else {
        "50".to_string()
    }
}

/// Where the latest line sits, in percent of the viewport height from the
/// top; an unknown preset means the middle.
pub fn anchor_position_percent(preset: &str) -> (r: u32)
    ensures
        r == (if preset@ == "35"@ {
            35
        } else if preset@ == "70"@ {
            70
        } else if preset@ == "100"@ {
            100
        } else {
            50u32
        }),
{
    if str_eq(preset, "35") {
        35
    } else if str_eq(preset, "70") {
        70
    } else if str_eq(preset, "100") {
        100
    } else {
        50
    }
}

/// `str::eq_ignore_ascii_case` against `none`.
pub open spec fn is_none_language(code: Seq<char>) -> bool {
    &&& code.len() == 4
    &&& (code[0] == 'n' || code[0] == 'N')
    &&& (code[1] == 'o' || code[1] == 'O')
    &&& (code[2] == 'n' || code[2] == 'N')
    &&& (code[3] == 'e' || code[3] == 'E')
}

/// The overlay's passthrough mode and the language of its idle text for a
/// language pair: a target of `none` (in any case) means no translation,
/// and the idle text then follows the source language.
pub fn language_pair_mode(source_lang: &str, target_lang: &str) -> (r: (bool, String))
    ensures
        r.0 == is_none_language(target_lang@),
        r.1@ == (if r.0 {
            source_lang@
        } else {
            target_lang@
        }),
{
    let t = chars_of(target_lang);
    let passthrough = t.len() == 4 && (t[0] == 'n' || t[0] == 'N') && (t[1] == 'o' || t[1] == 'O')
        && (t[2] == 'n' || t[2] == 'N') && (t[3] == 'e' || t[3] == 'E');
    if passthrough {
        (true, source_lang.to_string())
    } else {
        (false, target_lang.to_string())
    }
}

/// The history keeps one bright segment per sentence without translation,
/// and with translation one or two per sentence with the source first.
pub proof fn law_segments_follow_sentences(h: Seq<(Seq<char>, Seq<char>)>)
    ensures
        history_segments(h, true).len() == h.len(),
        h.len() <= history_segments(h, false).len() <= 2 * h.len(),
    decreases h.len(),
{
    if h.len() > 0 {
        law_segments_follow_sentences(h.drop_last());
    }
}

/// Joining sentences gives nothing exactly when every sentence is blank.
pub proof fn law_joined_empty_only_for_blank_sentences(parts: Seq<Seq<char>>)
    ensures
        (joined(parts).len() == 0) == (forall|i: int| 0 <= i < parts.len() ==> trim(#[trigger] parts[i]).len() == 0),
    decreases parts.len(),
{
    if parts.len() > 0 {
        law_joined_empty_only_for_blank_sentences(parts.drop_last());
        let d = parts.drop_last();
        assert forall|i: int| 0 <= i < d.len() implies d[i] == parts[i] by {}
        if joined(parts).len() == 0 {
            assert forall|i: int| 0 <= i < parts.len() implies trim(#[trigger] parts[i]).len() == 0 by {
                if i < parts.len() - 1 {
                    assert(d[i] == parts[i]);
                }
            }
        }
        if forall|i: int| 0 <= i < parts.len() ==> trim(#[trigger] parts[i]).len() == 0 {
            assert(trim(parts[parts.len() - 1]).len() == 0);
            assert forall|i: int| 0 <= i < d.len() implies trim(#[trigger] d[i]).len() == 0 by {
                assert(d[i] == parts[i]);
            }
        }
    }
}

/// Joining sentences after a non-blank one puts that sentence, trimmed, on
/// the last line.
pub proof fn lemma_joined_push(parts: Seq<Seq<char>>, x: Seq<char>)
    requires
        trim(x).len() > 0,
    ensures
        joined(parts.push(x)) == if joined(parts).len() == 0 {
            trim(x)
        } else {
            joined(parts) + seq!['\n'] + trim(x)
        },
{
    assert(parts.push(x).drop_last() =~= parts);
    assert(parts.push(x).last() == x);
}

/// The text not yet translated is always the last line of the pane that
/// shows the sources: with a translation the second pane, without one the
/// first, whose other pane then stays empty. Before it come the recent
/// sources (at most the last sixteen), one per line.
pub proof fn law_pending_text_ends_the_source_pane(
    h: Seq<(Seq<char>, Seq<char>)>,
    pending: Seq<char>,
    passthrough: bool,
)
    requires
        trim(pending).len() > 0,
    ensures
        ({
            let (primary, secondary) = split_texts(h, pending, passthrough);
            let pane = if passthrough {
                primary
            } else {
                secondary
            };
            let start = if h.len() > 16 {
                h.len() - 16
            } else {
                0
            };
            let before = joined(h.subrange(start, h.len() as int).map_values(|p: (Seq<char>, Seq<char>)| p.0));
            &&& passthrough ==> secondary.len() == 0
            &&& pane == if before.len() == 0 {
                trim(pending)
            } else {
                before + seq!['\n'] + trim(pending)
            }
        }),
{
    let start = if h.len() > split_keep() {
        h.len() - split_keep()
    } else {
        0
    };
    let recent = h.subrange(start, h.len() as int);
    lemma_joined_push(recent.map_values(|p: (Seq<char>, Seq<char>)| p.0), pending);
}

// ---------------------------------------------------------------------
// What the overlay tracks between updates
// ---------------------------------------------------------------------

/// The overlay's memory of what it shows, deciding when to scroll and when
/// to show its idle text.
#[derive(Debug)]
pub struct OverlayTracking {
    pub status: String,
    pub split_mode: bool,
    pub last_history_len: usize,
    pub last_pending_text: String,
    pub pending_active: bool,
    pub pending_only_mode: bool,
    pub follow_tail_scroll: bool,
    pub pending_scroll: bool,
    pub idle_placeholder_visible: bool,
}

/// The tracking as plain values.
pub struct TrackingView {
    pub status: Seq<char>,
    pub split_mode: bool,
    pub last_history_len: nat,
    pub last_pending_text: Seq<char>,
    pub pending_active: bool,
    pub pending_only_mode: bool,
    pub follow_tail_scroll: bool,
    pub pending_scroll: bool,
    pub idle_placeholder_visible: bool,
}

impl View for OverlayTracking {
    type V = TrackingView;

    open spec fn view(&self) -> TrackingView {
        TrackingView {
            status: self.status@,
            split_mode: self.split_mode,
            last_history_len: self.last_history_len as nat,
            last_pending_text: self.last_pending_text@,
            pending_active: self.pending_active,
            pending_only_mode: self.pending_only_mode,
            follow_tail_scroll: self.follow_tail_scroll,
            pending_scroll: self.pending_scroll,
            idle_placeholder_visible: self.idle_placeholder_visible,
        }
    }
}

/// Whether anything heard is on screen.
pub open spec fn has_content(t: TrackingView) -> bool {
    t.last_history_len > 0 || t.pending_active || t.last_pending_text.len() > 0
}

/// The idle text is shown when nothing heard is on screen; in the classic
/// view the scroll state is reset for it.
pub open spec fn with_idle_text(t: TrackingView) -> TrackingView {
    if has_content(t) {
        t
    } else if t.split_mode {
        TrackingView { idle_placeholder_visible: true, ..t }
    } else {
        TrackingView {
            idle_placeholder_visible: true,
            pending_active: false,
            follow_tail_scroll: false,
            pending_only_mode: false,
            pending_scroll: true,
            ..t
        }
    }
}

/// Everything cleared.
pub open spec fn cleared(t: TrackingView) -> TrackingView {
    TrackingView {
        last_history_len: 0,
        last_pending_text: seq![],
        idle_placeholder_visible: false,
        pending_active: false,
        follow_tail_scroll: false,
        pending_only_mode: false,
        pending_scroll: false,
        ..t
    }
}

/// After new subtitles arrive (`pending` is the text not yet translated).
/// In the split view only the placeholder flag changes here. In the classic
/// view a first pending line resets scrolling, and any change of the
/// history length or pending text asks for a scroll.
pub open spec fn after_update(t: TrackingView, history_len: nat, pending: Seq<char>) -> TrackingView {
    let t0 = TrackingView { idle_placeholder_visible: false, ..t };
    if t.split_mode {
        t0
    } else {
        let p = trim(pending);
        let active = p.len() > 0;
        let only = history_len == 0 && active;
        let t1 = TrackingView { pending_active: active, pending_only_mode: only, ..t0 };
        let t2 = if only {
            TrackingView { follow_tail_scroll: false, pending_scroll: true, ..t1 }
        } else {
            t1
        };
        if only || history_len != t.last_history_len || p != t.last_pending_text {
            TrackingView { last_history_len: history_len, last_pending_text: p, pending_scroll: true, ..t2 }
        } else {
            t2
        }
    }
}

/// In the classic view an update always records the history length and the
/// trimmed pending text it shows, and asks for a scroll whenever either
/// differs from what was shown before; the split view keeps its own
/// scrolling and leaves both as they were.
pub proof fn law_classic_view_scrolls_to_changed_text(t: TrackingView, history_len: nat, pending: Seq<char>)
    ensures
        !t.split_mode ==> after_update(t, history_len, pending).last_pending_text == trim(pending)
            && after_update(t, history_len, pending).last_history_len == history_len,
        !t.split_mode && (trim(pending) != t.last_pending_text || history_len != t.last_history_len)
            ==> after_update(t, history_len, pending).pending_scroll,
        t.split_mode ==> after_update(t, history_len, pending).last_pending_text == t.last_pending_text
            && after_update(t, history_len, pending).pending_scroll == t.pending_scroll,
        !after_update(t, history_len, pending).idle_placeholder_visible,
{
}

/// After the runtime status changes: the idle status shows the idle text,
/// any other status clears it away. The first result is whether the stop
/// button is shown, when the status changed.
pub open spec fn after_status(t: TrackingView, status: Seq<char>) -> (TrackingView, Option<bool>) {
    if t.status == status {
        if status == "idle"@ && !t.idle_placeholder_visible {
            (with_idle_text(t), None)
        } else {
            (t, None)
        }
    } else {
        let t1 = TrackingView { status, ..t };
        let shown = status == "listening"@;
        if status == "idle"@ {
            (with_idle_text(t1), Some(shown))
        } else if t1.idle_placeholder_visible {
            (cleared(t1), Some(shown))
        } else {
            (t1, Some(shown))
        }
    }
}

impl OverlayTracking {
    /// The overlay before anything happened.
    pub fn new() -> (t: OverlayTracking)
        ensures
            t@.status == "warming"@,
            !t@.split_mode,
            t@.last_history_len == 0,
            t@.last_pending_text.len() == 0,
            !t@.pending_active && !t@.pending_only_mode && !t@.follow_tail_scroll,
            !t@.pending_scroll && !t@.idle_placeholder_visible,
    {
        OverlayTracking {
            status: "warming".to_string(),
            split_mode: false,
            last_history_len: 0,
            last_pending_text: String::new(),
            pending_active: false,
            pending_only_mode: false,
            follow_tail_scroll: false,
            pending_scroll: false,
            idle_placeholder_visible: false,
        }
    }

    /// Whether anything heard is on screen.
    pub fn has_runtime_content(&self) -> (r: bool)
        ensures
            r == has_content(self@),
    {
        self.last_history_len > 0 || self.pending_active || !self.last_pending_text.as_str().is_empty()
    }

    /// Shows the idle text if nothing heard is on screen.
    pub fn show_idle_placeholder_if_empty(&mut self)
        ensures
            final(self)@ == with_idle_text(old(self)@),
    {
        if self.has_runtime_content() {
            return;
        }
        self.idle_placeholder_visible = true;
        if !self.split_mode {
            self.pending_active = false;
            self.follow_tail_scroll = false;
            self.pending_only_mode = false;
            self.pending_scroll = true;
        }
    }

    /// Forgets everything shown.
    pub fn clear(&mut self)
        ensures
            final(self)@ == cleared(old(self)@),
    {
        self.last_history_len = 0;
        self.last_pending_text = String::new();
        self.idle_placeholder_visible = false;
        self.pending_active = false;
        self.follow_tail_scroll = false;
        self.pending_only_mode = false;
        self.pending_scroll = false;
        assert(self@.last_pending_text =~= Seq::<char>::empty());
    }

    /// Takes in new subtitles.
    pub fn on_translation_update(&mut self, history_len: usize, pending: &str)
        ensures
            final(self)@ == after_update(old(self)@, history_len as nat, pending@),
    {
        self.idle_placeholder_visible = false;
        if self.split_mode {
            return;
        }
        let p = trimmed(pending);
        let active = !p.as_str().is_empty();
        let only = history_len == 0 && active;
        self.pending_active = active;
        self.pending_only_mode = only;
        if only {
            self.follow_tail_scroll = false;
            self.pending_scroll = true;
        }
        let changed = !str_eq(p.as_str(), self.last_pending_text.as_str());
        if only || history_len != self.last_history_len || changed {
            self.last_history_len = history_len;
            self.last_pending_text = p;
            self.pending_scroll = true;
        }
    }

    /// Takes in the runtime status; returns whether to show the stop button
    /// when the status changed.
    pub fn on_status(&mut self, status: &str) -> (r: Option<bool>)
        ensures
            (final(self)@, r) == after_status(old(self)@, status@),
    {
        if str_eq(self.status.as_str(), status) {
            if str_eq(status, "idle") && !self.idle_placeholder_visible {
                self.show_idle_placeholder_if_empty();
            }
            return None;
        }
        self.status = status.to_string();
        let shown = str_eq(status, "listening");
        if str_eq(status, "idle") {
            self.show_idle_placeholder_if_empty();
        } else if self.idle_placeholder_visible {
            self.clear();
        }
        Some(shown)
    }
}

/// After switching between the split and the classic view: the newly
/// shown view rebuilds from the next update, and shows the idle text when
/// nothing heard is on screen.
pub open spec fn after_split_view(t: TrackingView, split: bool) -> TrackingView {
    if t.split_mode == split {
        t
    } else {
        let t1 = TrackingView {
            split_mode: split,
            last_history_len: 0,
            last_pending_text: seq![],
            pending_scroll: true,
            ..t
        };
        if !has_content(t1) {
            with_idle_text(TrackingView { idle_placeholder_visible: false, ..t1 })
        } else {
            t1
        }
    }
}

impl OverlayTracking {
    /// Switches between the split and the classic view.
    pub fn on_split_view(&mut self, split: bool)
        ensures
            final(self)@ == after_split_view(old(self)@, split),
    {
        if self.split_mode == split {
            return;
        }
        self.split_mode = split;
        self.last_history_len = 0;
        self.last_pending_text = String::new();
        self.pending_scroll = true;
        assert(self@.last_pending_text =~= Seq::<char>::empty());
        if !self.has_runtime_content() {
            self.idle_placeholder_visible = false;
            self.show_idle_placeholder_if_empty();
        }
    }
}

/// Live subtitles always replace the idle text, and the idle text only
/// appears while nothing heard is on screen.
pub proof fn law_idle_text_never_covers_subtitles(t: TrackingView, history_len: nat, pending: Seq<char>)
    ensures
        !after_update(t, history_len, pending).idle_placeholder_visible,
        with_idle_text(t).idle_placeholder_visible ==> !has_content(t) || t.idle_placeholder_visible,
{
}

} // verus!
