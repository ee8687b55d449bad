//! Spoken translation with the macOS system voices: parsing what `say`
//! reports, choosing the approved voice for a language, and the command
//! protocol of the speech worker.

use vstd::prelude::*;

use crate::text::{
    chars_of, concat, find_char, find_ws, insert_sorted_unique, sorted_strict, split_lines, trimmed, has_prefix, is_alnum, is_alpha, is_digit, all_alnum, all_alpha, all_digits, join, join_chars, lines, parse_usize, parse_usize_chars, position_of, position_of_ws, split_once, split_words, starts_with, str_eq, string_of, string_of_range, strip_prefix, sub_chars, trim, trim_bounds, words, lemma_find_char_props, lemma_find_ws_props,
};

verus! {

/// A voice that `say -v ?` lists.
#[derive(Debug)]
pub struct SystemVoice {
    pub name: String,
    pub locale: String,
    pub sample: String,
}

/// A locale tag such as `en_US` or `ar_001`: two or three ASCII letters, an
/// underscore, and a non-empty ASCII alphanumeric region.
pub open spec fn locale_spec(v: Seq<char>) -> bool {
    match split_once(v, '_') {
        Some((language, region)) => {
            &&& 2 <= language.len() <= 3
            &&& region.len() > 0
            &&& all_alpha(language)
            &&& all_alnum(region)
        },
        None => false,
    }
}

/// Index of the first locale among `fields`.
pub open spec fn first_locale(fields: Seq<Seq<char>>) -> Option<int>
    decreases fields.len(),
{
    if fields.len() == 0 {
        None
    } else if locale_spec(fields[0]) {
        Some(0)
    } else {
        match first_locale(fields.drop_first()) {
            Some(i) => Some(i + 1),
            None => None,
        }
    }
}

/// A line of `say -v ?`: the name (all words before the first locale), the
/// locale, and the trimmed sample after `#`.
pub open spec fn voice_line_spec(line: Seq<char>) -> Option<(Seq<char>, Seq<char>, Seq<char>)> {
    let (identity, sample) = match split_once(line, '#') {
        Some(p) => p,
        None => (line, Seq::empty()),
    };
    let fields = words(identity);
    match first_locale(fields) {
        Some(k) => if k > 0 {
            Some((join(fields.subrange(0, k), seq![' ']), fields[k], trim(sample)))
        } else {
            None
        },
        None => None,
    }
}

/// A line of `say -a ?`: a numeric device id, whitespace, and a name.
pub open spec fn device_line_spec(line: Seq<char>) -> Option<(Seq<char>, Seq<char>)> {
    let t = trim(line);
    match find_ws(t) {
        Some(i) => {
            let id = t.subrange(0, i);
            let name = trim(t.subrange(i + 1, t.len() as int));
            if id.len() > 0 && all_digits(id) && name.len() > 0 {
                Some((id, name))
            } else {
                None
            }
        },
        None => None,
    }
}

/// The five voice choices offered in the app.
pub open spec fn is_voice_id(v: Seq<char>) -> bool {
    ||| v == "apple-voice-1"@
    ||| v == "apple-voice-2"@
    ||| v == "apple-voice-3"@
    ||| v == "apple-voice-4"@
    ||| v == "apple-voice-5"@
}

/// A voice choice, with anything unknown read as the first choice.
pub open spec fn normalized_voice(v: Seq<char>) -> Seq<char> {
    if is_voice_id(v) {
        v
    } else {
        "apple-voice-1"@
    }
}

/// The zero-based index of a voice choice `apple-voice-N`, clamped to 0..=4;
/// 0 when the choice has no number.
pub open spec fn voice_idx(v: Seq<char>) -> int {
    let n: int = match strip_prefix(v, "apple-voice-"@) {
        Some(r) => match parse_usize(r) {
            Some(n) => n as int,
            None => 1,
        },
        None => 1,
    };
    let k = if n >= 1 {
        n - 1
    } else {
        0
    };
    if k > 4 {
        4
    } else {
        k
    }
}

/// The approved system voice for a language and choice index: Siri "Voice
/// 1".."Voice 5" (US English) for English, "Yue (Premium)" then "Tingting"
/// for Chinese, nothing for other languages.
pub open spec fn preferred(language: Seq<char>, index: int) -> Option<(Seq<char>, Seq<char>)> {
    if language == "zh"@ {
        if index == 0 {
            Some(("Yue (Premium)"@, "zh_CN"@))
        } else if index == 1 {
            Some(("Tingting"@, "zh_CN"@))
        } else {
            None
        }
    } else if language == "en"@ {
        if index == 0 {
            Some(("Voice 1"@, "en_US"@))
        } else if index == 1 {
            Some(("Voice 2"@, "en_US"@))
        } else if index == 2 {
            Some(("Voice 3"@, "en_US"@))
        } else if index == 3 {
            Some(("Voice 4"@, "en_US"@))
        } else if index == 4 {
            Some(("Voice 5"@, "en_US"@))
        } else {
            None
        }
    } else {
        None
    }
}

/// Installed voices as pairs of character sequences.
pub open spec fn installed_view(installed: Seq<(String, String)>) -> Seq<(Seq<char>, Seq<char>)> {
    installed.map_values(|p: (String, String)| (p.0@, p.1@))
}

/// The voice to use: the approved voice for the choice, and only when that
/// exact voice (name and locale) is installed. Never another voice.
pub open spec fn selected(
    installed: Seq<(Seq<char>, Seq<char>)>,
    language: Seq<char>,
    voice: Seq<char>,
) -> Option<Seq<char>> {
    match preferred(language, voice_idx(voice)) {
        Some((name, locale)) => if installed.contains((name, locale)) {
            Some(name)
        } else {
            None
        },
        None => None,
    }
}

/// The view of an optional string.
pub open spec fn opt_view(o: Option<String>) -> Option<Seq<char>> {
    match o {
        Some(s) => Some(s@),
        None => None,
    }
}

/// The sample sentence played when auditioning a voice of `locale`.
pub open spec fn audition_spec(locale: Seq<char>) -> Seq<char> {
    if starts_with(locale, "zh_"@) {
        "你好，这是很 Local 实时翻译的 Apple 系统音色试听。请听一下这个声音是否自然、清楚，适合长时间播报。"@
    } else if starts_with(locale, "ja_"@) {
        "こんにちは。Hen Local リアルタイム翻訳の Apple システム音声テストです。自然で聞きやすい声か確認してください。"@
    } else if starts_with(locale, "fr_"@) {
        "Bonjour. Voici un test de la voix système Apple pour Hen Local. Vérifiez si cette voix est naturelle et facile à comprendre."@
    } else {
        "Hello. This is an Apple system voice test for Hen Local Live Translator. Please check whether this voice sounds natural, clear, and comfortable for long listening."@
    }
}

/// Whether `v` is a locale tag.
pub fn is_locale(value: &str) -> (r: bool)
    ensures
        r == locale_spec(value@),
{
    let v = chars_of(value);
    is_locale_chars(v.as_slice())
}

fn is_locale_chars(v: &[char]) -> (r: bool)
    ensures
        r == locale_spec(v@),
{
    proof {
        lemma_find_char_props(v@, '_');
    }
    let k = match position_of(v, '_') {
        Some(k) => k,
        None => return false,
    };
    let ghost language = v@.subrange(0, k as int);
    let ghost region = v@.subrange(k + 1, v@.len() as int);
    if k < 2 || k > 3 || k + 1 >= v.len() {
        return false;
    }
    let mut i: usize = 0;
    while i < k
        invariant
            i <= k < v@.len(),
            2 <= k <= 3,
            find_char(v@, '_') == Some(k as int),
            language == v@.subrange(0, k as int),
            forall|j: int| 0 <= j < i ==> #[trigger] is_alpha(language[j]),
        decreases k - i,
    {
        let c = v[i];
        if !(('a' <= c && c <= 'z') || ('A' <= c && c <= 'Z')) {
            assert(!is_alpha(language[i as int]));
            return false;
        }
        i += 1;
    }
    let mut j: usize = k + 1;
    while j < v.len()
        invariant
            k + 1 <= j <= v@.len(),
            2 <= k <= 3,
            k + 1 < v@.len(),
            find_char(v@, '_') == Some(k as int),
            language == v@.subrange(0, k as int),
            all_alpha(language),
            region == v@.subrange(k + 1, v@.len() as int),
            forall|m: int| 0 <= m < j - k - 1 ==> #[trigger] is_alnum(region[m]),
        decreases v@.len() - j,
    {
        let c = v[j];
        if !(('a' <= c && c <= 'z') || ('A' <= c && c <= 'Z') || ('0' <= c && c <= '9')) {
            assert(!is_alnum(region[j - k - 1]));
            return false;
        }
        j += 1;
    }
    true
}

/// Parses one line of `say -v ?`.
pub fn parse_system_voice_line(line: &str) -> (r: Option<SystemVoice>)
    ensures
        match r {
            Some(v) => voice_line_spec(line@) == Some((v.name@, v.locale@, v.sample@)),
            None => voice_line_spec(line@) is None,
        },
{
    let chars = chars_of(line);
    proof {
        lemma_find_char_props(chars@, '#');
    }
    let (identity, sample) = match position_of(chars.as_slice(), '#') {
        Some(k) => {
            assert(find_char(chars@, '#') == Some(k as int));
            assert(k < chars@.len());
            assert(chars@.len() == chars.len());
            (sub_chars(chars.as_slice(), 0, k), sub_chars(chars.as_slice(), k + 1, chars.len()))
        },
        None => (chars, Vec::new()),
    };
    let fields = split_words(identity.as_slice());
    let ghost fv = words(identity@);
    let mut k: usize = 0;
    let mut found = false;
    while k < fields.len() && !found
        invariant
            k <= fields@.len(),
            fields@.len() == fv.len(),
            forall|i: int| 0 <= i < fields@.len() ==> #[trigger] fields@[i]@ == fv[i],
            forall|i: int| 0 <= i < k ==> !locale_spec(#[trigger] fv[i]),
            found ==> k < fields@.len() && locale_spec(fv[k as int]),
        decreases fields@.len() - k + (if found {
            0int
        } else {
            1int
        }),
    {
        if is_locale_chars(fields[k].as_slice()) {
            found = true;
        } else {
            k += 1;
        }
    }
    proof {
        lemma_first_locale(fv, k as int);
    }
    if k == fields.len() || k == 0 {
        return None;
    }
    let name_parts = sub_vecs(fields.as_slice(), 0, k);
    let space = chars_of(" ");
    proof {
        reveal_strlit(" ");
        assert(space@ =~= seq![' ']);
        assert(name_parts@.map_values(|p: Vec<char>| p@) =~= fv.subrange(0, k as int));
    }
    let name = join_chars(name_parts.as_slice(), space.as_slice());
    let (a, b) = trim_bounds(sample.as_slice());
    Some(
        SystemVoice {
            name: string_of(name.as_slice()),
            locale: string_of(fields[k].as_slice()),
            sample: string_of_range(sample.as_slice(), a, b),
        },
    )
}

/// `first_locale` finds the first locale field.
proof fn lemma_first_locale(fields: Seq<Seq<char>>, k: int)
    requires
        0 <= k <= fields.len(),
        forall|i: int| 0 <= i < k ==> !locale_spec(#[trigger] fields[i]),
        k < fields.len() ==> locale_spec(fields[k]),
    ensures
        k < fields.len() ==> first_locale(fields) == Some(k),
        k == fields.len() ==> first_locale(fields) is None,
    decreases k,
{
    if k > 0 {
        let rest = fields.drop_first();
        assert forall|i: int| 0 <= i < k - 1 implies !locale_spec(#[trigger] rest[i]) by {
            assert(rest[i] == fields[i + 1]);
        }
        if k < fields.len() {
            assert(rest[k - 1] == fields[k]);
        }
        lemma_first_locale(rest, k - 1);
    } else if fields.len() == 0 {
    }
}

/// Copies `v[from..to]` of a vector of character vectors.
fn sub_vecs(v: &[Vec<char>], from: usize, to: usize) -> (out: Vec<Vec<char>>)
    requires
        from <= to <= v@.len(),
    ensures
        out@.len() == to - from,
        forall|i: int| 0 <= i < out@.len() ==> #[trigger] out@[i]@ == v@[from + i]@,
{
    let mut out: Vec<Vec<char>> = Vec::new();
    let mut i = from;
    while i < to
        invariant
            from <= i <= to <= v@.len(),
            out@.len() == i - from,
            forall|j: int| 0 <= j < out@.len() ==> #[trigger] out@[j]@ == v@[from + j]@,
        decreases to - i,
    {
        out.push(sub_chars(v[i].as_slice(), 0, v[i].len()));
        proof {
            assert(v@[i as int]@.subrange(0, v@[i as int]@.len() as int) =~= v@[i as int]@);
        }
        i += 1;
    }
    out
}

/// The `(name, locale)` of a line of `say -v ?`.
pub fn parse_voice_line(line: &str) -> (r: Option<(String, String)>)
    ensures
        match r {
            Some((n, l)) => voice_line_spec(line@) matches Some((n2, l2, _)) && n2 == n@ && l2 == l@,
            None => voice_line_spec(line@) is None,
        },
{
    match parse_system_voice_line(line) {
        Some(v) => Some((v.name, v.locale)),
        None => None,
    }
}

/// Parses one line of `say -a ?` into `(device id, device name)`.
pub fn parse_output_device_line(line: &str) -> (r: Option<(String, String)>)
    ensures
        match r {
            Some((id, name)) => device_line_spec(line@) == Some((id@, name@)),
            None => device_line_spec(line@) is None,
        },
{
    let chars = chars_of(line);
    let (a, b) = trim_bounds(chars.as_slice());
    let t = sub_chars(chars.as_slice(), a, b);
    proof {
        lemma_find_ws_props(t@);
    }
    let i = match position_of_ws(t.as_slice()) {
        Some(i) => i,
        None => return None,
    };
    let id = sub_chars(t.as_slice(), 0, i);
    let rest = sub_chars(t.as_slice(), i + 1, t.len());
    let (c, d) = trim_bounds(rest.as_slice());
    let name = sub_chars(rest.as_slice(), c, d);
    if id.len() == 0 || name.len() == 0 {
        return None;
    }
    assert(device_line_spec(line@) == (if all_digits(id@) {
        Some((id@, name@))
    } else {
        None
    }));
    let mut k: usize = 0;
    while k < id.len()
        invariant
            k <= id@.len(),
            device_line_spec(line@) == (if all_digits(id@) {
                Some((id@, name@))
            } else {
                None
            }),
            forall|j: int| 0 <= j < k ==> #[trigger] is_digit(id@[j]),
        decreases id@.len() - k,
    {
        let ch = id[k];
        if !('0' <= ch && ch <= '9') {
            assert(!is_digit(id@[k as int]));
            return None;
        }
        k += 1;
    }
    Some((string_of(id.as_slice()), string_of(name.as_slice())))
}

/// The sample sentence used to audition a system voice of `locale`.
pub fn audition_text(locale: &str) -> (r: &'static str)
    ensures
        r@ == audition_spec(locale@),
{
    let v = chars_of(locale);
    let zh = chars_of("zh_");
    let ja = chars_of("ja_");
    let fr = chars_of("fr_");
    if has_prefix(v.as_slice(), zh.as_slice()) {
        "你好，这是很 Local 实时翻译的 Apple 系统音色试听。请听一下这个声音是否自然、清楚，适合长时间播报。"
    } else if has_prefix(v.as_slice(), ja.as_slice()) {
        "こんにちは。Hen Local リアルタイム翻訳の Apple システム音声テストです。自然で聞きやすい声か確認してください。"
    } else if has_prefix(v.as_slice(), fr.as_slice()) {
        "Bonjour. Voici un test de la voix système Apple pour Hen Local. Vérifiez si cette voix est naturelle et facile à comprendre."
    } else {
        "Hello. This is an Apple system voice test for Hen Local Live Translator. Please check whether this voice sounds natural, clear, and comfortable for long listening."
    }
}

/// A voice choice, with anything unknown read as `apple-voice-1`.
pub fn normalize_voice_id<'a>(voice: &'a str) -> (r: &'a str)
    ensures
        r@ == normalized_voice(voice@),
{
    if str_eq(voice, "apple-voice-1") || str_eq(voice, "apple-voice-2") || str_eq(
        voice,
        "apple-voice-3",
    ) || str_eq(voice, "apple-voice-4") || str_eq(voice, "apple-voice-5") {
        voice
    } else {
        "apple-voice-1"
    }
}

/// The approved system voice `(name, locale)` for a language and choice.
pub fn preferred_voice(language: &str, index: usize) -> (r: Option<(&'static str, &'static str)>)
    ensures
        match r {
            Some((n, l)) => preferred(language@, index as int) == Some((n@, l@)),
            None => preferred(language@, index as int) is None,
        },
{
    if str_eq(language, "zh") {
        if index == 0 {
            Some(("Yue (Premium)", "zh_CN"))
        } else if index == 1 {
            Some(("Tingting", "zh_CN"))
        } else {
            None
        }
    } else if str_eq(language, "en") {
        if index == 0 {
            Some(("Voice 1", "en_US"))
        } else if index == 1 {
            Some(("Voice 2", "en_US"))
        } else if index == 2 {
            Some(("Voice 3", "en_US"))
        } else if index == 3 {
            Some(("Voice 4", "en_US"))
        } else if index == 4 {
            Some(("Voice 5", "en_US"))
        } else {
            None
        }
    } else {
        None
    }
}

/// The zero-based index of a voice choice, clamped to the five choices.
pub fn voice_index(voice: &str) -> (r: usize)
    ensures
        r == voice_idx(voice@),
        r <= 4,
{
    let v = chars_of(voice);
    let p = chars_of("apple-voice-");
    let n: usize = if has_prefix(v.as_slice(), p.as_slice()) {
        let rest = sub_chars(v.as_slice(), p.len(), v.len());
        match parse_usize_chars(rest.as_slice()) {
            Some(n) => n,
            None => 1,
        }
    } else {
        1
    };
    let k = n.saturating_sub(1);
    if k > 4 {
        4
    } else {
        k
    }
}

/// The installed voice to use for a language and choice, if the approved
/// voice is installed; never a substitute.
pub fn select_voice(installed: &[(String, String)], language: &str, voice: &str) -> (r: Option<String>)
    ensures
        opt_view(r) == selected(installed_view(installed@), language@, voice@),
{
    let (name, locale) = match preferred_voice(language, voice_index(voice)) {
        Some(p) => p,
        None => return None,
    };
    let ghost iv = installed_view(installed@);
    assert(preferred(language@, voice_idx(voice@)) == Some((name@, locale@)));
    let mut i: usize = 0;
    while i < installed.len()
        invariant
            i <= installed@.len(),
            iv == installed_view(installed@),
            preferred(language@, voice_idx(voice@)) == Some((name@, locale@)),
            forall|j: int| 0 <= j < i ==> #[trigger] iv[j] != (name@, locale@),
        decreases installed@.len() - i,
    {
        let (n, l) = &installed[i];
        if str_eq(n.as_str(), name) && str_eq(l.as_str(), locale) {
            assert(iv[i as int] == (name@, locale@));
            assert(iv.contains((name@, locale@)));
            return Some(name.to_owned());
        }
        i += 1;
    }
    assert(!iv.contains((name@, locale@)));
    None
}

/// The message for a voice that cannot be used.
pub open spec fn voice_error(language: Seq<char>, voice: Seq<char>) -> Seq<char> {
    match preferred(language, voice_idx(normalized_voice(voice))) {
        Some((name, locale)) => "Selected Apple voice is not installed: "@ + name + " ("@ + locale
            + "). Download it in macOS Accessibility settings before enabling spoken translation."@,
        None => "Spoken translation is not available for "@ + language,
    }
}

/// Checks that the approved voice for a language and choice is installed.
pub fn ensure_voice_available(installed: &[(String, String)], language: &str, voice: &str) -> (r: Result<(), String>)
    ensures
        match r {
            Ok(()) => selected(installed_view(installed@), language@, normalized_voice(voice@)) is Some,
            Err(e) => selected(installed_view(installed@), language@, normalized_voice(voice@)) is None
                && e@ == voice_error(language@, voice@),
        },
{
    let v = normalize_voice_id(voice);
    if select_voice(installed, language, v).is_some() {
        return Ok(());
    }
    match preferred_voice(language, voice_index(v)) {
        Some((name, locale)) => {
            let m1 = concat("Selected Apple voice is not installed: ", name);
            let m2 = concat(m1.as_str(), " (");
            let m3 = concat(m2.as_str(), locale);
            let m4 = concat(
                m3.as_str(),
                "). Download it in macOS Accessibility settings before enabling spoken translation.",
            );
            Err(m4)
        },
        None => Err(concat("Spoken translation is not available for ", language)),
    }
}

/// The voices listed in `say -v ?` lines, in order, skipping lines that
/// name no voice.
pub open spec fn voices_of_lines(ls: Seq<Seq<char>>) -> Seq<(Seq<char>, Seq<char>, Seq<char>)>
    decreases ls.len(),
{
    if ls.len() == 0 {
        seq![]
    } else {
        let rest = voices_of_lines(ls.drop_last());
        match voice_line_spec(ls.last()) {
            Some(v) => rest.push(v),
            None => rest,
        }
    }
}

/// A listed voice as plain values.
pub open spec fn voice_view(v: SystemVoice) -> (Seq<char>, Seq<char>, Seq<char>) {
    (v.name@, v.locale@, v.sample@)
}

/// The voices of a `say -v ?` listing.
pub fn available_voices(say_output: &str) -> (r: Vec<SystemVoice>)
    ensures
        r@.map_values(|v: SystemVoice| voice_view(v)) == voices_of_lines(lines(say_output@)),
{
    let v = chars_of(say_output);
    let ls = split_lines(v.as_slice());
    let ghost lv = lines(v@);
    let mut out: Vec<SystemVoice> = Vec::new();
    let mut k: usize = 0;
    while k < ls.len()
        invariant
            k <= ls@.len(),
            ls@.len() == lv.len(),
            lv == lines(say_output@),
            forall|i: int| 0 <= i < ls@.len() ==> #[trigger] ls@[i]@ == lv[i],
            out@.map_values(|v: SystemVoice| voice_view(v)) == voices_of_lines(lv.subrange(0, k as int)),
        decreases ls@.len() - k,
    {
        let line = string_of(ls[k].as_slice());
        let ghost before = out@.map_values(|v: SystemVoice| voice_view(v));
        let ghost pre = lv.subrange(0, k + 1);
        assert(pre.drop_last() =~= lv.subrange(0, k as int));
        assert(pre.last() == lv[k as int]);
        match parse_system_voice_line(line.as_str()) {
            Some(voice) => {
                out.push(voice);
                assert(out@.map_values(|v: SystemVoice| voice_view(v)) =~= before.push(
                    voice_line_spec(lv[k as int]).unwrap(),
                ));
            },
            None => {},
        }
        k += 1;
    }
    assert(lv.subrange(0, lv.len() as int) =~= lv);
    out
}

/// The installed voices of a `say -v ?` listing, as `(name, locale)`.
pub fn installed_voices(say_output: &str) -> (r: Vec<(String, String)>)
    ensures
        installed_view(r@) == voices_of_lines(lines(say_output@)).map_values(
            |v: (Seq<char>, Seq<char>, Seq<char>)| (v.0, v.1),
        ),
{
    let voices = available_voices(say_output);
    let ghost vv = voices@.map_values(|v: SystemVoice| voice_view(v));
    let mut out: Vec<(String, String)> = Vec::new();
    let mut i: usize = 0;
    while i < voices.len()
        invariant
            i <= voices@.len(),
            vv == voices@.map_values(|v: SystemVoice| voice_view(v)),
            installed_view(out@) == vv.subrange(0, i as int).map_values(
                |v: (Seq<char>, Seq<char>, Seq<char>)| (v.0, v.1),
            ),
        decreases voices@.len() - i,
    {
        let ghost before = installed_view(out@);
        out.push((voices[i].name.clone(), voices[i].locale.clone()));
        assert(installed_view(out@) =~= before.push((vv[i as int].0, vv[i as int].1)));
        assert(vv.subrange(0, i + 1).map_values(|v: (Seq<char>, Seq<char>, Seq<char>)| (v.0, v.1))
            =~= vv.subrange(0, i as int).map_values(
            |v: (Seq<char>, Seq<char>, Seq<char>)| (v.0, v.1),
        ).push((vv[i as int].0, vv[i as int].1)));
        i += 1;
    }
    assert(vv.subrange(0, vv.len() as int) =~= vv);
    out
}

/// The device names found in the first `k` lines.
pub open spec fn names_in_lines(ls: Seq<Seq<char>>, k: int) -> Set<Seq<char>> {
    Set::new(
        |n: Seq<char>|
            exists|j: int|
                0 <= j < k && #[trigger] device_line_spec(ls[j]) is Some && device_line_spec(
                    ls[j],
                ).unwrap().1 == n,
    )
}

/// The device names of a `say -a ?` listing.
pub open spec fn device_names(output: Seq<char>) -> Set<Seq<char>> {
    names_in_lines(lines(output), lines(output).len() as int)
}

/// The output device names of a `say -a ?` listing, sorted and without
/// duplicates.
pub fn output_device_names(say_output: &str) -> (r: Vec<String>)
    ensures
        sorted_strict(r@.map_values(|s: String| s@)),
        r@.map_values(|s: String| s@).to_set() == device_names(say_output@),
{
    let v = chars_of(say_output);
    let ls = split_lines(v.as_slice());
    let ghost lv = lines(v@);
    let mut names: Vec<String> = Vec::new();
    assert(names@.map_values(|s: String| s@).to_set() =~= names_in_lines(lv, 0));
    let mut k: usize = 0;
    while k < ls.len()
        invariant
            k <= ls@.len(),
            ls@.len() == lv.len(),
            lv == lines(say_output@),
            forall|i: int| 0 <= i < ls@.len() ==> #[trigger] ls@[i]@ == lv[i],
            sorted_strict(names@.map_values(|s: String| s@)),
            names@.map_values(|s: String| s@).to_set() == names_in_lines(lv, k as int),
        decreases ls@.len() - k,
    {
        let line = string_of(ls[k].as_slice());
        let parsed = parse_output_device_line(line.as_str());
        let ghost before = names@.map_values(|s: String| s@).to_set();
        match parsed {
            Some((_id, name)) => {
                let ghost nv = name@;
                insert_sorted_unique(&mut names, name);
                assert(names_in_lines(lv, k + 1) =~= before.insert(nv)) by {
                    assert(device_line_spec(lv[k as int]) is Some);
                }
            },
            None => {
                assert(names_in_lines(lv, k + 1) =~= before) by {
                    assert(device_line_spec(lv[k as int]) is None);
                }
            },
        }
        k += 1;
    }
    names
}

/// The id of the output device named `selected` (trimmed), the first one
/// listed with that name; nothing when no name is given or none matches.
pub fn available_output_device_id(devices: &[(String, String)], selected: Option<&str>) -> (r: Option<String>)
    ensures
        match selected {
            None => r is None,
            Some(sel) => {
                let name = trim(sel@);
                if name.len() == 0 {
                    r is None
                } else {
                    match r {
                        Some(id) => exists|i: int|
                            0 <= i < devices@.len() && devices@[i].1@ == name && devices@[i].0@ == id@
                                && forall|j: int| 0 <= j < i ==> #[trigger] devices@[j].1@ != name,
                        None => forall|i: int| 0 <= i < devices@.len() ==> #[trigger] devices@[i].1@ != name,
                    }
                }
            },
        },
{
    let sel = match selected {
        Some(s) => s,
        None => return None,
    };
    let name = trimmed(sel);
    if name.as_str().is_empty() {
        return None;
    }
    let mut i: usize = 0;
    while i < devices.len()
        invariant
            i <= devices@.len(),
            selected == Some(sel),
            name@.len() > 0,
            name@ == trim(sel@),
            forall|j: int| 0 <= j < i ==> #[trigger] devices@[j].1@ != name@,
        decreases devices@.len() - i,
    {
        if str_eq(devices[i].1.as_str(), name.as_str()) {
            return Some(devices[i].0.clone());
        }
        i += 1;
    }
    None
}

/// A command for the speech worker.
pub enum SpeechCommand {
    Configure { enabled: bool, language: String, voice: String, output_device: Option<String> },
    Speak(String),
    Stop,
    Shutdown,
}

/// A sentence to synthesize, tagged with the generation it belongs to.
pub struct SynthesisTask {
    pub generation: u64,
    pub voice: String,
    pub output_device: Option<String>,
    pub text: String,
}

/// What the speech worker does after a command.
pub enum SpeechAction {
    Nothing,
    Synthesize(SynthesisTask),
    Shutdown,
}

/// The speech worker's settings and generation counter. Every
/// configuration change, stop or shutdown starts a new generation, and
/// audio of an older generation is never played.
pub struct SpeechSession {
    pub enabled: bool,
    pub language: String,
    pub voice: String,
    pub output_device: Option<String>,
    pub generation: u64,
}

/// `u64::wrapping_add(n, 1)`, the next generation.
pub open spec fn next_generation(n: u64) -> u64 {
    if n == u64::MAX {
        0
    } else {
        (n + 1) as u64
    }
}

impl SpeechSession {
    /// The worker's initial settings: disabled, English, first voice.
    pub fn new() -> (s: SpeechSession)
        ensures
            !s.enabled,
            s.language@ == "en"@,
            s.voice@ == "apple-voice-1"@,
            s.output_device is None,
            s.generation == 1,
    {
        SpeechSession {
            enabled: false,
            language: "en".to_owned(),
            voice: "apple-voice-1".to_owned(),
            output_device: None,
            generation: 1,
        }
    }

    fn bump(&mut self)
        ensures
            final(self).generation == next_generation(old(self).generation),
            final(self).enabled == old(self).enabled,
            final(self).language == old(self).language,
            final(self).voice == old(self).voice,
            final(self).output_device == old(self).output_device,
    {
        self.generation = if self.generation == u64::MAX {
            0
        } else {
            self.generation + 1
        };
    }

    /// Applies one command; `installed` lists the installed `(name, locale)`
    /// voices.
    pub fn handle(&mut self, command: SpeechCommand, installed: &[(String, String)]) -> (r: SpeechAction)
        ensures
            match command {
                SpeechCommand::Configure { enabled, language, voice, output_device } => {
                    &&& r is Nothing
                    &&& final(self).generation == next_generation(old(self).generation)
                    &&& final(self).enabled == enabled
                    &&& final(self).language@ == language@
                    &&& final(self).voice@ == voice@
                    &&& opt_view(final(self).output_device) == opt_view(output_device)
                },
                SpeechCommand::Speak(text) => {
                    &&& final(self).generation == old(self).generation
                    &&& final(self).enabled == old(self).enabled
                    &&& final(self).language@ == old(self).language@
                    &&& final(self).voice@ == old(self).voice@
                    &&& opt_view(final(self).output_device) == opt_view(old(self).output_device)
                    &&& match selected(installed_view(installed@), old(self).language@, old(self).voice@) {
                        Some(v) => if old(self).enabled {
                            (r matches SpeechAction::Synthesize(t) && t.generation == old(self).generation
                                && t.voice@ == v && t.text@ == text@ && opt_view(t.output_device)
                                == opt_view(old(self).output_device))
                        } else {
                            r is Nothing
                        },
                        None => r is Nothing,
                    }
                },
                SpeechCommand::Stop => {
                    &&& r is Nothing
                    &&& final(self).generation == next_generation(old(self).generation)
                    &&& !final(self).enabled
                    &&& final(self).language@ == old(self).language@
                    &&& final(self).voice@ == old(self).voice@
                },
                SpeechCommand::Shutdown => {
                    &&& r is Shutdown
                    &&& final(self).generation == next_generation(old(self).generation)
                },
            },
    {
        match command {
            SpeechCommand::Configure { enabled, language, voice, output_device } => {
                self.bump();
                self.enabled = enabled;
                self.language = language;
                self.voice = voice;
                self.output_device = output_device;
                SpeechAction::Nothing
            },
            SpeechCommand::Speak(text) => {
                if !self.enabled {
                    return SpeechAction::Nothing;
                }
                match select_voice(installed, self.language.as_str(), self.voice.as_str()) {
                    Some(voice) => SpeechAction::Synthesize(
                        SynthesisTask {
                            generation: self.generation,
                            voice,
                            output_device: clone_opt(&self.output_device),
                            text,
                        },
                    ),
                    None => SpeechAction::Nothing,
                }
            },
            SpeechCommand::Stop => {
                self.bump();
                self.enabled = false;
                SpeechAction::Nothing
            },
            SpeechCommand::Shutdown => {
                self.bump();
                SpeechAction::Shutdown
            },
        }
    }
}

/// A copy of an optional string.
pub fn clone_opt(o: &Option<String>) -> (r: Option<String>)
    ensures
        opt_view(r) == opt_view(*o),
{
    match o {
        Some(s) => Some(s.clone()),
        None => None,
    }
}

/// Whether synthesized audio of generation `task` may still be played.
pub fn task_is_current(task: u64, current: u64) -> (r: bool)
    ensures
        r == (task == current),
{
    task == current
}

/// After any command but `Speak`, the generation changes, so audio queued
/// before the command is dropped instead of played.
pub proof fn law_commands_retire_queued_audio(g: u64)
    ensures
        next_generation(g) != g,
{
}

/// The command that tells the worker to apply new settings; an unknown
/// voice choice is read as the first one.
pub fn configure_command(enabled: bool, language: &str, voice: &str, output_device: Option<&str>) -> (c: SpeechCommand)
    ensures
        (c matches SpeechCommand::Configure { enabled: e, language: l, voice: v, output_device: o } && e
            == enabled && l@ == language@ && v@ == normalized_voice(voice@) && opt_view(o) == match output_device {
            Some(d) => Some(d@),
            None => None,
        }),
{
    let d = match output_device {
        Some(d) => Some(d.to_owned()),
        None => None,
    };
    SpeechCommand::Configure {
        enabled,
        language: language.to_owned(),
        voice: normalize_voice_id(voice).to_owned(),
        output_device: d,
    }
}

/// The command that asks for `text` to be spoken; blank text asks nothing.
pub fn speak_command(text: String) -> (c: Option<SpeechCommand>)
    ensures
        trim(text@).len() == 0 ==> c is None,
        trim(text@).len() > 0 ==> (c matches Some(SpeechCommand::Speak(t)) && t@ == text@),
{
    let t = trimmed(text.as_str());
    if t.as_str().is_empty() {
        None
    } else {
        Some(SpeechCommand::Speak(text))
    }
}

/// `std::sync::mpsc::Sender`, the worker's command channel.
#[verifier::external_type_specification]
#[verifier::external_body]
#[verifier::reject_recursive_types(T)]
pub struct ExSender<T>(std::sync::mpsc::Sender<T>);

/// Hands a command to the speech worker through
/// `std::sync::mpsc::Sender::send`. Nothing is claimed: a worker that has
/// already stopped drops the command, as the caller intends.
#[verifier::external_body]
fn send_command(sender: &std::sync::mpsc::Sender<SpeechCommand>, command: SpeechCommand) {
    let _ = sender.send(command);
}

/// Front end of the speech worker thread.
pub struct AppleSpeech {
    pub sender: std::sync::mpsc::Sender<SpeechCommand>,
}

impl AppleSpeech {
    /// Wraps the command channel of a running speech worker.
    pub fn with_sender(sender: std::sync::mpsc::Sender<SpeechCommand>) -> (s: AppleSpeech)
        ensures
            s.sender == sender,
    {
        AppleSpeech { sender }
    }

    /// Sends new settings (see `configure_command`).
    pub fn configure(&self, enabled: bool, language: &str, voice: &str, output_device: Option<&str>) {
        send_command(&self.sender, configure_command(enabled, language, voice, output_device));
    }

    /// Asks for `text` to be spoken; blank text is not sent.
    pub fn speak(&self, text: String) {
        match speak_command(text) {
            Some(c) => send_command(&self.sender, c),
            None => {},
        }
    }

    /// Silences the worker and drops everything queued.
    pub fn stop(&self) {
        send_command(&self.sender, SpeechCommand::Stop);
    }

    /// Ends the worker.
    pub fn shutdown(&self) {
        send_command(&self.sender, SpeechCommand::Shutdown);
    }
}

/// The voice a preview plays: the installed approved voice for the
/// language and choice (the choice normalized first).
pub fn preview_voice(installed: &[(String, String)], language: &str, voice: &str) -> (r: Result<String, String>)
    ensures
        match r {
            Ok(v) => selected(installed_view(installed@), language@, normalized_voice(voice@)) == Some(v@),
            Err(e) => selected(installed_view(installed@), language@, normalized_voice(voice@)) is None
                && e@ == "Selected Hen Local voice is unavailable for "@ + language@,
        },
{
    match select_voice(installed, language, normalize_voice_id(voice)) {
        Some(v) => Ok(v),
        None => Err(crate::text::concat("Selected Hen Local voice is unavailable for ", language)),
    }
}

/// The listed voice with this exact name and locale.
pub open spec fn named_voice_index(voices: Seq<(Seq<char>, Seq<char>, Seq<char>)>, name: Seq<char>, locale: Seq<char>) -> Option<int>
    decreases voices.len(),
{
    if voices.len() == 0 {
        None
    } else if voices[0].0 == name && voices[0].1 == locale {
        Some(0)
    } else {
        match named_voice_index(voices.drop_first(), name, locale) {
            Some(i) => Some(i + 1),
            None => None,
        }
    }
}

/// The first listed voice with this exact name and locale, for a named
/// preview.
pub fn find_named_voice(voices: &[SystemVoice], name: &str, locale: &str) -> (r: Result<usize, String>)
    ensures
        match r {
            Ok(i) => named_voice_index(voices@.map_values(|v: SystemVoice| voice_view(v)), name@, locale@)
                == Some(i as int),
            Err(e) => named_voice_index(voices@.map_values(|v: SystemVoice| voice_view(v)), name@, locale@)
                is None && e@ == "Apple system voice is unavailable: "@ + name@ + " ("@ + locale@ + ")"@,
        },
{
    let ghost vv = voices@.map_values(|v: SystemVoice| voice_view(v));
    let mut i: usize = 0;
    assert(vv.subrange(0, vv.len() as int) =~= vv);
    while i < voices.len()
        invariant
            i <= voices@.len(),
            vv == voices@.map_values(|v: SystemVoice| voice_view(v)),
            named_voice_index(vv, name@, locale@) == match named_voice_index(
                vv.subrange(i as int, vv.len() as int),
                name@,
                locale@,
            ) {
                Some(k) => Some(k + i),
                None => None::<int>,
            },
        decreases voices@.len() - i,
    {
        let ghost rest = vv.subrange(i as int, vv.len() as int);
        assert(rest[0] == vv[i as int]);
        if str_eq(voices[i].name.as_str(), name) && str_eq(voices[i].locale.as_str(), locale) {
            return Ok(i);
        }
        assert(rest.drop_first() =~= vv.subrange(i + 1, vv.len() as int));
        i += 1;
    }
    let a = crate::text::concat("Apple system voice is unavailable: ", name);
    let b = crate::text::concat(a.as_str(), " (");
    let c = crate::text::concat(b.as_str(), locale);
    Err(crate::text::concat(c.as_str(), ")"))
}

/// Speech never falls back to a voice that was not chosen: whatever voice
/// is used is the approved voice for the language and choice, installed
/// under its exact name and locale.
pub proof fn law_never_falls_back_to_another_voice(
    installed: Seq<(Seq<char>, Seq<char>)>,
    language: Seq<char>,
    voice: Seq<char>,
)
    requires
        selected(installed, language, voice) is Some,
    ensures
        preferred(language, voice_idx(voice)) matches Some(p) && selected(installed, language, voice)
            == Some(p.0) && installed.contains(p),
{
}

/// Only Chinese and English have approved voices: no other language, and no
/// choice beyond the approved ones, is ever spoken.
pub proof fn law_only_approved_languages_speak(
    installed: Seq<(Seq<char>, Seq<char>)>,
    language: Seq<char>,
    voice: Seq<char>,
)
    requires
        selected(installed, language, voice) is Some,
    ensures
        language == "zh"@ || language == "en"@,
{
}

} // verus!
