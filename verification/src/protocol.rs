//! Messages understood by the text-to-speech node.
//!
//! ```text
//! VOICE:<name>|<text>
//!     Use a preset voice by name.
//! VOICE:CUSTOM|<ref_wav>|<prompt_text>|<lang>|<text>
//!     Zero-shot voice clone (Express mode).
//! ```

use vstd::prelude::*;

use crate::text::{
    chars_of, find_char, starts_with, has_prefix, lemma_find_char_props, position_of, split_once, string_of,
    strip_prefix, sub_chars, trim, trim_bounds,
};

verus! {

/// A request for the speech node.
#[derive(Debug)]
pub enum TtsRequest {
    /// Use a preset voice from voices.json
    Preset { voice: String, text: String },
    /// Zero-shot voice clone
    Custom { ref_wav: String, prompt_text: String, language: String, text: String },
}

/// The abstract content of a request.
pub enum TtsView {
    Preset(Seq<char>, Seq<char>),
    Custom(Seq<char>, Seq<char>, Seq<char>, Seq<char>),
}

impl TtsRequest {
    /// The abstract content of this request.
    pub open spec fn tts_view(&self) -> TtsView {
        match self {
            TtsRequest::Preset { voice, text } => TtsView::Preset(voice@, text@),
            TtsRequest::Custom { ref_wav, prompt_text, language, text } => TtsView::Custom(
                ref_wav@,
                prompt_text@,
                language@,
                text@,
            ),
        }
    }
}

/// `rest.splitn(4, '|')` when it yields four parts.
pub open spec fn four_fields(rest: Seq<char>) -> Option<(Seq<char>, Seq<char>, Seq<char>, Seq<char>)> {
    match split_once(rest, '|') {
        Some((a, r1)) => match split_once(r1, '|') {
            Some((b, r2)) => match split_once(r2, '|') {
                Some((c, d)) => Some((a, b, c, d)),
                None => None,
            },
            None => None,
        },
        None => None,
    }
}

/// What a message asks for, if it is well formed.
pub open spec fn tts_spec(input: Seq<char>) -> Option<TtsView> {
    match strip_prefix(trim(input), "VOICE:"@) {
        Some(body) => match strip_prefix(body, "CUSTOM|"@) {
            Some(rest) => match four_fields(rest) {
                Some((a, b, c, d)) => Some(TtsView::Custom(a, b, c, d)),
                None => None,
            },
            None => match split_once(body, '|') {
                Some((v, t)) => Some(TtsView::Preset(v, t)),
                None => None,
            },
        },
        None => None,
    }
}

/// Splits `v` at its first `|`.
fn split_bar(v: &[char]) -> (r: Option<(Vec<char>, Vec<char>)>)
    ensures
        match r {
            Some((a, b)) => split_once(v@, '|') == Some((a@, b@)),
            None => split_once(v@, '|') is None,
        },
{
    proof {
        lemma_find_char_props(v@, '|');
    }
    match position_of(v, '|') {
        Some(k) => {
            assert(find_char(v@, '|') == Some(k as int));
            assert(v@.len() == v.len());
            Some((sub_chars(v, 0, k), sub_chars(v, k + 1, v.len())))
        },
        None => None,
    }
}

impl TtsRequest {
    /// Parses a message; anything else is `None`.
    pub fn parse(input: &str) -> (r: Option<TtsRequest>)
        ensures
            match r {
                Some(q) => tts_spec(input@) == Some(q.tts_view()),
                None => tts_spec(input@) is None,
            },
    {
        let all = chars_of(input);
        let (a, b) = trim_bounds(all.as_slice());
        let t = sub_chars(all.as_slice(), a, b);
        let voice_prefix = chars_of("VOICE:");
        if !has_prefix(t.as_slice(), voice_prefix.as_slice()) {
            return None;
        }
        let body = sub_chars(t.as_slice(), voice_prefix.len(), t.len());
        let custom_prefix = chars_of("CUSTOM|");
        if has_prefix(body.as_slice(), custom_prefix.as_slice()) {
            let rest = sub_chars(body.as_slice(), custom_prefix.len(), body.len());
            let (p0, r1) = match split_bar(rest.as_slice()) {
                Some(x) => x,
                None => return None,
            };
            let (p1, r2) = match split_bar(r1.as_slice()) {
                Some(x) => x,
                None => return None,
            };
            let (p2, p3) = match split_bar(r2.as_slice()) {
                Some(x) => x,
                None => return None,
            };
            return Some(
                TtsRequest::Custom {
                    ref_wav: string_of(p0.as_slice()),
                    prompt_text: string_of(p1.as_slice()),
                    language: string_of(p2.as_slice()),
                    text: string_of(p3.as_slice()),
                },
            );
        }
        match split_bar(body.as_slice()) {
            Some((voice, text)) => Some(
                TtsRequest::Preset {
                    voice: string_of(voice.as_slice()),
                    text: string_of(text.as_slice()),
                },
            ),
            None => None,
        }
    }
}

/// Splitting at the first `c` cuts `s` into a piece without `c`, the `c`
/// itself, and the rest.
proof fn lemma_split_once_parts(s: Seq<char>, c: char)
    ensures
        split_once(s, c) matches Some((a, b)) ==> !a.contains(c) && a + seq![c] + b == s,
{
    lemma_find_char_props(s, c);
    if let Some((a, b)) = split_once(s, c) {
        let i = find_char(s, c)->Some_0;
        assert forall|k: int| 0 <= k < a.len() implies a[k] != c by {
            assert(a[k] == s[k]);
        }
        assert(a + seq![c] + b =~= s);
    }
}

/// Stripping a prefix leaves what follows it.
proof fn lemma_strip_prefix_parts(s: Seq<char>, p: Seq<char>)
    ensures
        strip_prefix(s, p) matches Some(r) ==> p + r == s,
{
    if let Some(r) = strip_prefix(s, p) {
        assert(p + r =~= s);
    }
}

/// A parsed request prints back to the trimmed message: the voice (or the
/// first three fields of a custom request) hold no `|`, and putting the
/// prefix and the `|` separators back gives the message. A message that
/// starts with `VOICE:CUSTOM|` never asks for a preset voice.
pub proof fn law_parsed_request_prints_back(input: Seq<char>)
    ensures
        tts_spec(input) matches Some(TtsView::Preset(v, t)) ==> !v.contains('|') && "VOICE:"@ + v
            + seq!['|'] + t == trim(input),
        tts_spec(input) matches Some(TtsView::Custom(a, b, c, d)) ==> !a.contains('|') && !b.contains(
            '|',
        ) && !c.contains('|') && "VOICE:CUSTOM|"@ + a + seq!['|'] + b + seq!['|'] + c + seq!['|'] + d
            == trim(input),
        starts_with(trim(input), "VOICE:CUSTOM|"@) ==> !(tts_spec(input) matches Some(
            TtsView::Preset(_, _),
        )),
{
    reveal_strlit("VOICE:");
    reveal_strlit("CUSTOM|");
    reveal_strlit("VOICE:CUSTOM|");
    let t = trim(input);
    lemma_strip_prefix_parts(t, "VOICE:"@);
    if let Some(body) = strip_prefix(t, "VOICE:"@) {
        lemma_strip_prefix_parts(body, "CUSTOM|"@);
        lemma_split_once_parts(body, '|');
        if let Some(rest) = strip_prefix(body, "CUSTOM|"@) {
            lemma_split_once_parts(rest, '|');
            if let Some((a, r1)) = split_once(rest, '|') {
                lemma_split_once_parts(r1, '|');
                if let Some((b, r2)) = split_once(r1, '|') {
                    lemma_split_once_parts(r2, '|');
                    if let Some((c, d)) = split_once(r2, '|') {
                        assert("VOICE:CUSTOM|"@ =~= "VOICE:"@ + "CUSTOM|"@);
                        assert("VOICE:CUSTOM|"@ + a + seq!['|'] + b + seq!['|'] + c + seq!['|'] + d
                            =~= "VOICE:"@ + ("CUSTOM|"@ + (a + seq!['|'] + (b + seq!['|'] + (c + seq!['|'] + d)))));
                    }
                }
            }
        } else {
            if starts_with(t, "VOICE:CUSTOM|"@) {
                assert(body.subrange(0, 7) =~= t.subrange(6, 13));
                assert(t.subrange(6, 13) =~= "VOICE:CUSTOM|"@.subrange(6, 13));
                assert("VOICE:CUSTOM|"@.subrange(6, 13) =~= "CUSTOM|"@);
            }
            if let Some((v, tx)) = split_once(body, '|') {
                assert("VOICE:"@ + v + seq!['|'] + tx =~= "VOICE:"@ + (v + seq!['|'] + tx));
            }
        }
    } else {
        if starts_with(t, "VOICE:CUSTOM|"@) {
            assert(t.subrange(0, 6) =~= "VOICE:CUSTOM|"@.subrange(0, 6));
            assert("VOICE:CUSTOM|"@.subrange(0, 6) =~= "VOICE:"@);
        }
    }
}

} // verus!
