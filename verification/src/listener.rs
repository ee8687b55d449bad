//! Subtitle state kept by the translation listener.
//!
//! The translator node emits progressive source text (`streaming`), the
//! sentence it starts translating (`translating`), finished source sentences
//! (`complete`), and cumulative translation snapshots (`streaming`,
//! `complete`, `failed`). A finished sentence enters the history once its
//! source and its translation are both known, paired by commit id.

use std::collections::{HashMap, HashSet};
use vstd::prelude::*;

use crate::bridge::BridgeState;
use crate::data::{sentence_view, ActiveView, SentenceUnit, StreamingTranslation, TranslationUpdate};
use crate::text::{
    chars_of, concat, has_prefix, str_eq, starts_with, strip_prefix, trim_bounds, trim_start,
    string_of_range,
};

verus! {

broadcast use vstd::std_specs::hash::group_hash_axioms;

/// What the listener shows and remembers between translator events.
#[derive(Debug)]
pub struct TranslationDisplayState {
    pub history: Vec<SentenceUnit>,
    pub pending_source_text: String,
    pub current_source_text: String,
    pub pending_completed_sources: HashMap<i64, String>,
    pub pending_completed_translations: HashMap<i64, String>,
    pub finalized_commit_ids: HashSet<i64>,
    pub completed_count: u64,
    pub active_translation: Option<StreamingTranslation>,
}

/// The abstract listener state.
pub struct DisplayView {
    pub history: Seq<(Seq<char>, Seq<char>)>,
    pub pending: Seq<char>,
    pub current: Seq<char>,
    pub sources: Map<i64, Seq<char>>,
    pub translations: Map<i64, Seq<char>>,
    pub finalized: Set<i64>,
    pub completed: u64,
    pub active: Option<ActiveView>,
}

/// A map of strings, viewed as a map of character sequences.
pub open spec fn string_map_view(m: Map<i64, String>) -> Map<i64, Seq<char>> {
    Map::new(|k: i64| m.contains_key(k), |k: i64| m[k]@)
}

/// The abstract content of an optional streaming translation.
pub open spec fn active_opt_view(a: Option<StreamingTranslation>) -> Option<ActiveView> {
    match a {
        Some(t) => Some(t.active_view()),
        None => None,
    }
}

impl View for TranslationDisplayState {
    type V = DisplayView;

    open spec fn view(&self) -> DisplayView {
        DisplayView {
            history: self.history@.map_values(|u: SentenceUnit| sentence_view(u)),
            pending: self.pending_source_text@,
            current: self.current_source_text@,
            sources: string_map_view(self.pending_completed_sources@),
            translations: string_map_view(self.pending_completed_translations@),
            finalized: self.finalized_commit_ids@,
            completed: self.completed_count,
            active: active_opt_view(self.active_translation),
        }
    }
}

/// The well-formedness of a listener state: a commit id waits in at most
/// one of the two pending maps, and never once it has been finalized.
pub open spec fn display_wf(s: DisplayView) -> bool {
    &&& forall|c: i64| !(#[trigger] s.sources.contains_key(c) && s.translations.contains_key(c))
    &&& forall|c: i64| #[trigger] s.finalized.contains(c) ==> !s.sources.contains_key(c)
    &&& forall|c: i64| #[trigger] s.finalized.contains(c) ==> !s.translations.contains_key(c)
}

/// `u64::saturating_add(n, 1)`.
pub open spec fn sat_inc(n: u64) -> u64 {
    if n == u64::MAX {
        n
    } else {
        (n + 1) as u64
    }
}

/// The state after a finished sentence enters the history.
pub open spec fn push_completed(s: DisplayView, src: Seq<char>, tr: Seq<char>, max: nat) -> DisplayView {
    let h = s.history.push((src, tr));
    DisplayView {
        history: if h.len() > max {
            h.drop_first()
        } else {
            h
        },
        completed: sat_inc(s.completed),
        pending: if s.pending == src {
            Seq::empty()
        } else {
            s.pending
        },
        current: if s.current == src {
            Seq::empty()
        } else {
            s.current
        },
        ..s
    }
}

/// Finalizes commit `c` when both its source and its translation wait.
pub open spec fn finalize_pair(s: DisplayView, c: i64, max: nat) -> (DisplayView, bool) {
    if s.sources.contains_key(c) && s.translations.contains_key(c) {
        (
            push_completed(
                DisplayView {
                    sources: s.sources.remove(c),
                    translations: s.translations.remove(c),
                    finalized: s.finalized.insert(c),
                    ..s
                },
                s.sources[c],
                s.translations[c],
                max,
            ),
            true,
        )
    } else {
        (s, false)
    }
}

/// `x` without the prefix `p` and the whitespace after it; `x` itself when
/// `p` is not a prefix.
pub open spec fn strip_or_keep(x: Seq<char>, p: Seq<char>) -> Seq<char> {
    match strip_prefix(x, p) {
        Some(t) => trim_start(t),
        None => x,
    }
}

/// New ASR text without the sentence that is already being translated.
pub open spec fn strip_active(s: DisplayView, text: Seq<char>) -> Seq<char> {
    match s.active {
        Some(a) => strip_or_keep(text, a.source),
        None => text,
    }
}

/// The effect of a `source_text` event.
pub open spec fn after_source_text(
    s: DisplayView,
    status: Seq<char>,
    text: Seq<char>,
    commit: Option<i64>,
    max: nat,
) -> (DisplayView, bool) {
    if status == "streaming"@ {
        let t = strip_active(s, text);
        (DisplayView { current: t, pending: t, ..s }, false)
    } else if status == "translating"@ {
        match commit {
            None => (s, false),
            Some(c) => (
                DisplayView {
                    pending: strip_or_keep(s.pending, text),
                    current: strip_or_keep(s.current, text),
                    active: Some(
                        ActiveView { commit_id: c, source: text, translation: Seq::empty(), complete: false },
                    ),
                    ..s
                },
                false,
            ),
        }
    } else if status == "complete"@ {
        match commit {
            Some(c) => if s.finalized.contains(c) {
                (s, false)
            } else {
                finalize_pair(DisplayView { sources: s.sources.insert(c, text), ..s }, c, max)
            },
            None => (DisplayView { current: text, ..s }, false),
        }
    } else {
        (DisplayView { current: text, pending: text, ..s }, false)
    }
}

/// The effect of a streaming translation snapshot.
pub open spec fn after_translation_streaming(
    s: DisplayView,
    text: Seq<char>,
    commit: Option<i64>,
    source: Option<Seq<char>>,
) -> (DisplayView, bool) {
    match commit {
        None => (s, false),
        Some(c) => {
            let same = s.active matches Some(a) && a.commit_id == c;
            if !same && source is None {
                (s, false)
            } else {
                let s1 = if same {
                    s
                } else {
                    DisplayView {
                        active: Some(
                            ActiveView {
                                commit_id: c,
                                source: source.unwrap(),
                                translation: Seq::empty(),
                                complete: false,
                            },
                        ),
                        ..s
                    }
                };
                let a = s1.active.unwrap();
                if a.translation == text && !a.complete {
                    (s1, false)
                } else {
                    (
                        DisplayView {
                            active: Some(ActiveView { translation: text, complete: false, ..a }),
                            ..s1
                        },
                        true,
                    )
                }
            }
        },
    }
}

/// The pending text restored after the translation of `source` failed.
pub open spec fn restored_pending(pending: Seq<char>, source: Seq<char>) -> Seq<char> {
    if starts_with(pending, source) {
        pending
    } else if pending.len() == 0 {
        source
    } else {
        source + seq![' '] + pending
    }
}

/// The effect of a failed translation.
pub open spec fn after_translation_failed(s: DisplayView, commit: Option<i64>) -> (DisplayView, bool) {
    match s.active {
        Some(a) => if commit == Some(a.commit_id) {
            let p = restored_pending(s.pending, a.source);
            (DisplayView { active: None, pending: p, current: p, ..s }, true)
        } else {
            (s, false)
        },
        None => (s, false),
    }
}

/// The effect of a completed translation.
pub open spec fn after_translation_complete(
    s: DisplayView,
    text: Seq<char>,
    commit: Option<i64>,
    source: Option<Seq<char>>,
    max: nat,
) -> (DisplayView, bool) {
    match commit {
        Some(c) => if s.finalized.contains(c) {
            (s, false)
        } else {
            match source {
                Some(st) => (
                    push_completed(
                        DisplayView {
                            sources: s.sources.remove(c),
                            translations: s.translations.remove(c),
                            finalized: s.finalized.insert(c),
                            active: Some(
                                ActiveView { commit_id: c, source: st, translation: text, complete: true },
                            ),
                            ..s
                        },
                        st,
                        text,
                        max,
                    ),
                    true,
                ),
                None => finalize_pair(
                    DisplayView { translations: s.translations.insert(c, text), ..s },
                    c,
                    max,
                ),
            }
        },
        None => (push_completed(s, s.current, text, max), true),
    }
}

/// The view of a map after `insert`.
proof fn lemma_map_view_insert(m: Map<i64, String>, k: i64, v: String)
    ensures
        string_map_view(m.insert(k, v)) == string_map_view(m).insert(k, v@),
{
    assert(string_map_view(m.insert(k, v)) =~= string_map_view(m).insert(k, v@));
}

/// The view of a map after `remove`.
proof fn lemma_map_view_remove(m: Map<i64, String>, k: i64)
    ensures
        string_map_view(m.remove(k)) == string_map_view(m).remove(k),
{
    assert(string_map_view(m.remove(k)) =~= string_map_view(m).remove(k));
}

/// `text` without the prefix `p` and the whitespace after it, or `text`.
fn strip_prefix_then_trim(text: &str, p: &str) -> (out: String)
    ensures
        out@ == strip_or_keep(text@, p@),
{
    let t = chars_of(text);
    let q = chars_of(p);
    if has_prefix(t.as_slice(), q.as_slice()) {
        let rest = string_of_range(t.as_slice(), q.len(), t.len());
        let r = chars_of(rest.as_str());
        let (a, _b) = trim_bounds(r.as_slice());
        string_of_range(r.as_slice(), a, r.len())
    } else {
        text.to_owned()
    }
}

impl Default for TranslationDisplayState {
    fn default() -> (s: Self)
        ensures
            s@.history.len() == 0,
            s@.pending.len() == 0,
            s@.current.len() == 0,
            s@.sources.dom().is_empty(),
            s@.translations.dom().is_empty(),
            s@.finalized.is_empty(),
            s@.completed == 0,
            s@.active is None,
            display_wf(s@),
    {
        let s = TranslationDisplayState {
            history: Vec::new(),
            pending_source_text: String::new(),
            current_source_text: String::new(),
            pending_completed_sources: HashMap::new(),
            pending_completed_translations: HashMap::new(),
            finalized_commit_ids: HashSet::new(),
            completed_count: 0,
            active_translation: None,
        };
        assert(s@.history =~= Seq::empty());
        assert(s@.sources.dom() =~= Set::empty());
        assert(s@.translations.dom() =~= Set::empty());
        s
    }
}

impl TranslationDisplayState {
    /// New ASR text without the sentence that is already being translated.
    pub fn strip_active_source_prefix(&self, text: String) -> (out: String)
        ensures
            out@ == strip_active(self@, text@),
    {
        match &self.active_translation {
            None => text,
            Some(active) => strip_prefix_then_trim(text.as_str(), active.source_text.as_str()),
        }
    }

    /// Records a finished sentence.
    pub fn push_completed_sentence(&mut self, source_text: String, translation: String, max_history: usize)
        ensures
            final(self)@ == push_completed(old(self)@, source_text@, translation@, max_history as nat),
    {
        let ghost before = self@;
        let src_copy = source_text.clone();
        self.history.push(SentenceUnit { source_text, translation });
        assert(self.history@.map_values(|u: SentenceUnit| sentence_view(u)) =~= before.history.push(
            (src_copy@, translation@),
        ));
        self.completed_count = self.completed_count.saturating_add(1);
        if self.history.len() > max_history {
            let ghost h = self.history@;
            self.history.remove(0);
            assert(self.history@.map_values(|u: SentenceUnit| sentence_view(u)) =~= h.map_values(
                |u: SentenceUnit| sentence_view(u),
            ).drop_first());
        }
        if self.pending_source_text == src_copy {
            self.pending_source_text = String::new();
        }
        if self.current_source_text == src_copy {
            self.current_source_text = String::new();
        }
    }

    /// Finalizes `commit_id` when its source and translation both wait.
    pub fn try_finalize_complete_pair(&mut self, commit_id: i64, max_history: usize) -> (r: bool)
        ensures
            (final(self)@, r) == finalize_pair(old(self)@, commit_id, max_history as nat),
    {
        let ghost before = self@;
        let source_text = match self.pending_completed_sources.remove(&commit_id) {
            Some(s) => s,
            None => {
                proof { lemma_map_view_remove(old(self).pending_completed_sources@, commit_id); }
                assert(self@.sources =~= before.sources);
                return false;
            },
        };
        let translation = match self.pending_completed_translations.remove(&commit_id) {
            Some(t) => t,
            None => {
                proof { lemma_map_view_remove(old(self).pending_completed_translations@, commit_id); }
                self.pending_completed_sources.insert(commit_id, source_text);
                assert(self@.sources =~= before.sources);
                assert(self@.translations =~= before.translations);
                return false;
            },
        };
        proof {
            lemma_map_view_remove(old(self).pending_completed_sources@, commit_id);
            lemma_map_view_remove(old(self).pending_completed_translations@, commit_id);
        }
        self.finalized_commit_ids.insert(commit_id);
        self.push_completed_sentence(source_text, translation, max_history);
        true
    }

    /// Handles a `source_text` event.
    pub fn handle_source_text(
        &mut self,
        session_status: &str,
        text: String,
        commit_id: Option<i64>,
        max_history: usize,
    ) -> (r: bool)
        ensures
            (final(self)@, r) == after_source_text(
                old(self)@,
                session_status@,
                text@,
                commit_id,
                max_history as nat,
            ),
    {
        if str_eq(session_status, "streaming") {
            let text = self.strip_active_source_prefix(text);
            self.current_source_text = text.clone();
            self.pending_source_text = text;
            false
        } else if str_eq(session_status, "translating") {
            let commit_id = match commit_id {
                Some(c) => c,
                None => return false,
            };
            self.pending_source_text = strip_prefix_then_trim(
                self.pending_source_text.as_str(),
                text.as_str(),
            );
            self.current_source_text = strip_prefix_then_trim(
                self.current_source_text.as_str(),
                text.as_str(),
            );
            self.active_translation = Some(
                StreamingTranslation {
                    commit_id,
                    source_text: text,
                    translation: String::new(),
                    complete: false,
                },
            );
            false
        } else if str_eq(session_status, "complete") {
            match commit_id {
                Some(commit_id) => {
                    if self.finalized_commit_ids.contains(&commit_id) {
                        return false;
                    }
                    proof { lemma_map_view_insert(self.pending_completed_sources@, commit_id, text); }
                    self.pending_completed_sources.insert(commit_id, text);
                    self.try_finalize_complete_pair(commit_id, max_history)
                },
                None => {
                    self.current_source_text = text;
                    false
                },
            }
        } else {
            self.current_source_text = text.clone();
            self.pending_source_text = text;
            false
        }
    }

    /// Handles a streaming translation snapshot.
    pub fn handle_translation_streaming(
        &mut self,
        text: String,
        commit_id: Option<i64>,
        source_text: Option<String>,
    ) -> (r: bool)
        ensures
            (final(self)@, r) == after_translation_streaming(
                old(self)@,
                text@,
                commit_id,
                match source_text {
                    Some(s) => Some(s@),
                    None => None,
                },
            ),
    {
        let commit_id = match commit_id {
            Some(c) => c,
            None => return false,
        };
        let same = match &self.active_translation {
            Some(active) => active.commit_id == commit_id,
            None => false,
        };
        if !same {
            let source_text = match source_text {
                Some(s) => s,
                None => return false,
            };
            self.active_translation = Some(
                StreamingTranslation {
                    commit_id,
                    source_text,
                    translation: String::new(),
                    complete: false,
                },
            );
        }
        let active = match self.active_translation.take() {
            Some(a) => a,
            None => return false,
        };
        if active.translation == text && !active.complete {
            self.active_translation = Some(active);
            return false;
        }
        self.active_translation = Some(
            StreamingTranslation {
                commit_id: active.commit_id,
                source_text: active.source_text,
                translation: text,
                complete: false,
            },
        );
        true
    }

    /// Handles a failed translation: the sentence goes back to the pending
    /// text so a retry does not lose it.
    pub fn handle_translation_failed(&mut self, commit_id: Option<i64>) -> (r: bool)
        ensures
            (final(self)@, r) == after_translation_failed(old(self)@, commit_id),
    {
        let matches = match &self.active_translation {
            Some(active) => match commit_id {
                Some(c) => active.commit_id == c,
                None => false,
            },
            None => false,
        };
        if !matches {
            return false;
        }
        let active = match self.active_translation.take() {
            Some(a) => a,
            None => return false,
        };
        let pending = chars_of(self.pending_source_text.as_str());
        let source = chars_of(active.source_text.as_str());
        if !has_prefix(pending.as_slice(), source.as_slice()) {
            if self.pending_source_text.as_str().is_empty() {
                self.pending_source_text = active.source_text;
            } else {
                proof {
                    reveal_strlit(" ");
                    assert(" "@ =~= seq![' ']);
                }
                let with_space = concat(active.source_text.as_str(), " ");
                self.pending_source_text = concat(with_space.as_str(), self.pending_source_text.as_str());
            }
        }
        self.current_source_text = self.pending_source_text.clone();
        true
    }

    /// Handles a completed translation.
    pub fn handle_translation_complete(
        &mut self,
        text: String,
        commit_id: Option<i64>,
        source_text: Option<String>,
        max_history: usize,
    ) -> (r: bool)
        ensures
            (final(self)@, r) == after_translation_complete(
                old(self)@,
                text@,
                commit_id,
                match source_text {
                    Some(s) => Some(s@),
                    None => None,
                },
                max_history as nat,
            ),
    {
        match commit_id {
            Some(commit_id) => {
                if self.finalized_commit_ids.contains(&commit_id) {
                    return false;
                }
                match source_text {
                    Some(source_text) => {
                        proof {
                            lemma_map_view_remove(self.pending_completed_sources@, commit_id);
                            lemma_map_view_remove(self.pending_completed_translations@, commit_id);
                        }
                        self.pending_completed_sources.remove(&commit_id);
                        self.pending_completed_translations.remove(&commit_id);
                        self.finalized_commit_ids.insert(commit_id);
                        self.active_translation = Some(
                            StreamingTranslation {
                                commit_id,
                                source_text: source_text.clone(),
                                translation: text.clone(),
                                complete: true,
                            },
                        );
                        self.push_completed_sentence(source_text, text, max_history);
                        true
                    },
                    None => {
                        proof {
                            lemma_map_view_insert(self.pending_completed_translations@, commit_id, text);
                        }
                        self.pending_completed_translations.insert(commit_id, text);
                        self.try_finalize_complete_pair(commit_id, max_history)
                    },
                }
            },
            None => {
                let current = self.current_source_text.clone();
                self.push_completed_sentence(current, text, max_history);
                true
            },
        }
    }

    /// The snapshot published to the UI.
    pub fn snapshot(&self) -> (u: TranslationUpdate)
        ensures
            u.history@.map_values(|x: SentenceUnit| sentence_view(x)) == self@.history,
            u.pending_source_text@ == self@.pending,
            u.completed_count == self@.completed,
    {
        let mut history: Vec<SentenceUnit> = Vec::new();
        let mut i: usize = 0;
        while i < self.history.len()
            invariant
                i <= self.history@.len(),
                history@.len() == i,
                forall|j: int| 0 <= j < i ==> sentence_view(#[trigger] history@[j]) == sentence_view(
                    self.history@[j],
                ),
            decreases self.history@.len() - i,
        {
            history.push(self.history[i].duplicate());
            i += 1;
        }
        assert(history@.map_values(|x: SentenceUnit| sentence_view(x)) =~= self@.history);
        TranslationUpdate {
            history,
            pending_source_text: self.pending_source_text.clone(),
            completed_count: self.completed_count,
        }
    }
}


/// What the listener publishes after an event: whether the subtitle
/// snapshot is published, and what becomes of the streaming sentence shown
/// to the UI.
#[derive(Debug, Clone, Copy, PartialEq, Eq, Structural)]
pub enum StreamEffect {
    Keep,
    PublishActive,
    Clear,
}

/// The view of an optional string.
pub open spec fn opt_seq(o: Option<String>) -> Option<Seq<char>> {
    match o {
        Some(s) => Some(s@),
        None => None,
    }
}

/// One event of the translator node: `id` names its input (`log`,
/// `source_text` or `translation`), `status` its `session_status`
/// (`streaming` for source text and `complete` for translations when
/// absent). Returns the new state, whether the snapshot is published, and
/// the effect on the streaming sentence.
pub open spec fn listener_step(
    s: DisplayView,
    id: Seq<char>,
    text: Seq<char>,
    status: Option<Seq<char>>,
    commit: Option<i64>,
    source: Option<Seq<char>>,
    max: nat,
) -> (DisplayView, bool, StreamEffect) {
    if id == "source_text"@ {
        let st = match status {
            Some(x) => x,
            None => "streaming"@,
        };
        (
            after_source_text(s, st, text, commit, max).0,
            true,
            if st == "translating"@ {
                StreamEffect::PublishActive
            } else {
                StreamEffect::Keep
            },
        )
    } else if id == "translation"@ {
        let st = match status {
            Some(x) => x,
            None => "complete"@,
        };
        if st == "streaming"@ {
            let (t, changed) = after_translation_streaming(s, text, commit, source);
            (
                t,
                false,
                if changed {
                    StreamEffect::PublishActive
                } else {
                    StreamEffect::Keep
                },
            )
        } else if st == "complete"@ {
            (after_translation_complete(s, text, commit, source, max).0, true, StreamEffect::PublishActive)
        } else if st == "failed"@ {
            let (t, restored) = after_translation_failed(s, commit);
            if restored {
                (t, true, StreamEffect::Clear)
            } else {
                (t, false, StreamEffect::Keep)
            }
        } else {
            (s, false, StreamEffect::Keep)
        }
    } else {
        (s, false, StreamEffect::Keep)
    }
}

impl TranslationDisplayState {
    /// Handles one input event of the translator node; returns whether the
    /// subtitle snapshot is to be published and what to do with the
    /// streaming sentence shown to the UI.
    pub fn handle_input(
        &mut self,
        id: &str,
        text: String,
        session_status: Option<String>,
        commit_id: Option<i64>,
        source_text: Option<String>,
        max_history: usize,
    ) -> (r: (bool, StreamEffect))
        ensures
            (final(self)@, r.0, r.1) == listener_step(
                old(self)@,
                id@,
                text@,
                opt_seq(session_status),
                commit_id,
                opt_seq(source_text),
                max_history as nat,
            ),
            display_wf(old(self)@) ==> display_wf(final(self)@),
    {
        proof {
            reveal_strlit("streaming");
            reveal_strlit("complete");
        }
        if str_eq(id, "source_text") {
            let status = match session_status {
                Some(x) => x,
                None => "streaming".to_string(),
            };
            let translating = str_eq(status.as_str(), "translating");
            let ghost tv = text@;
            proof {
                if display_wf(old(self)@) {
                    law_events_preserve_wf(old(self)@, status@, tv, commit_id, None, max_history as nat);
                }
            }
            self.handle_source_text(status.as_str(), text, commit_id, max_history);
            (
                true,
                if translating {
                    StreamEffect::PublishActive
                } else {
                    StreamEffect::Keep
                },
            )
        } else if str_eq(id, "translation") {
            let status = match session_status {
                Some(x) => x,
                None => "complete".to_string(),
            };
            if str_eq(status.as_str(), "streaming") {
                proof {
                    if display_wf(old(self)@) {
                        law_events_preserve_wf(
                            old(self)@,
                            status@,
                            text@,
                            commit_id,
                            opt_seq(source_text),
                            max_history as nat,
                        );
                    }
                }
                let changed = self.handle_translation_streaming(text, commit_id, source_text);
                (
                    false,
                    if changed {
                        StreamEffect::PublishActive
                    } else {
                        StreamEffect::Keep
                    },
                )
            } else if str_eq(status.as_str(), "complete") {
                proof {
                    if display_wf(old(self)@) {
                        law_events_preserve_wf(
                            old(self)@,
                            status@,
                            text@,
                            commit_id,
                            opt_seq(source_text),
                            max_history as nat,
                        );
                    }
                }
                self.handle_translation_complete(text, commit_id, source_text, max_history);
                (true, StreamEffect::PublishActive)
            } else if str_eq(status.as_str(), "failed") {
                proof {
                    if display_wf(old(self)@) {
                        law_events_preserve_wf(old(self)@, status@, text@, commit_id, None, max_history as nat);
                    }
                }
                let restored = self.handle_translation_failed(commit_id);
                if restored {
                    (true, StreamEffect::Clear)
                } else {
                    (false, StreamEffect::Keep)
                }
            } else {
                (false, StreamEffect::Keep)
            }
        } else {
            (false, StreamEffect::Keep)
        }
    }
}

/// Every listener event keeps the state well formed: a commit id waits in at
/// most one pending map, and a finalized commit never waits again.
pub proof fn law_events_preserve_wf(
    s: DisplayView,
    status: Seq<char>,
    text: Seq<char>,
    commit: Option<i64>,
    source: Option<Seq<char>>,
    max: nat,
)
    requires
        display_wf(s),
    ensures
        display_wf(after_source_text(s, status, text, commit, max).0),
        display_wf(after_translation_streaming(s, text, commit, source).0),
        display_wf(after_translation_failed(s, commit).0),
        display_wf(after_translation_complete(s, text, commit, source, max).0),
{
    if let Some(c) = commit {
        let s1 = DisplayView { sources: s.sources.insert(c, text), ..s };
        if !s.finalized.contains(c) && s1.translations.contains_key(c) {
            let s2 = DisplayView {
                sources: s1.sources.remove(c),
                translations: s1.translations.remove(c),
                finalized: s1.finalized.insert(c),
                ..s1
            };
            assert(display_wf(s2));
        }
        let t1 = DisplayView { translations: s.translations.insert(c, text), ..s };
        if !s.finalized.contains(c) && t1.sources.contains_key(c) {
            let t2 = DisplayView {
                sources: t1.sources.remove(c),
                translations: t1.translations.remove(c),
                finalized: t1.finalized.insert(c),
                ..t1
            };
            assert(display_wf(t2));
        }
    }
}

/// A history that holds at most `max` sentences still does after any event.
pub proof fn law_history_stays_bounded(
    s: DisplayView,
    status: Seq<char>,
    text: Seq<char>,
    commit: Option<i64>,
    source: Option<Seq<char>>,
    max: nat,
)
    requires
        s.history.len() <= max,
    ensures
        after_source_text(s, status, text, commit, max).0.history.len() <= max,
        after_translation_streaming(s, text, commit, source).0.history.len() <= max,
        after_translation_failed(s, commit).0.history.len() <= max,
        after_translation_complete(s, text, commit, source, max).0.history.len() <= max,
{
}

/// Once a commit id is finalized, further completions for it are ignored:
/// nothing changes and no sentence is added twice.
pub proof fn law_finalized_commit_is_never_repeated(
    s: DisplayView,
    text: Seq<char>,
    c: i64,
    source: Option<Seq<char>>,
    max: nat,
)
    requires
        s.finalized.contains(c),
    ensures
        after_source_text(s, "complete"@, text, Some(c), max) == (s, false),
        after_translation_complete(s, text, Some(c), source, max) == (s, false),
{
    reveal_strlit("complete");
    reveal_strlit("streaming");
    reveal_strlit("translating");
    assert("complete"@[0] != "streaming"@[0]);
    assert("complete"@[0] != "translating"@[0]);
}

/// Finalized commit ids are never forgotten, and the completed-sentence
/// count never goes down.
pub proof fn law_finalized_and_count_only_grow(
    s: DisplayView,
    status: Seq<char>,
    text: Seq<char>,
    commit: Option<i64>,
    source: Option<Seq<char>>,
    max: nat,
)
    ensures
        s.finalized.subset_of(after_source_text(s, status, text, commit, max).0.finalized),
        s.finalized.subset_of(after_translation_complete(s, text, commit, source, max).0.finalized),
        after_translation_streaming(s, text, commit, source).0.finalized == s.finalized,
        after_translation_failed(s, commit).0.finalized == s.finalized,
        s.completed <= after_source_text(s, status, text, commit, max).0.completed,
        s.completed <= after_translation_complete(s, text, commit, source, max).0.completed,
{
}

/// The sentence just pushed is the last one of the history.
proof fn lemma_push_completed_last(s: DisplayView, src: Seq<char>, tr: Seq<char>, max: nat)
    ensures
        max > 0 ==> push_completed(s, src, tr, max).history.last() == (src, tr),
        push_completed(s, src, tr, max).completed == sat_inc(s.completed),
{
    let h = s.history.push((src, tr));
    if max > 0 && h.len() > max {
        assert(h.drop_first().last() == h.last());
    }
}

/// A reported completion adds exactly one sentence: the count goes up by
/// one (saturating) and, when the history may hold anything, its last
/// sentence is the one just completed.
pub proof fn law_completion_adds_one_sentence(
    s: DisplayView,
    text: Seq<char>,
    commit: Option<i64>,
    source: Option<Seq<char>>,
    max: nat,
)
    requires
        after_translation_complete(s, text, commit, source, max).1,
    ensures
        ({
            let n = after_translation_complete(s, text, commit, source, max).0;
            &&& n.completed == sat_inc(s.completed)
            &&& max > 0 ==> n.history.last().1 == text
            &&& max > 0 && commit is Some && source is Some ==> n.history.last().0 == source.unwrap()
        }),
{
    match commit {
        Some(c) => match source {
            Some(st) => {
                let s1 = DisplayView {
                    sources: s.sources.remove(c),
                    translations: s.translations.remove(c),
                    finalized: s.finalized.insert(c),
                    active: Some(ActiveView { commit_id: c, source: st, translation: text, complete: true }),
                    ..s
                };
                lemma_push_completed_last(s1, st, text, max);
            },
            None => {
                let t1 = DisplayView { translations: s.translations.insert(c, text), ..s };
                let t2 = DisplayView {
                    sources: t1.sources.remove(c),
                    translations: t1.translations.remove(c),
                    finalized: t1.finalized.insert(c),
                    ..t1
                };
                assert(t1.translations[c] == text);
                lemma_push_completed_last(t2, t1.sources[c], t1.translations[c], max);
            },
        },
        None => {
            lemma_push_completed_last(s, s.current, text, max);
        },
    }
}

/// The source and the translation of one commit are paired by its id,
/// whichever arrives first and whatever ASR text streamed in between.
pub proof fn law_pairing_by_commit_id(
    s: DisplayView,
    c: i64,
    src: Seq<char>,
    tr: Seq<char>,
    max: nat,
)
    requires
        display_wf(s),
        !s.finalized.contains(c),
        !s.sources.contains_key(c),
        !s.translations.contains_key(c),
        max > 0,
    ensures
        ({
            let (s1, r1) = after_source_text(s, "complete"@, src, Some(c), max);
            let (s2, r2) = after_translation_complete(s1, tr, Some(c), None, max);
            &&& !r1 && r2
            &&& s2.history.last() == (src, tr)
            &&& s2.completed == sat_inc(s.completed)
            &&& s2.finalized.contains(c)
        }),
        ({
            let (t1, q1) = after_translation_complete(s, tr, Some(c), None, max);
            let (t2, q2) = after_source_text(t1, "complete"@, src, Some(c), max);
            &&& !q1 && q2
            &&& t2.history.last() == (src, tr)
            &&& t2.completed == sat_inc(s.completed)
            &&& t2.finalized.contains(c)
        }),
{
    reveal_strlit("complete");
    reveal_strlit("streaming");
    reveal_strlit("translating");
    assert("complete"@[0] != "streaming"@[0]);
    assert("complete"@[0] != "translating"@[0]);
    let s1 = DisplayView { sources: s.sources.insert(c, src), ..s };
    let t1 = DisplayView { translations: s1.translations.insert(c, tr), ..s1 };
    let t2 = DisplayView {
        sources: t1.sources.remove(c),
        translations: t1.translations.remove(c),
        finalized: t1.finalized.insert(c),
        ..t1
    };
    lemma_push_completed_last(t2, src, tr, max);
    let u1 = DisplayView { translations: s.translations.insert(c, tr), ..s };
    let u2 = DisplayView { sources: u1.sources.insert(c, src), ..u1 };
    let u3 = DisplayView {
        sources: u2.sources.remove(c),
        translations: u2.translations.remove(c),
        finalized: u2.finalized.insert(c),
        ..u2
    };
    lemma_push_completed_last(u3, src, tr, max);
}

/// A failed translation puts its sentence back in front of the pending
/// text, so nothing said is lost before the retry.
pub proof fn law_failed_translation_restores_source(s: DisplayView, c: i64)
    requires
        s.active matches Some(a) && a.commit_id == c,
    ensures
        ({
            let (n, r) = after_translation_failed(s, Some(c));
            &&& r
            &&& n.active is None
            &&& starts_with(n.pending, s.active.unwrap().source)
            &&& n.current == n.pending
            &&& n.history == s.history
        }),
{
    let a = s.active.unwrap();
    let p = restored_pending(s.pending, a.source);
    if !starts_with(s.pending, a.source) && s.pending.len() != 0 {
        assert((a.source + seq![' '] + s.pending).subrange(0, a.source.len() as int) =~= a.source);
    } else if !starts_with(s.pending, a.source) {
        assert(a.source.subrange(0, a.source.len() as int) =~= a.source);
    }
}


// ---------------------------------------------------------------------
// The listener worker's life cycle
// ---------------------------------------------------------------------

/// What happens to the translation listener's worker, apart from inputs
/// (those go to `handle_input`).
#[derive(Debug, Clone, Copy, PartialEq, Eq, Structural)]
pub enum ListenerEvent {
    /// The dora node could not be initialized.
    InitFailed,
    /// The dora node is up.
    Initialized,
    /// A stop signal from the bridge, or dora's own stop event.
    StopRequested,
    /// An input closed.
    InputClosed,
    /// dora reported an error.
    DoraError,
    /// Any other dora event.
    Other,
}

/// What the worker does with the shared bridge registry.
#[derive(Debug, Clone, Copy, PartialEq, Eq, Structural)]
pub enum RegistryAction {
    Nothing,
    /// List the node among the active bridges.
    Register,
    /// Take the node off the active bridges.
    Unregister,
}

/// The worker's next state: its connection state, what it does with the
/// bridge registry, whether it clears the streaming sentence shown to the
/// UI, and whether it keeps listening.
#[derive(Debug, Clone, Copy, PartialEq, Eq, Structural)]
pub struct ListenerStep {
    pub state: BridgeState,
    pub registry: RegistryAction,
    pub clear_stream: bool,
    pub keep_running: bool,
}

/// The listener's life cycle: a node that fails to start leaves the bridge
/// in error; once up it is connected and registered with an empty stream;
/// a stop disconnects it, clears the stream and unregisters it; other
/// events change nothing.
pub open spec fn listener_lifecycle(state: BridgeState, event: ListenerEvent) -> ListenerStep {
    match event {
        ListenerEvent::InitFailed => ListenerStep {
            state: BridgeState::Error,
            registry: RegistryAction::Nothing,
            clear_stream: false,
            keep_running: false,
        },
        ListenerEvent::Initialized => ListenerStep {
            state: BridgeState::Connected,
            registry: RegistryAction::Register,
            clear_stream: true,
            keep_running: true,
        },
        ListenerEvent::StopRequested => ListenerStep {
            state: BridgeState::Disconnected,
            registry: RegistryAction::Unregister,
            clear_stream: true,
            keep_running: false,
        },
        _ => ListenerStep {
            state,
            registry: RegistryAction::Nothing,
            clear_stream: false,
            keep_running: true,
        },
    }
}

/// One step of the listener's life cycle from connection state `state`.
pub fn listener_lifecycle_step(state: BridgeState, event: ListenerEvent) -> (r: ListenerStep)
    ensures
        r == listener_lifecycle(state, event),
{
    match event {
        ListenerEvent::InitFailed => ListenerStep {
            state: BridgeState::Error,
            registry: RegistryAction::Nothing,
            clear_stream: false,
            keep_running: false,
        },
        ListenerEvent::Initialized => ListenerStep {
            state: BridgeState::Connected,
            registry: RegistryAction::Register,
            clear_stream: true,
            keep_running: true,
        },
        ListenerEvent::StopRequested => ListenerStep {
            state: BridgeState::Disconnected,
            registry: RegistryAction::Unregister,
            clear_stream: true,
            keep_running: false,
        },
        ListenerEvent::InputClosed | ListenerEvent::DoraError | ListenerEvent::Other => ListenerStep {
            state,
            registry: RegistryAction::Nothing,
            clear_stream: false,
            keep_running: true,
        },
    }
}

/// A listener that stops always ends disconnected and unregistered, and
/// only a node that is up gets registered.
pub proof fn law_listener_registers_only_while_up(state: BridgeState, event: ListenerEvent)
    ensures
        !listener_lifecycle(state, event).keep_running ==> listener_lifecycle(state, event).registry
            != RegistryAction::Register,
        listener_lifecycle(state, event).registry == RegistryAction::Register ==> listener_lifecycle(
            state,
            event,
        ).state == BridgeState::Connected,
        event == ListenerEvent::StopRequested ==> listener_lifecycle(state, event).state
            == BridgeState::Disconnected && listener_lifecycle(state, event).registry
            == RegistryAction::Unregister,
{
}

} // verus!
