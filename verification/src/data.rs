//! Runtime data exchanged between the translation bridges and the UI.

use vstd::prelude::*;

use crate::text::str_eq;

verus! {

/// One finished sentence: what was said and its translation.
#[derive(Debug)]
pub struct SentenceUnit {
    pub source_text: String,
    pub translation: String,
}

/// A snapshot of the subtitle state published to the UI.
#[derive(Debug)]
pub struct TranslationUpdate {
    pub history: Vec<SentenceUnit>,
    pub pending_source_text: String,
    pub completed_count: u64,
}

/// The sentence the translator is currently working on.
#[derive(Debug)]
pub struct StreamingTranslation {
    pub commit_id: i64,
    pub source_text: String,
    pub translation: String,
    pub complete: bool,
}

/// A sentence as a pair of character sequences.
pub open spec fn sentence_view(u: SentenceUnit) -> (Seq<char>, Seq<char>) {
    (u.source_text@, u.translation@)
}

/// The abstract content of a streaming translation.
pub struct ActiveView {
    pub commit_id: i64,
    pub source: Seq<char>,
    pub translation: Seq<char>,
    pub complete: bool,
}

impl SentenceUnit {
    /// A copy of this sentence.
    pub fn duplicate(&self) -> (out: SentenceUnit)
        ensures
            sentence_view(out) == sentence_view(*self),
    {
        SentenceUnit { source_text: self.source_text.clone(), translation: self.translation.clone() }
    }
}

impl StreamingTranslation {
    /// The abstract content of this translation.
    pub open spec fn active_view(&self) -> ActiveView {
        ActiveView {
            commit_id: self.commit_id,
            source: self.source_text@,
            translation: self.translation@,
            complete: self.complete,
        }
    }

    /// A copy of this translation.
    pub fn duplicate(&self) -> (out: StreamingTranslation)
        ensures
            out.active_view() == self.active_view(),
    {
        StreamingTranslation {
            commit_id: self.commit_id,
            source_text: self.source_text.clone(),
            translation: self.translation.clone(),
            complete: self.complete,
        }
    }
}

/// Key-value metadata that travels with a dataflow event; no key occurs
/// twice.
#[derive(Debug)]
pub struct EventMetadata {
    pub values: Vec<(String, String)>,
}

/// Metadata entries as pairs of character sequences.
pub open spec fn entries_view(values: Seq<(String, String)>) -> Seq<(Seq<char>, Seq<char>)> {
    values.map_values(|e: (String, String)| (e.0@, e.1@))
}

/// The value stored under `key`.
pub open spec fn entry_value(entries: Seq<(Seq<char>, Seq<char>)>, key: Seq<char>) -> Option<Seq<char>>
    decreases entries.len(),
{
    if entries.len() == 0 {
        None
    } else if entries.last().0 == key {
        Some(entries.last().1)
    } else {
        entry_value(entries.drop_last(), key)
    }
}

/// Whether no key occurs twice.
pub open spec fn keys_distinct(entries: Seq<(Seq<char>, Seq<char>)>) -> bool {
    forall|i: int, j: int|
        0 <= i < j < entries.len() ==> #[trigger] entries[i].0 != #[trigger] entries[j].0
}

impl EventMetadata {
    /// The entries as plain values.
    pub open spec fn entries(&self) -> Seq<(Seq<char>, Seq<char>)> {
        entries_view(self.values@)
    }

    /// Metadata without entries.
    pub fn new() -> (m: EventMetadata)
        ensures
            m.entries() == Seq::<(Seq<char>, Seq<char>)>::empty(),
    {
        let m = EventMetadata { values: Vec::new() };
        assert(m.entries() =~= Seq::<(Seq<char>, Seq<char>)>::empty());
        m
    }

    /// The value stored under `key`.
    pub fn get(&self, key: &str) -> (r: Option<&str>)
        ensures
            match r {
                Some(v) => entry_value(self.entries(), key@) == Some(v@),
                None => entry_value(self.entries(), key@) is None,
            },
    {
        let mut i = self.values.len();
        assert(self.entries().subrange(0, i as int) =~= self.entries());
        while i > 0
            invariant
                i <= self.values@.len(),
                entry_value(self.entries(), key@) == entry_value(self.entries().subrange(0, i as int), key@),
            decreases i,
        {
            let ghost prefix = self.entries().subrange(0, i as int);
            assert(prefix.last() == self.entries()[i - 1]);
            if str_eq(self.values[i - 1].0.as_str(), key) {
                return Some(self.values[i - 1].1.as_str());
            }
            assert(prefix.drop_last() =~= self.entries().subrange(0, i - 1));
            i -= 1;
        }
        None
    }

    /// Stores `value` under `key`, replacing what was stored there.
    pub fn insert(&mut self, key: String, value: String)
        requires
            keys_distinct(old(self).entries()),
        ensures
            keys_distinct(final(self).entries()),
            entry_value(final(self).entries(), key@) == Some(value@),
            forall|k: Seq<char>| k != key@ ==> entry_value(final(self).entries(), k) == entry_value(old(self).entries(), k),
    {
        let mut i: usize = 0;
        while i < self.values.len()
            invariant
                i <= self.values@.len(),
                self.values@ == old(self).values@,
                keys_distinct(self.entries()),
                forall|j: int| 0 <= j < i ==> (#[trigger] self.entries()[j]).0 != key@,
            decreases self.values@.len() - i,
        {
            if str_eq(self.values[i].0.as_str(), key.as_str()) {
                let ghost before = self.entries();
                assert(before[i as int].0 == key@);
                self.values.set(i, (key, value));
                proof {
                    let after = self.entries();
                    assert(after =~= before.update(i as int, (key@, value@)));
                    assert forall|a: int, b: int| 0 <= a < b < after.len() implies #[trigger] after[a].0
                        != #[trigger] after[b].0 by {
                        assert(before[a].0 != before[b].0);
                    }
                    assert(keys_distinct(after));
                    lemma_value_of_unique(after, i as int);
                    assert forall|k: Seq<char>| k != key@ implies entry_value(after, k) == entry_value(before, k) by {
                        lemma_value_other(before, i as int, (key@, value@), k);
                    }
                }
                return;
            }
            i += 1;
        }
        let ghost before = self.entries();
        self.values.push((key, value));
        proof {
            let after = self.entries();
            assert(after =~= before.push((key@, value@)));
            assert(after.drop_last() =~= before);
            assert(keys_distinct(after));
        }
    }

    /// The `session_status` entry.
    pub fn session_status(&self) -> (r: Option<&str>)
        ensures
            match r {
                Some(v) => entry_value(self.entries(), "session_status"@) == Some(v@),
                None => entry_value(self.entries(), "session_status"@) is None,
            },
    {
        self.get("session_status")
    }

    /// The `question_id` entry.
    pub fn question_id(&self) -> (r: Option<&str>)
        ensures
            match r {
                Some(v) => entry_value(self.entries(), "question_id"@) == Some(v@),
                None => entry_value(self.entries(), "question_id"@) is None,
            },
    {
        self.get("question_id")
    }

    /// The `participant_id` entry.
    pub fn participant_id(&self) -> (r: Option<&str>)
        ensures
            match r {
                Some(v) => entry_value(self.entries(), "participant_id"@) == Some(v@),
                None => entry_value(self.entries(), "participant_id"@) is None,
            },
    {
        self.get("participant_id")
    }
}

/// With distinct keys, the entry at `i` is what its key finds.
pub proof fn lemma_value_of_unique(entries: Seq<(Seq<char>, Seq<char>)>, i: int)
    requires
        keys_distinct(entries),
        0 <= i < entries.len(),
    ensures
        entry_value(entries, entries[i].0) == Some(entries[i].1),
    decreases entries.len(),
{
    if i < entries.len() - 1 {
        let d = entries.drop_last();
        assert(entries.last().0 != entries[i].0);
        assert(keys_distinct(d));
        assert(d[i] == entries[i]);
        lemma_value_of_unique(d, i);
    }
}

/// Changing the entry at `i` leaves every other key's value alone, when
/// the key at `i` stays the same.
pub proof fn lemma_value_other(
    entries: Seq<(Seq<char>, Seq<char>)>,
    i: int,
    e: (Seq<char>, Seq<char>),
    k: Seq<char>,
)
    requires
        0 <= i < entries.len(),
        entries[i].0 == e.0,
        k != e.0,
    ensures
        entry_value(entries.update(i, e), k) == entry_value(entries, k),
    decreases entries.len(),
{
    let u = entries.update(i, e);
    if i < entries.len() - 1 {
        assert(u.drop_last() =~= entries.drop_last().update(i, e));
        lemma_value_other(entries.drop_last(), i, e, k);
    } else {
        assert(u.drop_last() =~= entries.drop_last());
    }
}

} // verus!
