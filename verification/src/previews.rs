//! Choosing which branded voice previews to generate and where their
//! reference recordings and outputs live.

use vstd::prelude::*;

use crate::preferences::{join_path, path_join};
use crate::text::{
    chars_of, concat, find_char, lemma_find_char_props, position_of, sub_chars, trim, trim_bounds,
};

verus! {

/// `str::split` on one character: the pieces between separators, at least
/// one.
pub open spec fn split_on(s: Seq<char>, c: char) -> Seq<Seq<char>>
    decreases s.len(),
{
    match find_char(s, c) {
        Some(i) => if 0 <= i < s.len() {
            seq![s.subrange(0, i)] + split_on(s.subrange(i + 1, s.len() as int), c)
        } else {
            seq![s]
        },
        None => seq![s],
    }
}

/// ASCII lowercase of one character.
pub open spec fn ascii_lower(c: char) -> char {
    if 'A' <= c && c <= 'Z' {
        ((c as u32) + 32) as char
    } else {
        c
    }
}

/// `str::eq_ignore_ascii_case`.
pub open spec fn eq_ignore_ascii_case(a: Seq<char>, b: Seq<char>) -> bool {
    a.len() == b.len() && forall|i: int| 0 <= i < a.len() ==> ascii_lower(#[trigger] a[i]) == ascii_lower(b[i])
}

/// ASCII lowercase of one character.
fn lower(c: char) -> (r: char)
    ensures
        r == ascii_lower(c),
{
    if 'A' <= c && c <= 'Z' {
        ((c as u32) + 32) as u8 as char
    } else {
        c
    }
}

/// Compares ignoring ASCII case.
fn same_ignoring_case(a: &[char], b: &[char]) -> (r: bool)
    ensures
        r == eq_ignore_ascii_case(a@, b@),
{
    if a.len() != b.len() {
        return false;
    }
    let mut i: usize = 0;
    while i < a.len()
        invariant
            i <= a@.len(),
            a@.len() == b@.len(),
            forall|j: int| 0 <= j < i ==> ascii_lower(#[trigger] a@[j]) == ascii_lower(b@[j]),
        decreases a@.len() - i,
    {
        if lower(a[i]) != lower(b[i]) {
            return false;
        }
        i += 1;
    }
    true
}

/// Whether a voice is to be generated: every voice when no selection is
/// given, else those named in the comma-separated selection, in any ASCII
/// case and with surrounding whitespace ignored.
pub open spec fn voice_selected_in(selection: Option<Seq<char>>, id: Seq<char>) -> bool {
    match selection {
        None => true,
        Some(list) => exists|k: int|
            0 <= k < split_on(list, ',').len() && eq_ignore_ascii_case(
                trim(#[trigger] split_on(list, ',')[k]),
                id,
            ),
    }
}

/// Whether some piece of `rest` (split on commas) names `id`.
fn listed_in(rest: &[char], id: &[char]) -> (r: bool)
    ensures
        r == exists|k: int|
            0 <= k < split_on(rest@, ',').len() && eq_ignore_ascii_case(
                trim(#[trigger] split_on(rest@, ',')[k]),
                id@,
            ),
    decreases rest@.len(),
{
    proof {
        lemma_find_char_props(rest@, ',');
    }
    let (piece_end, next) = match position_of(rest, ',') {
        Some(i) => {
            assert(i < rest@.len());
            assert(rest@.len() == rest.len());
            (i, Some(i + 1))
        },
        None => (rest.len(), None),
    };
    let piece = sub_chars(rest, 0, piece_end);
    let (a, b) = trim_bounds(piece.as_slice());
    let t = sub_chars(piece.as_slice(), a, b);
    let here = same_ignoring_case(t.as_slice(), id);
    let ghost parts = split_on(rest@, ',');
    assert(t@ == trim(piece@));
    match next {
        Some(n) => {
            let tail = sub_chars(rest, n, rest.len());
            let later = listed_in(tail.as_slice(), id);
            proof {
                assert(parts =~= seq![rest@.subrange(0, piece_end as int)] + split_on(tail@, ','));
                assert(parts[0] == piece@);
                if here {
                    assert(eq_ignore_ascii_case(trim(parts[0]), id@));
                }
                if later {
                    let k = choose|k: int|
                        0 <= k < split_on(tail@, ',').len() && eq_ignore_ascii_case(
                            trim(#[trigger] split_on(tail@, ',')[k]),
                            id@,
                        );
                    assert(parts[k + 1] == split_on(tail@, ',')[k]);
                }
                if !here && !later {
                    assert forall|k: int| 0 <= k < parts.len() implies !eq_ignore_ascii_case(
                        trim(#[trigger] parts[k]),
                        id@,
                    ) by {
                        if k > 0 {
                            assert(parts[k] == split_on(tail@, ',')[k - 1]);
                        }
                    }
                }
            }
            here || later
        },
        None => {
            proof {
                assert(parts =~= seq![rest@]);
                assert(piece@ =~= rest@);
                assert(parts[0] == piece@);
                if here {
                    assert(eq_ignore_ascii_case(trim(parts[0]), id@));
                }
            }
            here
        },
    }
}

/// Whether the voice `id` is to be generated, given the optional selection
/// list.
pub fn voice_is_selected(selection: Option<&str>, id: &str) -> (r: bool)
    ensures
        r == voice_selected_in(
            match selection {
                Some(s) => Some(s@),
                None => None,
            },
            id@,
        ),
{
    match selection {
        None => true,
        Some(list) => {
            let l = chars_of(list);
            let i = chars_of(id);
            listed_in(l.as_slice(), i.as_slice())
        },
    }
}

/// The speech models' root: the configured one, else under the home
/// directory (the working directory when there is none).
pub open spec fn qwen_root_of(configured: Option<Seq<char>>, home: Option<Seq<char>>) -> Seq<char> {
    match configured {
        Some(r) => r,
        None => path_join(
            match home {
                Some(h) => h,
                None => "."@,
            },
            ".OminiX/models/qwen3-tts-mlx"@,
        ),
    }
}

/// The speech models' root directory.
pub fn qwen_root(configured: Option<&str>, home: Option<&str>) -> (r: String)
    ensures
        r@ == qwen_root_of(
            match configured {
                Some(s) => Some(s@),
                None => None,
            },
            match home {
                Some(s) => Some(s@),
                None => None,
            },
        ),
{
    proof {
        reveal_strlit(".");
    }
    match configured {
        Some(r) => r.to_string(),
        None => match home {
            Some(h) => join_path(h, ".OminiX/models/qwen3-tts-mlx"),
            None => join_path(".", ".OminiX/models/qwen3-tts-mlx"),
        },
    }
}

/// A directory given by its own setting, else `name` under the root.
pub fn dir_or_under_root(configured: Option<&str>, root: &str, name: &str) -> (r: String)
    ensures
        r@ == match configured {
            Some(s) => s@,
            None => path_join(root@, name@),
        },
{
    match configured {
        Some(s) => s.to_string(),
        None => join_path(root, name),
    }
}

/// Where a cloned voice's reference recording may be: the model cache,
/// then the copy bundled with the node.
pub fn voice_dir_candidates(id: &str, qwen_root: &str, bundled_root: &str) -> (r: (String, String))
    ensures
        r.0@ == path_join(path_join(qwen_root@, "voices"@), id@),
        r.1@ == path_join(path_join(bundled_root@, "voices"@), id@),
{
    let cached = join_path(qwen_root, "voices");
    let bundled = join_path(bundled_root, "voices");
    (join_path(cached.as_str(), id), join_path(bundled.as_str(), id))
}

/// The directory of a cloned voice: the first candidate that holds its
/// `ref.wav`.
pub fn resolve_voice_dir(id: &str, candidates: &(String, String), present: (bool, bool)) -> (r: Result<
    String,
    String,
>)
    ensures
        match r {
            Ok(d) => (present.0 && d@ == candidates.0@) || (!present.0 && present.1 && d@
                == candidates.1@),
            Err(e) => !present.0 && !present.1 && e@ == "reference voice is not installed: "@ + id@,
        },
{
    if present.0 {
        Ok(candidates.0.clone())
    } else if present.1 {
        Ok(candidates.1.clone())
    } else {
        Err(concat("reference voice is not installed: ", id))
    }
}

} // verus!
