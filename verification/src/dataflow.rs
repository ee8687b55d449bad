//! Rendering the translation dataflow from its YAML template: placeholder
//! substitution, the optional speech block, and relative node paths.

use vstd::prelude::*;

use crate::text::{
    lemma_find_char_first, lemma_find_char_props, lemma_replace_all_short, occurs_at, strip_cr, find_char, chars_of, contains, digit_char, ends_with, has_prefix, has_substring, lines, push_char, push_decimal, decimal, replace, replace_all, split_lines, starts_with, str_eq, string_of, strip_prefix, sub_chars, trim, trim_bounds, trim_start,
};

use crate::preferences::{join_path, path_join};

verus! {

/// Settings that shape the rendered dataflow.
pub struct RenderOptions<'a> {
    pub source_language: &'a str,
    pub target_language: &'a str,
    pub system_audio: bool,
    pub spoken_translation: bool,
    pub spoken_voice: &'a str,
}

/// The template with the lines of every `# TTS-BEGIN` .. `# TTS-END` block
/// (the marker lines included) removed; every kept line ends with `\n`.
pub open spec fn strip_tts_lines(ls: Seq<Seq<char>>, skipping: bool) -> Seq<char>
    decreases ls.len(),
{
    if ls.len() == 0 {
        seq![]
    } else if contains(ls[0], "# TTS-BEGIN"@) {
        strip_tts_lines(ls.drop_first(), true)
    } else if contains(ls[0], "# TTS-END"@) {
        strip_tts_lines(ls.drop_first(), false)
    } else if skipping {
        strip_tts_lines(ls.drop_first(), skipping)
    } else {
        ls[0] + seq!['\n'] + strip_tts_lines(ls.drop_first(), skipping)
    }
}

/// The lines that survive stripping the speech block, in order.
pub open spec fn kept_tts_lines(ls: Seq<Seq<char>>, skipping: bool) -> Seq<Seq<char>>
    decreases ls.len(),
{
    if ls.len() == 0 {
        seq![]
    } else if contains(ls[0], "# TTS-BEGIN"@) {
        kept_tts_lines(ls.drop_first(), true)
    } else if contains(ls[0], "# TTS-END"@) {
        kept_tts_lines(ls.drop_first(), false)
    } else if skipping {
        kept_tts_lines(ls.drop_first(), skipping)
    } else {
        seq![ls[0]] + kept_tts_lines(ls.drop_first(), skipping)
    }
}

/// Lines put back together, each ended by `\n`.
pub open spec fn joined_lines(ls: Seq<Seq<char>>) -> Seq<char>
    decreases ls.len(),
{
    if ls.len() == 0 {
        seq![]
    } else {
        ls[0] + seq!['\n'] + joined_lines(ls.drop_first())
    }
}

/// Whether a line marks the start or the end of the speech block.
pub open spec fn is_tts_marker(line: Seq<char>) -> bool {
    contains(line, "# TTS-BEGIN"@) || contains(line, "# TTS-END"@)
}

/// Whether a line ends with a carriage return.
pub open spec fn ends_with_cr(line: Seq<char>) -> bool {
    line.len() > 0 && line.last() == '\r'
}

/// Whether a `\r` right before a `\n` stands at `k`.
pub open spec fn crlf_at(s: Seq<char>, k: int) -> bool {
    s[k] == '\r' && s[k + 1] == '\n'
}

/// Whether `\n` does not occur in a line.
pub open spec fn no_newline(line: Seq<char>) -> bool {
    forall|k: int| 0 <= k < line.len() ==> line[k] != '\n'
}

/// Stripping writes out the kept lines, each ended by `\n`.
proof fn lemma_strip_is_joined_kept(ls: Seq<Seq<char>>, skipping: bool)
    ensures
        strip_tts_lines(ls, skipping) == joined_lines(kept_tts_lines(ls, skipping)),
    decreases ls.len(),
{
    if ls.len() > 0 {
        lemma_strip_is_joined_kept(ls.drop_first(), true);
        lemma_strip_is_joined_kept(ls.drop_first(), false);
        let k = kept_tts_lines(ls.drop_first(), skipping);
        if !contains(ls[0], "# TTS-BEGIN"@) && !contains(ls[0], "# TTS-END"@) && !skipping {
            assert((seq![ls[0]] + k).drop_first() =~= k);
        }
    }
}

/// Kept lines are lines of the input without markers, so they keep every
/// property that all input lines have of being free of `\n`.
proof fn lemma_kept_lines_props(ls: Seq<Seq<char>>, skipping: bool)
    requires
        forall|j: int| 0 <= j < ls.len() ==> no_newline(#[trigger] ls[j]),
    ensures
        forall|i: int|
            0 <= i < kept_tts_lines(ls, skipping).len() ==> no_newline(
                #[trigger] kept_tts_lines(ls, skipping)[i],
            ) && !is_tts_marker(kept_tts_lines(ls, skipping)[i]),
    decreases ls.len(),
{
    if ls.len() > 0 {
        assert forall|j: int| 0 <= j < ls.drop_first().len() implies no_newline(
            #[trigger] ls.drop_first()[j],
        ) by {
            assert(ls.drop_first()[j] == ls[j + 1]);
        }
        lemma_kept_lines_props(ls.drop_first(), true);
        lemma_kept_lines_props(ls.drop_first(), false);
        lemma_kept_lines_props(ls.drop_first(), skipping);
        let k = kept_tts_lines(ls.drop_first(), skipping);
        let r = kept_tts_lines(ls, skipping);
        if contains(ls[0], "# TTS-BEGIN"@) {
            assert(r == kept_tts_lines(ls.drop_first(), true));
        } else if contains(ls[0], "# TTS-END"@) {
            assert(r == kept_tts_lines(ls.drop_first(), false));
        } else if skipping {
            assert(r == k);
        } else {
            let out = seq![ls[0]] + k;
            assert(kept_tts_lines(ls, skipping) == out);
            assert(no_newline(ls[0]));
            assert forall|i: int| 0 <= i < out.len() implies no_newline(#[trigger] out[i]) && !is_tts_marker(
                out[i],
            ) by {
                if i > 0 {
                    assert(out[i] == k[i - 1]);
                }
            }
        }
    }
}

/// Lines without markers are all kept.
proof fn lemma_kept_of_plain_lines(ls: Seq<Seq<char>>)
    requires
        forall|j: int| 0 <= j < ls.len() ==> !is_tts_marker(#[trigger] ls[j]),
    ensures
        kept_tts_lines(ls, false) == ls,
    decreases ls.len(),
{
    if ls.len() > 0 {
        assert forall|j: int| 0 <= j < ls.drop_first().len() implies !is_tts_marker(
            #[trigger] ls.drop_first()[j],
        ) by {
            assert(ls.drop_first()[j] == ls[j + 1]);
        }
        lemma_kept_of_plain_lines(ls.drop_first());
        assert(!is_tts_marker(ls[0]));
        assert(seq![ls[0]] + ls.drop_first() =~= ls);
    }
}

/// No line that `lines` hands out holds a `\n`.
proof fn lemma_lines_no_newline(s: Seq<char>)
    ensures
        forall|i: int| 0 <= i < lines(s).len() ==> no_newline(#[trigger] lines(s)[i]),
    decreases s.len(),
{
    if s.len() > 0 {
        lemma_find_char_props(s, '\n');
        match find_char(s, '\n') {
            Some(i) => {
                let rest = s.subrange(i + 1, s.len() as int);
                lemma_lines_no_newline(rest);
                let first = strip_cr(s.subrange(0, i));
                assert(no_newline(first));
                assert forall|k: int| 0 < k < lines(s).len() implies no_newline(#[trigger] lines(s)[k]) by {
                    assert(lines(s)[k] == lines(rest)[k - 1]);
                }
            },
            None => {},
        }
    }
}

/// Lines without `\n` and without a final carriage return, joined, read
/// back as the same lines.
proof fn lemma_lines_of_joined(ls: Seq<Seq<char>>)
    requires
        forall|j: int| 0 <= j < ls.len() ==> no_newline(#[trigger] ls[j]) && !ends_with_cr(ls[j]),
    ensures
        lines(joined_lines(ls)) == ls,
    decreases ls.len(),
{
    if ls.len() > 0 {
        let rest = ls.drop_first();
        assert forall|j: int| 0 <= j < rest.len() implies no_newline(#[trigger] rest[j]) && !ends_with_cr(
            rest[j],
        ) by {
            assert(rest[j] == ls[j + 1]);
        }
        lemma_lines_of_joined(rest);
        let first = ls[0];
        assert(no_newline(first) && !ends_with_cr(first));
        let j = joined_lines(ls);
        let n = first.len() as int;
        assert(j == first + seq!['\n'] + joined_lines(rest));
        assert(j[n] == '\n');
        assert forall|k: int| 0 <= k < n implies j[k] != '\n' by {
            assert(j[k] == first[k]);
        }
        lemma_find_char_first(j, '\n', n);
        assert(j.subrange(0, n) =~= first);
        assert(strip_cr(first) == first);
        assert(j.subrange(n + 1, j.len() as int) =~= joined_lines(rest));
        assert(seq![first] + rest =~= ls);
    }
}

/// Text whose lines all end with `\n`, with no `\r` right before one, is
/// its lines joined back.
proof fn lemma_joined_of_lines(s: Seq<char>)
    requires
        s.len() == 0 || s.last() == '\n',
        forall|k: int| 0 <= k < s.len() - 1 ==> !#[trigger] crlf_at(s, k),
    ensures
        joined_lines(lines(s)) == s,
    decreases s.len(),
{
    if s.len() > 0 {
        lemma_find_char_props(s, '\n');
        let i = find_char(s, '\n')->Some_0;
        let rest = s.subrange(i + 1, s.len() as int);
        assert forall|k: int| 0 <= k < rest.len() - 1 implies !#[trigger] crlf_at(rest, k) by {
            assert(rest[k] == s[k + i + 1] && rest[k + 1] == s[k + i + 2]);
            assert(!crlf_at(s, k + i + 1));
        }
        if rest.len() > 0 {
            assert(rest.last() == s.last());
        }
        lemma_joined_of_lines(rest);
        let first = s.subrange(0, i);
        if i > 0 {
            assert(!crlf_at(s, i - 1));
            assert(first.last() == s[i - 1]);
        }
        assert(strip_cr(first) == first);
        let ls = lines(s);
        assert(ls == seq![first] + lines(rest));
        assert(ls.drop_first() =~= lines(rest));
        assert(first + seq!['\n'] + rest =~= s);
    }
}

/// Stripping the speech block a second time changes nothing, as long as no
/// kept line ends with a carriage return (reading the stripped text back
/// into lines would drop it).
pub proof fn law_strip_optional_tts_is_idempotent(content: Seq<char>)
    requires
        forall|i: int|
            0 <= i < kept_tts_lines(lines(content), false).len() ==> !ends_with_cr(
                #[trigger] kept_tts_lines(lines(content), false)[i],
            ),
    ensures
        strip_tts_lines(lines(strip_tts_lines(lines(content), false)), false) == strip_tts_lines(
            lines(content),
            false,
        ),
{
    let ls = lines(content);
    let k = kept_tts_lines(ls, false);
    lemma_lines_no_newline(content);
    lemma_kept_lines_props(ls, false);
    lemma_strip_is_joined_kept(ls, false);
    lemma_lines_of_joined(k);
    lemma_kept_of_plain_lines(k);
    lemma_strip_is_joined_kept(k, false);
}

/// Text with no marker line, no `\r` right before a `\n`, and a `\n`
/// ending its last line (or empty) comes back unchanged.
pub proof fn law_strip_optional_tts_keeps_plain_text(content: Seq<char>)
    requires
        forall|i: int| 0 <= i < lines(content).len() ==> !is_tts_marker(#[trigger] lines(content)[i]),
        forall|k: int| 0 <= k < content.len() - 1 ==> !#[trigger] crlf_at(content, k),
        content.len() == 0 || content.last() == '\n',
    ensures
        strip_tts_lines(lines(content), false) == content,
{
    let ls = lines(content);
    lemma_kept_of_plain_lines(ls);
    lemma_strip_is_joined_kept(ls, false);
    lemma_joined_of_lines(content);
}

/// Appends `v` to `out`.
fn push_all(out: &mut Vec<char>, v: &[char])
    ensures
        final(out)@ == old(out)@ + v@,
{
    let mut k: usize = 0;
    while k < v.len()
        invariant
            k <= v@.len(),
            out@ == old(out)@ + v@.subrange(0, k as int),
        decreases v@.len() - k,
    {
        out.push(v[k]);
        assert(v@.subrange(0, k + 1) =~= v@.subrange(0, k as int).push(v@[k as int]));
        k += 1;
    }
    assert(v@.subrange(0, v@.len() as int) =~= v@);
}

/// Removes the optional speech block from a rendered dataflow.
pub fn strip_optional_tts(content: &str) -> (out: String)
    ensures
        out@ == strip_tts_lines(lines(content@), false),
{
    let v = chars_of(content);
    let ls = split_lines(v.as_slice());
    let ghost lv = lines(content@);
    let begin = chars_of("# TTS-BEGIN");
    let end = chars_of("# TTS-END");
    let mut out: Vec<char> = Vec::new();
    let mut skipping = false;
    let mut k: usize = 0;
    assert(lv.subrange(0, lv.len() as int) =~= lv);
    while k < ls.len()
        invariant
            k <= ls@.len(),
            ls@.len() == lv.len(),
            forall|i: int| 0 <= i < ls@.len() ==> #[trigger] ls@[i]@ == lv[i],
            begin@ == "# TTS-BEGIN"@,
            end@ == "# TTS-END"@,
            out@ + strip_tts_lines(lv.subrange(k as int, lv.len() as int), skipping) == strip_tts_lines(
                lv,
                false,
            ),
        decreases ls@.len() - k,
    {
        let ghost rest = lv.subrange(k as int, lv.len() as int);
        assert(rest.drop_first() =~= lv.subrange(k + 1, lv.len() as int));
        assert(rest[0] == ls@[k as int]@);
        let line = &ls[k];
        if has_substring(line.as_slice(), begin.as_slice()) {
            skipping = true;
        } else if has_substring(line.as_slice(), end.as_slice()) {
            skipping = false;
        } else if !skipping {
            let ghost before = out@;
            push_all(&mut out, line.as_slice());
            out.push('\n');
            assert(out@ + strip_tts_lines(lv.subrange(k + 1, lv.len() as int), skipping) =~= before
                + strip_tts_lines(rest, skipping));
        }
        k += 1;
    }
    assert(lv.subrange(k as int, lv.len() as int) =~= Seq::<Seq<char>>::empty());
    assert(out@ =~= strip_tts_lines(lv, false));
    string_of(out.as_slice())
}

/// A `path:` entry of a dataflow line: its indentation, its value (quotes
/// removed), and whether the value was quoted.
pub open spec fn path_entry(line: Seq<char>) -> Option<(Seq<char>, Seq<char>, bool)> {
    let t = trim_start(line);
    let indent = line.subrange(0, line.len() - t.len());
    match strip_prefix(t, "path:"@) {
        Some(raw0) => {
            let raw = trim(raw0);
            let quoted = raw.len() >= 2 && ((raw[0] == '"' && raw.last() == '"') || (raw[0] == '\''
                && raw.last() == '\''));
            if quoted {
                Some((indent, raw.subrange(1, raw.len() - 1), true))
            } else {
                Some((indent, raw, false))
            }
        },
        None => None,
    }
}

/// A node path worth resolving against the template's directory: not
/// `dynamic`, not absolute, and with a directory part.
pub open spec fn is_relative_node_path(value: Seq<char>) -> bool {
    &&& value != "dynamic"@
    &&& !starts_with(value, seq!['/'])
    &&& exists|i: int| 0 <= i < value.len() && value[i] == '/'
}

/// The resolution of `value`: the first entry of `resolved` with that key.
pub open spec fn lookup(resolved: Seq<(Seq<char>, Seq<char>)>, value: Seq<char>) -> Option<Seq<char>>
    decreases resolved.len(),
{
    if resolved.len() == 0 {
        None
    } else if resolved[0].0 == value {
        Some(resolved[0].1)
    } else {
        lookup(resolved.drop_first(), value)
    }
}

/// One line of the dataflow after relative node paths are replaced by their
/// resolution, with its `\n`.
pub open spec fn rewrite_line(line: Seq<char>, resolved: Seq<(Seq<char>, Seq<char>)>) -> Seq<char> {
    match path_entry(line) {
        Some((indent, value, quoted)) => if is_relative_node_path(value) && lookup(resolved, value) is Some {
            let r = lookup(resolved, value).unwrap();
            if quoted {
                indent + "path: \""@ + r + "\"\n"@
            } else {
                indent + "path: "@ + r + "\n"@
            }
        } else {
            line + seq!['\n']
        },
        None => line + seq!['\n'],
    }
}

/// All lines rewritten.
pub open spec fn rewrite_lines(ls: Seq<Seq<char>>, resolved: Seq<(Seq<char>, Seq<char>)>) -> Seq<char>
    decreases ls.len(),
{
    if ls.len() == 0 {
        seq![]
    } else {
        rewrite_line(ls[0], resolved) + rewrite_lines(ls.drop_first(), resolved)
    }
}

/// The dataflow with relative node paths resolved; the final newline is
/// kept only if the input had one.
pub open spec fn rewrite_spec(content: Seq<char>, resolved: Seq<(Seq<char>, Seq<char>)>) -> Seq<char> {
    let all = rewrite_lines(lines(content), resolved);
    if ends_with(content, seq!['\n']) || all.len() == 0 {
        all
    } else {
        all.drop_last()
    }
}

/// The `path:` entry of a line.
fn parse_path_entry(line: &[char]) -> (r: Option<(Vec<char>, Vec<char>, bool)>)
    ensures
        match r {
            Some((i, v, q)) => path_entry(line@) == Some((i@, v@, q)),
            None => path_entry(line@) is None,
        },
{
    let (a, _b) = trim_bounds(line);
    let t = sub_chars(line, a, line.len());
    let indent = sub_chars(line, 0, a);
    proof {
        assert(line@.subrange(0, line@.len() - t@.len()) =~= indent@);
    }
    let prefix = chars_of("path:");
    if !has_prefix(t.as_slice(), prefix.as_slice()) {
        return None;
    }
    let raw0 = sub_chars(t.as_slice(), prefix.len(), t.len());
    let (c, d) = trim_bounds(raw0.as_slice());
    let raw = sub_chars(raw0.as_slice(), c, d);
    let n = raw.len();
    let quoted = n >= 2 && ((raw[0] == '"' && raw[n - 1] == '"') || (raw[0] == '\'' && raw[n - 1]
        == '\''));
    if quoted {
        Some((indent, sub_chars(raw.as_slice(), 1, n - 1), true))
    } else {
        Some((indent, raw, false))
    }
}

/// Whether a node path should be resolved.
fn relative_node_path(value: &[char]) -> (r: bool)
    ensures
        r == is_relative_node_path(value@),
{
    let dynamic = chars_of("dynamic");
    if crate::text::chars_eq(value, dynamic.as_slice()) {
        return false;
    }
    if value.len() > 0 && value[0] == '/' {
        proof {
            assert(value@.subrange(0, 1) =~= seq!['/']);
        }
        return false;
    }
    proof {
        if value@.len() > 0 {
            assert(value@.subrange(0, 1) != seq!['/']) by {
                assert(value@.subrange(0, 1)[0] != '/');
            }
        }
    }
    let mut i: usize = 0;
    while i < value.len()
        invariant
            i <= value@.len(),
            value@ != "dynamic"@,
            !starts_with(value@, seq!['/']),
            forall|j: int| 0 <= j < i ==> value@[j] != '/',
        decreases value@.len() - i,
    {
        if value[i] == '/' {
            return true;
        }
        i += 1;
    }
    false
}

/// The values of the `path:` entries worth resolving, in line order.
pub open spec fn relative_values(ls: Seq<Seq<char>>) -> Seq<Seq<char>>
    decreases ls.len(),
{
    if ls.len() == 0 {
        seq![]
    } else {
        let here: Seq<Seq<char>> = match path_entry(ls[0]) {
            Some((_, v, _)) => if is_relative_node_path(v) {
                seq![v]
            } else {
                seq![]
            },
            None => seq![],
        };
        here + relative_values(ls.drop_first())
    }
}

/// The relative node paths of a dataflow, in line order, to be resolved
/// against the template's directory.
pub fn relative_path_values(content: &str) -> (r: Vec<String>)
    ensures
        r@.map_values(|s: String| s@) == relative_values(lines(content@)),
{
    let v = chars_of(content);
    let ls = split_lines(v.as_slice());
    let ghost lv = lines(content@);
    let mut out: Vec<String> = Vec::new();
    let mut k: usize = 0;
    assert(lv.subrange(0, lv.len() as int) =~= lv);
    while k < ls.len()
        invariant
            k <= ls@.len(),
            ls@.len() == lv.len(),
            lv == lines(content@),
            forall|i: int| 0 <= i < ls@.len() ==> #[trigger] ls@[i]@ == lv[i],
            out@.map_values(|s: String| s@) + relative_values(lv.subrange(k as int, lv.len() as int))
                == relative_values(lv),
        decreases ls@.len() - k,
    {
        let ghost rest = lv.subrange(k as int, lv.len() as int);
        let ghost before = out@.map_values(|s: String| s@);
        assert(rest.drop_first() =~= lv.subrange(k + 1, lv.len() as int));
        assert(rest[0] == ls@[k as int]@);
        match parse_path_entry(ls[k].as_slice()) {
            Some((_indent, value, _quoted)) => {
                if relative_node_path(value.as_slice()) {
                    let s = string_of(value.as_slice());
                    out.push(s);
                    assert(out@.map_values(|s: String| s@) =~= before.push(value@));
                    assert(before.push(value@) + relative_values(lv.subrange(k + 1, lv.len() as int))
                        =~= before + relative_values(rest));
                } else {
                    assert(before + relative_values(lv.subrange(k + 1, lv.len() as int)) =~= before
                        + relative_values(rest));
                }
            },
            None => {
                assert(before + relative_values(lv.subrange(k + 1, lv.len() as int)) =~= before
                    + relative_values(rest));
            },
        }
        k += 1;
    }
    assert(lv.subrange(k as int, lv.len() as int) =~= Seq::<Seq<char>>::empty());
    assert(out@.map_values(|s: String| s@) =~= relative_values(lv));
    out
}

/// The resolution of `value`, if `resolved` has one.
fn find_resolution(resolved: &[(String, String)], value: &[char]) -> (r: Option<Vec<char>>)
    ensures
        opt_chars(r) == lookup(resolved_view(resolved@), value@),
{
    let mut i: usize = 0;
    let ghost rv = resolved_view(resolved@);
    assert(rv.subrange(0, rv.len() as int) =~= rv);
    while i < resolved.len()
        invariant
            i <= resolved@.len(),
            rv == resolved_view(resolved@),
            lookup(rv, value@) == lookup(rv.subrange(i as int, rv.len() as int), value@),
        decreases resolved@.len() - i,
    {
        let key = chars_of(resolved[i].0.as_str());
        proof {
            let rest = rv.subrange(i as int, rv.len() as int);
            assert(rest.drop_first() =~= rv.subrange(i + 1, rv.len() as int));
            assert(rest[0] == rv[i as int]);
        }
        if crate::text::chars_eq(key.as_slice(), value) {
            return Some(chars_of(resolved[i].1.as_str()));
        }
        i += 1;
    }
    assert(rv.subrange(i as int, rv.len() as int) =~= Seq::<(Seq<char>, Seq<char>)>::empty());
    None
}

/// Resolutions as pairs of character sequences.
pub open spec fn resolved_view(r: Seq<(String, String)>) -> Seq<(Seq<char>, Seq<char>)> {
    r.map_values(|p: (String, String)| (p.0@, p.1@))
}

/// The view of an optional character vector.
pub open spec fn opt_chars(o: Option<Vec<char>>) -> Option<Seq<char>> {
    match o {
        Some(v) => Some(v@),
        None => None,
    }
}

/// Replaces relative node paths by their resolved absolute paths; a path
/// without a resolution (its target does not exist) is kept as written.
pub fn absolutize_dataflow_paths(content: &str, resolved: &[(String, String)]) -> (out: String)
    ensures
        out@ == rewrite_spec(content@, resolved_view(resolved@)),
{
    let v = chars_of(content);
    let ls = split_lines(v.as_slice());
    let ghost lv = lines(content@);
    let ghost rv = resolved_view(resolved@);
    let mut out: Vec<char> = Vec::new();
    let mut k: usize = 0;
    assert(lv.subrange(0, lv.len() as int) =~= lv);
    while k < ls.len()
        invariant
            k <= ls@.len(),
            ls@.len() == lv.len(),
            rv == resolved_view(resolved@),
            forall|i: int| 0 <= i < ls@.len() ==> #[trigger] ls@[i]@ == lv[i],
            out@ + rewrite_lines(lv.subrange(k as int, lv.len() as int), rv) == rewrite_lines(lv, rv),
        decreases ls@.len() - k,
    {
        let ghost rest = lv.subrange(k as int, lv.len() as int);
        assert(rest.drop_first() =~= lv.subrange(k + 1, lv.len() as int));
        assert(rest[0] == ls@[k as int]@);
        let ghost before = out@;
        let line = &ls[k];
        let mut done = false;
        match parse_path_entry(line.as_slice()) {
            Some((indent, value, quoted)) => {
                if relative_node_path(value.as_slice()) {
                    match find_resolution(resolved, value.as_slice()) {
                        Some(r) => {
                            push_all(&mut out, indent.as_slice());
                            let head = chars_of(
                                if quoted {
                                    "path: \""
                                } else {
                                    "path: "
                                },
                            );
                            push_all(&mut out, head.as_slice());
                            push_all(&mut out, r.as_slice());
                            let tail = chars_of(
                                if quoted {
                                    "\"\n"
                                } else {
                                    "\n"
                                },
                            );
                            push_all(&mut out, tail.as_slice());
                            proof {
                                reveal_strlit("\n");
                                assert("\n"@ =~= seq!['\n']);
                            }
                            assert(out@ =~= before + rewrite_line(rest[0], rv));
                            done = true;
                        },
                        None => {},
                    }
                }
            },
            None => {},
        }
        if !done {
            push_all(&mut out, line.as_slice());
            out.push('\n');
            assert(out@ =~= before + rewrite_line(rest[0], rv));
        }
        assert(out@ + rewrite_lines(lv.subrange(k + 1, lv.len() as int), rv) =~= before
            + rewrite_lines(rest, rv));
        k += 1;
    }
    assert(lv.subrange(k as int, lv.len() as int) =~= Seq::<Seq<char>>::empty());
    assert(out@ =~= rewrite_lines(lv, rv));
    let trailing = v.len() > 0 && v[v.len() - 1] == '\n';
    proof {
        if v@.len() > 0 {
            assert(v@.subrange(v@.len() - 1, v@.len() as int) =~= seq![v@[v@.len() - 1]]);
        }
    }
    proof {
        if v@.len() > 0 && v@[v@.len() - 1] == '\n' {
            assert(v@.subrange(v@.len() - 1, v@.len() as int) =~= seq!['\n']);
            assert(ends_with(content@, seq!['\n']));
        } else if v@.len() > 0 {
            assert(v@.subrange(v@.len() - 1, v@.len() as int)[0] != '\n');
            assert(!ends_with(content@, seq!['\n']));
        }
    }
    if !trailing && out.len() > 0 {
        out.pop();
    }
    string_of(out.as_slice())
}

/// Voice-activity settings for a source language: start frames, end
/// frames, end silence (ms), question end silence (ms), minimum segment
/// (ms), and the start and end RMS thresholds in units of 0.0001.
pub open spec fn vad_params(source_language: Seq<char>) -> (u64, u64, u64, u64, u64, u64, u64) {
    if source_language == "zh"@ {
        (5, 10, 420, 1200, 420, 180, 100)
    } else if source_language == "en"@ {
        (4, 30, 300, 900, 300, 150, 90)
    } else {
        (4, 10, 320, 1000, 320, 160, 90)
    }
}

/// A threshold given in units of 0.0001, written with four decimals.
pub open spec fn fixed4(v: nat) -> Seq<char> {
    seq!['0', '.', digit_char((v / 1000) % 10), digit_char((v / 100) % 10), digit_char((v / 10) % 10), digit_char(v % 10)]
}

/// The RMS thresholds in units of 0.0001: system audio is quieter, so its
/// thresholds are three tenths of the microphone ones.
pub open spec fn rms_thresholds(source_language: Seq<char>, system_audio: bool) -> (nat, nat) {
    let p = vad_params(source_language);
    if system_audio {
        ((p.5 * 3 / 10) as nat, (p.6 * 3 / 10) as nat)
    } else {
        (p.5 as nat, p.6 as nat)
    }
}

/// The rendered dataflow: every placeholder of the template filled in, and
/// the speech block filled in when a speech node is available or removed
/// when it is not.
pub open spec fn render_spec(
    template: Seq<char>,
    source_language: Seq<char>,
    target_language: Seq<char>,
    system_audio: bool,
    spoken_voice: Seq<char>,
    asr_path: Seq<char>,
    translator_path: Seq<char>,
    tts_path: Option<Seq<char>>,
) -> Seq<char> {
    let p = vad_params(source_language);
    let (start_rms, end_rms) = rms_thresholds(source_language, system_audio);
    let passthrough = if target_language == "none"@ {
        "1"@
    } else {
        "0"@
    };
    let r = replace_all(template, "__TRANSLATION_SRC_LANG__"@, source_language);
    let r = replace_all(r, "__TRANSLATION_TGT_LANG__"@, target_language);
    let r = replace_all(r, "__TRANSLATOR_PASSTHROUGH__"@, passthrough);
    let r = replace_all(r, "__ASR_BIN_PATH__"@, asr_path);
    let r = replace_all(r, "__TRANSLATOR_BIN_PATH__"@, translator_path);
    let r = replace_all(r, "__SPEECH_START_FRAMES__"@, decimal(p.0 as nat));
    let r = replace_all(r, "__SPEECH_END_FRAMES__"@, decimal(p.1 as nat));
    let r = replace_all(r, "__SPEECH_END_MS__"@, decimal(p.2 as nat));
    let r = replace_all(r, "__QUESTION_END_SILENCE_MS__"@, decimal(p.3 as nat));
    let r = replace_all(r, "__MIN_SEGMENT_MS__"@, decimal(p.4 as nat));
    let r = replace_all(r, "__MAX_SEGMENT_MS__"@, "8000"@);
    let r = replace_all(r, "__START_RMS_THRESHOLD__"@, fixed4(start_rms));
    let r = replace_all(r, "__END_RMS_THRESHOLD__"@, fixed4(end_rms));
    match tts_path {
        Some(t) => replace_all(replace_all(r, "__TTS_BIN_PATH__"@, t), "__SPOKEN_VOICE__"@, spoken_voice),
        None => strip_tts_lines(lines(r), false),
    }
}

/// A threshold in units of 0.0001 with four decimals.
fn fixed4_string(v: u64) -> (out: String)
    requires
        v < 10000,
    ensures
        out@ == fixed4(v as nat),
{
    let mut out = String::new();
    push_char(&mut out, '0');
    push_char(&mut out, '.');
    push_char(&mut out, crate::text::digit((v / 1000) % 10));
    push_char(&mut out, crate::text::digit((v / 100) % 10));
    push_char(&mut out, crate::text::digit((v / 10) % 10));
    push_char(&mut out, crate::text::digit(v % 10));
    assert(out@ =~= fixed4(v as nat));
    out
}

/// A number in decimal.
fn decimal_string(n: u64) -> (out: String)
    ensures
        out@ == decimal(n as nat),
{
    let mut out = String::new();
    push_decimal(&mut out, n);
    assert(out@ =~= decimal(n as nat));
    out
}

/// Fills in the translation dataflow template. `tts_path` is the speech node
/// binary when spoken translation is on and its models are installed.
pub fn render_dataflow_text(
    template: &str,
    options: &RenderOptions,
    asr_path: &str,
    translator_path: &str,
    tts_path: Option<&str>,
) -> (out: String)
    ensures
        out@ == render_spec(
            template@,
            options.source_language@,
            options.target_language@,
            options.system_audio,
            options.spoken_voice@,
            asr_path@,
            translator_path@,
            match tts_path {
                Some(t) => Some(t@),
                None => None,
            },
        ),
{
    proof {
        reveal_strlit("__TRANSLATION_SRC_LANG__");
        reveal_strlit("__TRANSLATION_TGT_LANG__");
        reveal_strlit("__TRANSLATOR_PASSTHROUGH__");
        reveal_strlit("__ASR_BIN_PATH__");
        reveal_strlit("__TRANSLATOR_BIN_PATH__");
        reveal_strlit("__SPEECH_START_FRAMES__");
        reveal_strlit("__SPEECH_END_FRAMES__");
        reveal_strlit("__SPEECH_END_MS__");
        reveal_strlit("__QUESTION_END_SILENCE_MS__");
        reveal_strlit("__MIN_SEGMENT_MS__");
        reveal_strlit("__MAX_SEGMENT_MS__");
        reveal_strlit("__START_RMS_THRESHOLD__");
        reveal_strlit("__END_RMS_THRESHOLD__");
        reveal_strlit("__TTS_BIN_PATH__");
        reveal_strlit("__SPOKEN_VOICE__");
    }
    let (start_frames, end_frames, end_ms, question_end_ms, min_segment_ms, start_rms, end_rms): (
        u64,
        u64,
        u64,
        u64,
        u64,
        u64,
        u64,
    ) = if str_eq(options.source_language, "zh") {
        (5, 10, 420, 1200, 420, 180, 100)
    } else if str_eq(options.source_language, "en") {
        (4, 30, 300, 900, 300, 150, 90)
    } else {
        (4, 10, 320, 1000, 320, 160, 90)
    };
    let (start_rms, end_rms) = if options.system_audio {
        (start_rms * 3 / 10, end_rms * 3 / 10)
    } else {
        (start_rms, end_rms)
    };
    let passthrough = if str_eq(options.target_language, "none") {
        "1"
    } else {
        "0"
    };
    let r = replace(template, "__TRANSLATION_SRC_LANG__", options.source_language);
    let r = replace(r.as_str(), "__TRANSLATION_TGT_LANG__", options.target_language);
    let r = replace(r.as_str(), "__TRANSLATOR_PASSTHROUGH__", passthrough);
    let r = replace(r.as_str(), "__ASR_BIN_PATH__", asr_path);
    let r = replace(r.as_str(), "__TRANSLATOR_BIN_PATH__", translator_path);
    let r = replace(r.as_str(), "__SPEECH_START_FRAMES__", decimal_string(start_frames).as_str());
    let r = replace(r.as_str(), "__SPEECH_END_FRAMES__", decimal_string(end_frames).as_str());
    let r = replace(r.as_str(), "__SPEECH_END_MS__", decimal_string(end_ms).as_str());
    let r = replace(r.as_str(), "__QUESTION_END_SILENCE_MS__", decimal_string(question_end_ms).as_str());
    let r = replace(r.as_str(), "__MIN_SEGMENT_MS__", decimal_string(min_segment_ms).as_str());
    let r = replace(r.as_str(), "__MAX_SEGMENT_MS__", "8000");
    let r = replace(r.as_str(), "__START_RMS_THRESHOLD__", fixed4_string(start_rms).as_str());
    let r = replace(r.as_str(), "__END_RMS_THRESHOLD__", fixed4_string(end_rms).as_str());
    match tts_path {
        Some(t) => {
            let r = replace(r.as_str(), "__TTS_BIN_PATH__", t);
            replace(r.as_str(), "__SPOKEN_VOICE__", options.spoken_voice)
        },
        None => strip_optional_tts(r.as_str()),
    }
}

// ---------------------------------------------------------------------
// Where the template and the node binaries are looked for
// ---------------------------------------------------------------------

/// A path under `dir` made of two relative parts.
pub open spec fn under2(dir: Seq<char>, a: Seq<char>, b: Seq<char>) -> Seq<char> {
    path_join(path_join(dir, a), b)
}

/// The places a node binary named `exe` is looked for, in order: the
/// binary directory, the `debug`, `release` and top level of each target
/// directory, the directory of the running executable, then the local
/// `target/debug` and `target/release`.
pub open spec fn binary_candidates_of(
    exe: Seq<char>,
    bin_dir: Option<Seq<char>>,
    target_dirs: Seq<Seq<char>>,
    exe_dir: Option<Seq<char>>,
) -> Seq<Seq<char>> {
    let first = match bin_dir {
        Some(d) => seq![path_join(d, exe)],
        None => seq![],
    };
    let targets = target_candidates(exe, target_dirs);
    let own = match exe_dir {
        Some(d) => seq![path_join(d, exe)],
        None => seq![],
    };
    first + targets + own + seq![path_join("target/debug"@, exe), path_join("target/release"@, exe)]
}

/// The candidates inside each target directory.
pub open spec fn target_candidates(exe: Seq<char>, dirs: Seq<Seq<char>>) -> Seq<Seq<char>>
    decreases dirs.len(),
{
    if dirs.len() == 0 {
        seq![]
    } else {
        target_candidates(exe, dirs.drop_last()) + seq![
            under2(dirs.last(), "debug"@, exe),
            under2(dirs.last(), "release"@, exe),
            path_join(dirs.last(), exe),
        ]
    }
}

/// Appends a string to a list of strings.
fn push_path(out: &mut Vec<String>, p: String)
    ensures
        final(out)@.map_values(|s: String| s@) == old(out)@.map_values(|s: String| s@).push(p@),
{
    out.push(p);
    assert(out@.map_values(|s: String| s@) =~= old(out)@.map_values(|s: String| s@).push(p@));
}

/// The places a node binary is looked for. `target_dirs` are the target
/// directories that are set, in the order `MOXIN_DORA_TARGET_DIR`,
/// `CARGO_TARGET_DIR`.
pub fn binary_candidates(
    exe: &str,
    bin_dir: Option<&str>,
    target_dirs: &[String],
    exe_dir: Option<&str>,
) -> (r: Vec<String>)
    ensures
        r@.map_values(|s: String| s@) == binary_candidates_of(
            exe@,
            match bin_dir {
                Some(d) => Some(d@),
                None => None,
            },
            target_dirs@.map_values(|s: String| s@),
            match exe_dir {
                Some(d) => Some(d@),
                None => None,
            },
        ),
{
    let ghost tv = target_dirs@.map_values(|s: String| s@);
    let mut out: Vec<String> = Vec::new();
    match bin_dir {
        Some(d) => push_path(&mut out, join_path(d, exe)),
        None => {},
    }
    let ghost first = out@.map_values(|s: String| s@);
    let mut i: usize = 0;
    assert(tv.subrange(0, 0) =~= Seq::<Seq<char>>::empty());
    assert(first + target_candidates(exe@, tv.subrange(0, 0)) =~= first);
    while i < target_dirs.len()
        invariant
            i <= target_dirs@.len(),
            tv == target_dirs@.map_values(|s: String| s@),
            out@.map_values(|s: String| s@) == first + target_candidates(exe@, tv.subrange(0, i as int)),
        decreases target_dirs@.len() - i,
    {
        let dir = target_dirs[i].as_str();
        let debug = join_path(dir, "debug");
        let release = join_path(dir, "release");
        push_path(&mut out, join_path(debug.as_str(), exe));
        push_path(&mut out, join_path(release.as_str(), exe));
        push_path(&mut out, join_path(dir, exe));
        assert(tv.subrange(0, i + 1).drop_last() =~= tv.subrange(0, i as int));
        assert(out@.map_values(|s: String| s@) =~= first + target_candidates(exe@, tv.subrange(0, i + 1)));
        i += 1;
    }
    assert(tv.subrange(0, tv.len() as int) =~= tv);
    match exe_dir {
        Some(d) => push_path(&mut out, join_path(d, exe)),
        None => {},
    }
    push_path(&mut out, join_path("target/debug", exe));
    push_path(&mut out, join_path("target/release", exe));
    proof {
        reveal_strlit("target/debug");
        reveal_strlit("target/release");
    }
    assert(out@.map_values(|s: String| s@) =~= binary_candidates_of(
        exe@,
        match bin_dir {
            Some(d) => Some(d@),
            None => None,
        },
        tv,
        match exe_dir {
            Some(d) => Some(d@),
            None => None,
        },
    ));
    out
}

/// The places the translation template is looked for, in order, after the
/// explicitly configured one: next to the crate, in the app's resources
/// (three layouts), in the resources named by the environment, relative to
/// the working directory, and under the home directory.
pub open spec fn template_candidates_of(
    crate_dir: Seq<char>,
    resource_dir: Option<Seq<char>>,
    app_resources: Option<Seq<char>>,
    home: Option<Seq<char>>,
) -> Seq<Seq<char>> {
    let name = "translation_qwen35.yml"@;
    let a = seq![path_join(crate_dir, "dataflow/translation_qwen35.yml"@)];
    let b = match resource_dir {
        Some(r) => seq![
            path_join(r, name),
            path_join(r, "dataflow/translation_qwen35.yml"@),
            path_join(r, "_up_/hen-local-translator-shell/dataflow/translation_qwen35.yml"@),
        ],
        None => seq![],
    };
    let c = match app_resources {
        Some(r) => seq![path_join(r, "dataflow/translation_qwen35.yml"@)],
        None => seq![],
    };
    let d = seq!["hen-local-translator-shell/dataflow/translation_qwen35.yml"@];
    let e = match home {
        Some(h) => seq![path_join(h, ".OminiX/dataflows/translation_qwen35.yml"@)],
        None => seq![],
    };
    a + b + c + d + e
}

/// The places the translation template is looked for.
pub fn template_candidates(
    crate_dir: &str,
    resource_dir: Option<&str>,
    app_resources: Option<&str>,
    home: Option<&str>,
) -> (r: Vec<String>)
    ensures
        r@.map_values(|s: String| s@) == template_candidates_of(
            crate_dir@,
            match resource_dir {
                Some(d) => Some(d@),
                None => None,
            },
            match app_resources {
                Some(d) => Some(d@),
                None => None,
            },
            match home {
                Some(d) => Some(d@),
                None => None,
            },
        ),
{
    proof {
        reveal_strlit("translation_qwen35.yml");
        reveal_strlit("dataflow/translation_qwen35.yml");
        reveal_strlit("_up_/hen-local-translator-shell/dataflow/translation_qwen35.yml");
        reveal_strlit("hen-local-translator-shell/dataflow/translation_qwen35.yml");
        reveal_strlit(".OminiX/dataflows/translation_qwen35.yml");
    }
    let mut out: Vec<String> = Vec::new();
    push_path(&mut out, join_path(crate_dir, "dataflow/translation_qwen35.yml"));
    match resource_dir {
        Some(r) => {
            push_path(&mut out, join_path(r, "translation_qwen35.yml"));
            push_path(&mut out, join_path(r, "dataflow/translation_qwen35.yml"));
            push_path(
                &mut out,
                join_path(r, "_up_/hen-local-translator-shell/dataflow/translation_qwen35.yml"),
            );
        },
        None => {},
    }
    match app_resources {
        Some(r) => push_path(&mut out, join_path(r, "dataflow/translation_qwen35.yml")),
        None => {},
    }
    push_path(&mut out, "hen-local-translator-shell/dataflow/translation_qwen35.yml".to_string());
    match home {
        Some(h) => push_path(&mut out, join_path(h, ".OminiX/dataflows/translation_qwen35.yml")),
        None => {},
    }
    assert(out@.map_values(|s: String| s@) =~= template_candidates_of(
        crate_dir@,
        match resource_dir {
            Some(d) => Some(d@),
            None => None,
        },
        match app_resources {
            Some(d) => Some(d@),
            None => None,
        },
        match home {
            Some(d) => Some(d@),
            None => None,
        },
    ));
    out
}

/// The file whose presence says the speech node's models are installed:
/// `config.json` in the configured model directory, else in the default one
/// under the home directory; none without either.
pub fn tts_model_config_path(model_dir: Option<&str>, home: Option<&str>) -> (r: Option<String>)
    ensures
        match r {
            Some(p) => match model_dir {
                Some(d) => p@ == path_join(d@, "config.json"@),
                None => home matches Some(h) && p@ == path_join(
                    h@,
                    ".OminiX/models/qwen3-tts-mlx/Qwen3-TTS-12Hz-1.7B-CustomVoice-8bit/config.json"@,
                ),
            },
            None => model_dir is None && home is None,
        },
{
    match model_dir {
        Some(d) => Some(join_path(d, "config.json")),
        None => match home {
            Some(h) => Some(
                join_path(h, ".OminiX/models/qwen3-tts-mlx/Qwen3-TTS-12Hz-1.7B-CustomVoice-8bit/config.json"),
            ),
            None => None,
        },
    }
}

/// The index of the first candidate that exists.
pub fn first_present(present: &[bool]) -> (r: Option<usize>)
    ensures
        match r {
            Some(i) => i < present@.len() && present@[i as int] && forall|j: int| 0 <= j < i ==> !present@[j],
            None => forall|j: int| 0 <= j < present@.len() ==> !present@[j],
        },
{
    let mut i: usize = 0;
    while i < present.len()
        invariant
            i <= present@.len(),
            forall|j: int| 0 <= j < i ==> !present@[j],
        decreases present@.len() - i,
    {
        if present[i] {
            return Some(i);
        }
        i += 1;
    }
    None
}


// ---------------------------------------------------------------------
// The translator's passthrough switch
// ---------------------------------------------------------------------

/// Replacing a pattern that occurs nowhere leaves the text as it is.
proof fn lemma_replace_all_absent(s: Seq<char>, pat: Seq<char>, with: Seq<char>)
    requires
        pat.len() > 0,
        forall|i: int| !#[trigger] occurs_at(s, pat, i),
    ensures
        replace_all(s, pat, with) == s,
    decreases s.len(),
{
    if s.len() >= pat.len() {
        assert(!occurs_at(s, pat, 0));
        let d = s.drop_first();
        assert forall|i: int| !#[trigger] occurs_at(d, pat, i) by {
            if 0 <= i && i + pat.len() <= d.len() {
                assert(d.subrange(i, i + pat.len()) =~= s.subrange(i + 1, i + 1 + pat.len()));
                assert(!occurs_at(s, pat, i + 1));
            }
        }
        lemma_replace_all_absent(d, pat, with);
        assert(seq![s[0]] + d =~= s);
    }
}

/// Characters that cannot start the pattern are passed over unchanged.
proof fn lemma_replace_all_skips(k: Seq<char>, rest: Seq<char>, pat: Seq<char>, with: Seq<char>)
    requires
        pat.len() > 0,
        forall|i: int| 0 <= i < k.len() ==> k[i] != pat[0],
    ensures
        replace_all(k + rest, pat, with) == k + replace_all(rest, pat, with),
    decreases k.len(),
{
    if k.len() == 0 {
        assert(k + rest =~= rest);
    } else {
        let s = k + rest;
        if s.len() < pat.len() {
            lemma_replace_all_short(rest, pat, with);
        } else {
            assert(s.subrange(0, pat.len() as int)[0] == k[0]);
            assert(s.drop_first() =~= k.drop_first() + rest);
            lemma_replace_all_skips(k.drop_first(), rest, pat, with);
            assert(seq![s[0]] + (k.drop_first() + replace_all(rest, pat, with)) =~= k + replace_all(rest, pat, with));
        }
    }
}

/// Replacing a pattern that starts with `_` leaves text without `_` as it is.
proof fn lemma_replace_all_no_underscore(s: Seq<char>, pat: Seq<char>, with: Seq<char>)
    requires
        pat.len() > 0,
        pat[0] == '_',
        forall|i: int| 0 <= i < s.len() ==> s[i] != '_',
    ensures
        replace_all(s, pat, with) == s,
{
    lemma_replace_all_skips(s, seq![], pat, with);
    lemma_replace_all_short(seq![], pat, with);
    assert(s + Seq::<char>::empty() =~= s);
}

/// A line with no `_`, `#`, `\r` or `\n`, followed by the passthrough
/// placeholder and a line end.
pub open spec fn passthrough_line(key: Seq<char>) -> Seq<char> {
    key + "__TRANSLATOR_PASSTHROUGH__"@ + seq!['\n']
}

/// The translator passes text through untranslated exactly when the target
/// language is `none`: in a template line that sets the passthrough
/// switch, the rendered value is `1` for the target `none` and `0` for any
/// real target language, whatever the other settings and paths are.
pub proof fn law_passthrough_follows_the_target_language(
    key: Seq<char>,
    source_language: Seq<char>,
    target_language: Seq<char>,
    system_audio: bool,
    spoken_voice: Seq<char>,
    asr_path: Seq<char>,
    translator_path: Seq<char>,
    tts_path: Option<Seq<char>>,
)
    requires
        forall|i: int|
            0 <= i < key.len() ==> key[i] != '_' && key[i] != '#' && key[i] != '\r' && key[i] != '\n',
    ensures
        render_spec(
            passthrough_line(key),
            source_language,
            target_language,
            system_audio,
            spoken_voice,
            asr_path,
            translator_path,
            tts_path,
        ) == key + (if target_language == "none"@ {
            "1"@
        } else {
            "0"@
        }) + seq!['\n'],
{
    reveal_strlit("__TRANSLATOR_PASSTHROUGH__");
    reveal_strlit("__TRANSLATION_SRC_LANG__");
    reveal_strlit("__TRANSLATION_TGT_LANG__");
    reveal_strlit("__ASR_BIN_PATH__");
    reveal_strlit("__TRANSLATOR_BIN_PATH__");
    reveal_strlit("__SPEECH_START_FRAMES__");
    reveal_strlit("__SPEECH_END_FRAMES__");
    reveal_strlit("__SPEECH_END_MS__");
    reveal_strlit("__QUESTION_END_SILENCE_MS__");
    reveal_strlit("__MIN_SEGMENT_MS__");
    reveal_strlit("__MAX_SEGMENT_MS__");
    reveal_strlit("__START_RMS_THRESHOLD__");
    reveal_strlit("__END_RMS_THRESHOLD__");
    reveal_strlit("__TTS_BIN_PATH__");
    reveal_strlit("__SPOKEN_VOICE__");
    reveal_strlit("# TTS-BEGIN");
    reveal_strlit("# TTS-END");
    reveal_strlit("1");
    reveal_strlit("0");
    let ph = "__TRANSLATOR_PASSTHROUGH__"@;
    let tail = ph + seq!['\n'];
    let template = passthrough_line(key);
    assert(template =~= key + tail);
    // The language placeholders occur nowhere in the template.
    let src = "__TRANSLATION_SRC_LANG__"@;
    let tgt = "__TRANSLATION_TGT_LANG__"@;
    assert forall|i: int| !#[trigger] occurs_at(tail, src, i) by {
        if !(0 <= i && i + src.len() <= tail.len()) {
        } else if i == 0 {
            assert(tail.subrange(i, i + src.len())[10] != src[10]);
        } else {
            assert(tail.subrange(i, i + src.len())[1] != src[1] || tail.subrange(i, i + src.len())[0] != src[0]);
        }
    }
    assert forall|i: int| !#[trigger] occurs_at(tail, tgt, i) by {
        if !(0 <= i && i + tgt.len() <= tail.len()) {
        } else if i == 0 {
            assert(tail.subrange(i, i + tgt.len())[10] != tgt[10]);
        } else {
            assert(tail.subrange(i, i + tgt.len())[1] != tgt[1] || tail.subrange(i, i + tgt.len())[0] != tgt[0]);
        }
    }
    lemma_replace_all_skips(key, tail, src, source_language);
    lemma_replace_all_absent(tail, src, source_language);
    lemma_replace_all_skips(key, tail, tgt, target_language);
    lemma_replace_all_absent(tail, tgt, target_language);
    let r2 = replace_all(replace_all(template, src, source_language), tgt, target_language);
    assert(r2 == template);
    // The switch itself.
    let v = if target_language == "none"@ {
        "1"@
    } else {
        "0"@
    };
    lemma_replace_all_skips(key, tail, ph, v);
    assert(tail.subrange(0, ph.len() as int) =~= ph);
    assert(tail.subrange(ph.len() as int, tail.len() as int) =~= seq!['\n']);
    lemma_replace_all_short(seq!['\n'], ph, v);
    let line = key + v + seq!['\n'];
    assert(replace_all(template, ph, v) =~= line);
    // Nothing else is left to fill in.
    assert forall|i: int| 0 <= i < line.len() implies line[i] != '_' && line[i] != '#' && line[i] != '\r' by {
        if i < key.len() {
            assert(line[i] == key[i]);
        }
    }
    let p = vad_params(source_language);
    let (start_rms, end_rms) = rms_thresholds(source_language, system_audio);
    lemma_replace_all_no_underscore(line, "__ASR_BIN_PATH__"@, asr_path);
    lemma_replace_all_no_underscore(line, "__TRANSLATOR_BIN_PATH__"@, translator_path);
    lemma_replace_all_no_underscore(line, "__SPEECH_START_FRAMES__"@, decimal(p.0 as nat));
    lemma_replace_all_no_underscore(line, "__SPEECH_END_FRAMES__"@, decimal(p.1 as nat));
    lemma_replace_all_no_underscore(line, "__SPEECH_END_MS__"@, decimal(p.2 as nat));
    lemma_replace_all_no_underscore(line, "__QUESTION_END_SILENCE_MS__"@, decimal(p.3 as nat));
    lemma_replace_all_no_underscore(line, "__MIN_SEGMENT_MS__"@, decimal(p.4 as nat));
    lemma_replace_all_no_underscore(line, "__MAX_SEGMENT_MS__"@, "8000"@);
    lemma_replace_all_no_underscore(line, "__START_RMS_THRESHOLD__"@, fixed4(start_rms));
    lemma_replace_all_no_underscore(line, "__END_RMS_THRESHOLD__"@, fixed4(end_rms));
    match tts_path {
        Some(t) => {
            lemma_replace_all_no_underscore(line, "__TTS_BIN_PATH__"@, t);
            lemma_replace_all_no_underscore(line, "__SPOKEN_VOICE__"@, spoken_voice);
        },
        None => {
            // The one line holds no marker, so stripping keeps it.
            let n = line.len() - 1;
            assert forall|j: int| 0 <= j < n implies line[j] != '\n' by {
                if j < key.len() {
                    assert(line[j] == key[j]);
                }
            }
            lemma_find_char_first(line, '\n', n);
            assert(line.subrange(0, n) =~= key + v);
            assert(line.subrange(n + 1, line.len() as int) =~= Seq::<char>::empty());
            assert((key + v).last() == v[0]);
            assert(strip_cr(key + v) == key + v);
            assert(lines(Seq::<char>::empty()) == Seq::<Seq<char>>::empty());
            assert(lines(line) == seq![strip_cr(line.subrange(0, n))] + lines(line.subrange(n + 1, line.len() as int)));
            assert(lines(line) =~= seq![key + v]);
            let first = key + v;
            assert forall|i: int| 0 <= i < lines(line).len() implies !is_tts_marker(#[trigger] lines(line)[i]) by {
                assert(lines(line)[i] == first);
                if contains(first, "# TTS-BEGIN"@) {
                    let j = choose|j: int| occurs_at(first, "# TTS-BEGIN"@, j);
                    assert(first.subrange(j, j + 11)[0] == first[j]);
                    assert(line[j] == first[j]);
                }
                if contains(first, "# TTS-END"@) {
                    let j = choose|j: int| occurs_at(first, "# TTS-END"@, j);
                    assert(first.subrange(j, j + 9)[0] == first[j]);
                    assert(line[j] == first[j]);
                }
            }
            assert forall|k: int| 0 <= k < line.len() - 1 implies !#[trigger] crlf_at(line, k) by {}
            law_strip_optional_tts_keeps_plain_text(line);
        },
    }
}

} // verus!
