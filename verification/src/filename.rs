//! File names: the names suggested for downloaded media, and the numbered
//! alternatives tried when a name is already taken.

use vstd::prelude::*;
use crate::text::{
    after_last, before_first, chars_of, decimal, find_first, find_last, last_index, push_char,
    push_decimal, string_of_range,
};

verus! {

/// Characters that Windows does not allow in file names.
pub open spec fn is_forbidden_in_file_name(c: char) -> bool {
    c == '\\' || c == '/' || c == ':' || c == '*' || c == '?' || c == '"' || c == '<' || c == '>'
        || c == '|'
}

/// `s` with every character that Windows does not allow in file names
/// replaced by `_`.
pub open spec fn sanitized(s: Seq<char>) -> Seq<char> {
    s.map_values(|c: char| if is_forbidden_in_file_name(c) { '_' } else { c })
}

/// Replaces every character that Windows does not allow in file names with `_`.
pub fn sanitize_filename(name: &str) -> (r: String)
    ensures
        r@ == sanitized(name@),
{
    let v = chars_of(name);
    let mut r = String::new();
    let mut i: usize = 0;
    while i < v.len()
        invariant
            v@ == name@,
            i <= v@.len(),
            r@ == sanitized(name@).take(i as int),
        decreases v@.len() - i,
    {
        let c = v[i];
        let out = if c == '\\' || c == '/' || c == ':' || c == '*' || c == '?' || c == '"' || c == '<'
            || c == '>' || c == '|' {
            '_'
        } else {
            c
        };
        push_char(&mut r, out);
        i = i + 1;
        assert(r@ =~= sanitized(name@).take(i as int));
    }
    assert(r@ =~= sanitized(name@));
    r
}

/// A sanitized name has the length of the original, holds no forbidden
/// character, keeps every allowed character in place, and stays the same
/// when sanitized again.
pub proof fn lemma_sanitized_properties(s: Seq<char>)
    ensures
        sanitized(s).len() == s.len(),
        forall|i: int| 0 <= i < s.len() ==> !is_forbidden_in_file_name(#[trigger] sanitized(s)[i]),
        forall|i: int|
            0 <= i < s.len() && !is_forbidden_in_file_name(s[i]) ==> #[trigger] sanitized(s)[i]
                == s[i],
        sanitized(sanitized(s)) == sanitized(s),
{
    assert(sanitized(sanitized(s)) =~= sanitized(s));
}

/// Sanitizing changes exactly the nine characters that Windows refuses in file
/// names, `\ / : * ? " < > |`, each into `_`; every other character (letters
/// of any case, digits, spaces, non-ASCII text) stays in its place.
pub proof fn lemma_sanitize_changes_only_forbidden(s: Seq<char>)
    ensures
        sanitized(s).len() == s.len(),
        forall|i: int|
            0 <= i < s.len() ==> {
                let c = s[i];
                if c == '\\' || c == '/' || c == ':' || c == '*' || c == '?' || c == '"' || c == '<'
                    || c == '>' || c == '|' {
                    #[trigger] sanitized(s)[i] == '_'
                } else {
                    sanitized(s)[i] == c
                }
            },
{
}

/// A text made only of characters that Windows allows in file names (none of
/// `\ / : * ? " < > |`) is left as it is by sanitizing.
pub proof fn lemma_sanitize_keeps_allowed_text(s: Seq<char>)
    requires
        forall|i: int|
            0 <= i < s.len() ==> {
                let c = #[trigger] s[i];
                !(c == '\\' || c == '/' || c == ':' || c == '*' || c == '?' || c == '"' || c == '<'
                    || c == '>' || c == '|')
            },
    ensures
        sanitized(s) == s,
{
    lemma_sanitize_changes_only_forbidden(s);
    assert(sanitized(s) =~= s);
}

/// The name suggested for item `index` (counted from 1) of `total` media
/// items of post `id` by `screen_name`, with extension `ext`: a single item
/// gets no number.
pub open spec fn suggested_name(
    screen_name: Seq<char>,
    id: Seq<char>,
    index: nat,
    total: nat,
    ext: Seq<char>,
) -> Seq<char> {
    if total == 1 {
        sanitized(screen_name + seq!['_'] + id + seq!['.'] + ext)
    } else {
        sanitized(screen_name + seq!['_'] + id + seq!['_'] + decimal(index) + seq!['.'] + ext)
    }
}

/// The file name suggested for a media item (see [`suggested_name`]).
pub fn suggested_filename(screen_name: &str, id: &str, index: usize, total: usize, ext: &str) -> (r: String)
    ensures
        r@ == suggested_name(screen_name@, id@, index as nat, total as nat, ext@),
{
    let mut name = String::new();
    name.append(screen_name);
    push_char(&mut name, '_');
    name.append(id);
    if total != 1 {
        push_char(&mut name, '_');
        push_decimal(&mut name, index as u64);
    }
    push_char(&mut name, '.');
    name.append(ext);
    proof {
        if total == 1 {
            assert(name@ =~= screen_name@ + seq!['_'] + id@ + seq!['.'] + ext@);
        } else {
            assert(name@ =~= screen_name@ + seq!['_'] + id@ + seq!['_'] + decimal(index as nat)
                + seq!['.'] + ext@);
        }
    }
    sanitize_filename(name.as_str())
}

/// For a post with a single media item, and a screen name, ID and extension
/// that hold no character Windows refuses in file names, the suggested name
/// is exactly `screen_name_id.ext`; with several items it is
/// `screen_name_id_index.ext`, the index in decimal.
pub proof fn lemma_suggested_name_of_plain_parts(
    screen_name: Seq<char>,
    id: Seq<char>,
    index: nat,
    total: nat,
    ext: Seq<char>,
)
    requires
        forall|i: int|
            0 <= i < screen_name.len() ==> {
                let c = #[trigger] screen_name[i];
                !(c == '\\' || c == '/' || c == ':' || c == '*' || c == '?' || c == '"' || c == '<'
                    || c == '>' || c == '|')
            },
        forall|i: int|
            0 <= i < id.len() ==> {
                let c = #[trigger] id[i];
                !(c == '\\' || c == '/' || c == ':' || c == '*' || c == '?' || c == '"' || c == '<'
                    || c == '>' || c == '|')
            },
        forall|i: int|
            0 <= i < ext.len() ==> {
                let c = #[trigger] ext[i];
                !(c == '\\' || c == '/' || c == ':' || c == '*' || c == '?' || c == '"' || c == '<'
                    || c == '>' || c == '|')
            },
    ensures
        total == 1 ==> suggested_name(screen_name, id, index, total, ext) == screen_name + seq!['_'] + id
            + seq!['.'] + ext,
        total != 1 ==> suggested_name(screen_name, id, index, total, ext) == screen_name + seq!['_'] + id
            + seq!['_'] + decimal(index) + seq!['.'] + ext,
{
    let a = screen_name + seq!['_'] + id + seq!['.'] + ext;
    let b = screen_name + seq!['_'] + id + seq!['_'] + decimal(index) + seq!['.'] + ext;
    crate::text::lemma_decimal_digits(index);
    assert forall|i: int| 0 <= i < a.len() implies {
        let c = #[trigger] a[i];
        !(c == '\\' || c == '/' || c == ':' || c == '*' || c == '?' || c == '"' || c == '<' || c == '>'
            || c == '|')
    } by {
        if i < screen_name.len() {
            assert(a[i] == screen_name[i]);
        } else if i == screen_name.len() {
        } else if i < screen_name.len() + 1 + id.len() {
            assert(a[i] == id[i - screen_name.len() - 1]);
        } else if i == screen_name.len() + 1 + id.len() {
        } else {
            assert(a[i] == ext[i - screen_name.len() - 2 - id.len()]);
        }
    }
    let d = decimal(index);
    assert forall|i: int| 0 <= i < b.len() implies {
        let c = #[trigger] b[i];
        !(c == '\\' || c == '/' || c == ':' || c == '*' || c == '?' || c == '"' || c == '<' || c == '>'
            || c == '|')
    } by {
        let n = screen_name.len() as int;
        let m = id.len() as int;
        if i < n {
            assert(b[i] == screen_name[i]);
        } else if i == n {
        } else if i < n + 1 + m {
            assert(b[i] == id[i - n - 1]);
        } else if i == n + 1 + m {
        } else if i < n + 2 + m + d.len() {
            assert(b[i] == d[i - n - 2 - m]);
        } else if i == n + 2 + m + d.len() {
        } else {
            assert(b[i] == ext[i - n - 3 - m - d.len()]);
        }
    }
    lemma_sanitize_keeps_allowed_text(a);
    lemma_sanitize_keeps_allowed_text(b);
}

/// `c` in lower case where it is an ASCII upper-case letter.
pub open spec fn ascii_lower(c: char) -> char {
    if 'A' <= c <= 'Z' {
        ((c as int) + 32) as char
    } else {
        c
    }
}

/// The extension of an image URL: after the query is cut off, the part of
/// the last path segment after its last `.`, in ASCII lower case; `jpg` where
/// the segment has no `.` or nothing follows it.
pub open spec fn image_extension_of(url: Seq<char>) -> Seq<char> {
    let segment = after_last(before_first(url, '?'), '/');
    let dot = last_index(segment, '.');
    if dot == -1 || dot + 1 == segment.len() {
        seq!['j', 'p', 'g']
    } else {
        segment.skip(dot + 1).map_values(|c: char| ascii_lower(c))
    }
}

/// An image URL always yields an extension.
pub proof fn lemma_image_extension_not_empty(url: Seq<char>)
    ensures
        image_extension_of(url).len() > 0,
{
    let segment = after_last(before_first(url, '?'), '/');
    crate::text::lemma_last_index_bounds(segment, '.');
}

/// The extension of an image URL (see [`image_extension_of`]).
pub fn image_extension(url: &str) -> (r: String)
    ensures
        r@ == image_extension_of(url@),
{
    let v = chars_of(url);
    let path_end = find_first(v.as_slice(), '?');
    assert(v@.take(path_end as int) == before_first(url@, '?'));
    let seg_start = match find_last(v.as_slice(), path_end, '/') {
        Some(i) => i + 1,
        None => 0,
    };
    let ghost segment = after_last(before_first(url@, '?'), '/');
    assert(segment =~= v@.subrange(seg_start as int, path_end as int));
    let dot = find_last(v.as_slice(), path_end, '.');
    let mut r = String::new();
    match dot {
        Some(d) if d >= seg_start && d + 1 < path_end => {
            proof {
                crate::text::lemma_last_index(segment, '.', d - seg_start);
            }
            let mut i: usize = d + 1;
            while i < path_end
                invariant
                    d + 1 <= i <= path_end <= v@.len(),
                    r@ == v@.subrange(d + 1, i as int).map_values(|c: char| ascii_lower(c)),
                decreases path_end - i,
            {
                let c = v[i];
                let lc = if c >= 'A' && c <= 'Z' {
                    ((c as u8) + 32) as char
                } else {
                    c
                };
                assert(lc == ascii_lower(c));
                push_char(&mut r, lc);
                i = i + 1;
                assert(r@ =~= v@.subrange(d + 1, i as int).map_values(|c: char| ascii_lower(c)));
            }
            assert(segment.skip(d - seg_start + 1) =~= v@.subrange(d + 1, path_end as int));
        },
        _ => {
            proof {
                match dot {
                    Some(d) => {
                        if d >= seg_start {
                            crate::text::lemma_last_index(segment, '.', d - seg_start);
                        } else {
                            crate::text::lemma_last_index(segment, '.', -1);
                        }
                    },
                    None => {
                        crate::text::lemma_last_index(segment, '.', -1);
                    },
                }
            }
            r.append("jpg");
            proof {
                reveal_strlit("jpg");
            }
            assert(r@ =~= seq!['j', 'p', 'g']);
        },
    }
    r
}


/// Index at which a file name splits into stem and extension, as std's
/// `Path::file_stem` and `Path::extension` split it: at the last `.`, unless
/// the name is `..`, has no `.`, or has its only `.` in front; then the whole
/// name is the stem, and the result is the name's length.
pub open spec fn extension_start(name: Seq<char>) -> int {
    let dot = last_index(name, '.');
    if name == seq!['.', '.'] || dot <= 0 {
        name.len() as int
    } else {
        dot
    }
}

/// The stem of a file name (the name without its extension).
pub open spec fn file_stem_of(name: Seq<char>) -> Seq<char> {
    name.take(extension_start(name))
}

/// The extension of a file name with its leading `.`; empty where there is
/// none.
pub open spec fn dotted_extension_of(name: Seq<char>) -> Seq<char> {
    name.skip(extension_start(name))
}

/// The alternative to the file name `name` with number `n`:
/// `stem (n).ext`.
pub open spec fn numbered_name(name: Seq<char>, n: nat) -> Seq<char> {
    file_stem_of(name) + seq![' ', '('] + decimal(n) + seq![')'] + dotted_extension_of(name)
}

/// The alternative to the file name `name` with number `n`, tried when `name`
/// is taken: `stem (n).ext` (see [`numbered_name`]). `name` is the final
/// component of a path, without separators.
pub fn numbered_file_name(name: &str, n: u64) -> (r: String)
    ensures
        r@ == numbered_name(name@, n as nat),
{
    let v = chars_of(name);
    let len = v.len();
    let dot = find_last(v.as_slice(), len, '.');
    assert(v@.take(len as int) =~= name@);
    let is_dot_dot = len == 2 && v[0] == '.' && v[1] == '.';
    assert(is_dot_dot <==> name@ == seq!['.', '.']) by {
        if name@ == seq!['.', '.'] {
            assert(name@[0] == '.' && name@[1] == '.');
        }
        if is_dot_dot {
            assert(name@ =~= seq!['.', '.']);
        }
    }
    let split = match dot {
        Some(d) if d > 0 && !is_dot_dot => d,
        _ => len,
    };
    assert(split as int == extension_start(name@));
    let mut r = string_of_range(v.as_slice(), 0, split);
    push_char(&mut r, ' ');
    push_char(&mut r, '(');
    push_decimal(&mut r, n);
    push_char(&mut r, ')');
    let ext = string_of_range(v.as_slice(), split, len);
    r.append(ext.as_str());
    assert(r@ =~= numbered_name(name@, n as nat));
    r
}

/// A file name is its stem followed by its dotted extension.
pub proof fn lemma_stem_and_extension_make_name(name: Seq<char>)
    ensures
        file_stem_of(name) + dotted_extension_of(name) == name,
{
    crate::text::lemma_last_index_bounds(name, '.');
    assert(file_stem_of(name) + dotted_extension_of(name) =~= name);
}

/// The numbered alternatives to a file name are all different from each
/// other and from the name itself, so a search through them never tries a
/// name twice.
pub proof fn lemma_numbered_names_distinct(name: Seq<char>, a: nat, b: nat)
    ensures
        numbered_name(name, a) != name,
        a != b ==> numbered_name(name, a) != numbered_name(name, b),
{
    lemma_stem_and_extension_make_name(name);
    let stem = file_stem_of(name);
    let ext = dotted_extension_of(name);
    assert(numbered_name(name, a).len() == name.len() + 3 + decimal(a).len());
    if a != b && numbered_name(name, a) == numbered_name(name, b) {
        let na = numbered_name(name, a);
        let nb = numbered_name(name, b);
        assert(decimal(a).len() == decimal(b).len());
        let start: int = stem.len() as int + 2;
        assert(na.subrange(start, start + decimal(a).len() as int) =~= decimal(a));
        assert(nb.subrange(start, start + decimal(b).len() as int) =~= decimal(b));
        crate::text::lemma_decimal_injective(a, b);
    }
}


/// A name tried in the search for a free file name: the name itself, or its
/// numbered alternative `stem (n).ext`.
#[derive(PartialEq, Eq, Structural, Clone, Copy, Debug)]
pub enum Candidate {
    Original,
    Numbered(u64),
}

/// The candidate tried after `c`: the name itself is followed by number 2,
/// and each number by the next.
pub open spec fn following(c: Candidate) -> Candidate {
    match c {
        Candidate::Original => Candidate::Numbered(2),
        Candidate::Numbered(n) => Candidate::Numbered((n + 1) as u64),
    }
}

/// The candidate tried at step `k` of the search (counted from 0): the name
/// itself first, then the numbers from 2 upward.
pub open spec fn nth_candidate(k: nat) -> Candidate {
    if k == 0 {
        Candidate::Original
    } else {
        Candidate::Numbered((k + 1) as u64)
    }
}

/// One step of the search for a free file name: where `current` is free
/// (`taken` is false), the search ends on it (`None`); otherwise it goes on
/// with the following candidate.
pub open spec fn search_step(current: Candidate, taken: bool) -> Option<Candidate> {
    if taken {
        Some(following(current))
    } else {
        None
    }
}

/// One step of the search for a free file name (see [`search_step`]).
pub fn next_candidate(current: Candidate, taken: bool) -> (r: Option<Candidate>)
    requires
        current matches Candidate::Numbered(n) ==> n < u64::MAX,
    ensures
        r == search_step(current, taken),
{
    if !taken {
        return None;
    }
    match current {
        Candidate::Original => Some(Candidate::Numbered(2)),
        Candidate::Numbered(n) => Some(Candidate::Numbered(n + 1)),
    }
}

/// The search tries the name itself, then the numbers 2, 3, ... in order, and
/// ends only on a candidate that is free, namely the first free one: where
/// the candidates of steps `0..k` are taken and that of step `k` is free,
/// each earlier step leads to the next candidate and step `k` ends the
/// search. The names tried are all different (see
/// [`lemma_numbered_names_distinct`]).
pub proof fn lemma_search_takes_first_free(taken: spec_fn(Candidate) -> bool, k: nat)
    requires
        k + 1 < u64::MAX,
        forall|j: nat| j < k ==> #[trigger] taken(nth_candidate(j)),
        !taken(nth_candidate(k)),
    ensures
        forall|c: Candidate, t: bool| #[trigger] search_step(c, t) is None <==> !t,
        forall|j: nat|
            j < k ==> search_step(nth_candidate(j), taken(nth_candidate(j))) == Some(
                #[trigger] nth_candidate(j + 1),
            ),
        search_step(nth_candidate(k), taken(nth_candidate(k))) is None,
{
    assert forall|j: nat| j < k implies search_step(nth_candidate(j), taken(nth_candidate(j))) == Some(
        #[trigger] nth_candidate(j + 1),
    ) by {
        assert(taken(nth_candidate(j)));
    }
}

} // verus!
