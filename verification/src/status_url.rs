//! Post URLs: recognising the URL of a post on X (Twitter) and addressing
//! the fxtwitter API for it.

use vstd::prelude::*;

verus! {

/// The pattern that a post URL is searched for: the host `twitter.com` or
/// `x.com`, then `/` and the author's screen name (ASCII letters, digits and
/// `_`), then `/status/` and the numeric ID of the post. Group 1 is the
/// screen name, group 2 the ID.
pub const STATUS_URL_PATTERN: &'static str = "(?:twitter|x)\\.com/([A-Za-z0-9_]+)/status/(\\d+)";

/// `part` occurs in `whole` as a contiguous piece.
pub open spec fn is_substring(part: Seq<char>, whole: Seq<char>) -> bool {
    exists|k: int| 0 <= k && k + part.len() <= whole.len() && #[trigger] whole.subrange(k, k + part.len()) == part
}

/// What the regex crate finds when `pattern` is compiled and `haystack` is
/// searched for its first match: the text of each capture group in order,
/// group 0 being the whole match and an absent group being `None`; `None`
/// where the pattern does not compile or does not match.
pub uninterp spec fn regex_capture_groups(pattern: Seq<char>, haystack: Seq<char>) -> Option<Seq<Option<Seq<char>>>>;

/// Compiles `pattern` with `regex::Regex::new` and searches `haystack` with
/// `Regex::captures`, returning the text of every capture group
/// (`Captures::iter`, `Match::as_str`).
/// Trusted: the result is what [`regex_capture_groups`] names for the pattern
/// and the haystack; of a match, it claims only what the crate documents of
/// every match: group 0 (the whole match) is present, and each present group
/// is a piece of the haystack. Which piece matches is left to the name.
#[verifier::external_body]
fn regex_captures(pattern: &str, haystack: &str) -> (r: Option<Vec<Option<String>>>)
    ensures
        r.deep_view() == regex_capture_groups(pattern@, haystack@),
        r matches Some(groups) ==> groups@.len() >= 1 && groups@[0] is Some,
        r matches Some(groups) ==> forall|i: int|
            0 <= i < groups@.len() && #[trigger] groups@[i] is Some ==> is_substring(
                groups@[i]->0@,
                haystack@,
            ),
{
    let re = regex::Regex::new(pattern).ok()?;
    let caps = re.captures(haystack)?;
    let mut groups = Vec::new();
    for group in caps.iter() {
        groups.push(match group {
            Some(m) => Some(m.as_str().to_string()),
            None => None,
        });
    }
    Some(groups)
}

/// The screen name and post ID in the capture groups of a post URL match:
/// groups 1 and 2, where the URL matched and both are present.
pub open spec fn status_parts(groups: Option<Seq<Option<Seq<char>>>>) -> Option<(Seq<char>, Seq<char>)> {
    match groups {
        Some(g) => if g.len() > 2 && g[1] is Some && g[2] is Some {
            Some((g[1]->0, g[2]->0))
        } else {
            None
        },
        None => None,
    }
}

/// The screen name and post ID in the capture groups of a post URL match
/// (see [`status_parts`]).
pub fn status_parts_of(groups: Option<Vec<Option<String>>>) -> (r: Option<(String, String)>)
    ensures
        r.deep_view() == status_parts(groups.deep_view()),
{
    let mut g = match groups {
        Some(g) => g,
        None => {
            return None;
        },
    };
    if g.len() <= 2 {
        return None;
    }
    let id = g.remove(2);
    let name = g.remove(1);
    match (name, id) {
        (Some(name), Some(id)) => Some((name, id)),
        _ => None,
    }
}

/// The author's screen name and the post's ID in a post URL on `x.com` or
/// `twitter.com`; `None` where the URL is not recognised.
pub fn parse_status_url(url: &str) -> (r: Option<(String, String)>)
    ensures
        r.deep_view() == status_parts(regex_capture_groups(STATUS_URL_PATTERN@, url@)),
        r matches Some(parts) ==> is_substring(parts.0@, url@) && is_substring(parts.1@, url@),
{
    let groups = regex_captures(STATUS_URL_PATTERN, url);
    status_parts_of(groups)
}

/// The fxtwitter API address of post `id` by `screen_name`.
pub open spec fn api_status_url(screen_name: Seq<char>, id: Seq<char>) -> Seq<char> {
    "https://api.fxtwitter.com/"@ + screen_name + "/status/"@ + id
}

/// The fxtwitter API address of post `id` by `screen_name`.
pub fn fxtwitter_status_url(screen_name: &str, id: &str) -> (r: String)
    ensures
        r@ == api_status_url(screen_name@, id@),
{
    let mut r = String::from_str("https://api.fxtwitter.com/");
    r.append(screen_name);
    r.append("/status/");
    r.append(id);
    r
}

} // verus!
