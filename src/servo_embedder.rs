//! Web content embedding: the embedder's life-cycle states and the check
//! that a URL may be loaded.
use vstd::prelude::*;

verus! {

/// Life-cycle state of the embedder.
#[derive(Debug, Clone)]
pub enum EmbedderState {
    /// Before any initialization.
    Uninitialized,
    /// Initializing the script engine, compositor session and subsystems.
    Initializing,
    /// Ready for a content load.
    Ready,
    /// A URL load is in progress.
    Loading,
    /// A page is loaded and rendering.
    Running,
    /// An unrecoverable error, with its description.
    Error(String),
}

/// Unicode lower-case mapping of a string, as `str::to_lowercase` computes it.
pub uninterp spec fn lower_of(s: Seq<char>) -> Seq<char>;

/// Whether a character has the Unicode `White_Space` property: U+0009 to
/// U+000D, U+0020, U+0085, U+00A0, U+1680, U+2000 to U+200A, U+2028,
/// U+2029, U+202F, U+205F and U+3000.
pub open spec fn white_space(c: char) -> bool {
    let n = c as u32;
    ||| 0x09 <= n <= 0x0D
    ||| n == 0x20
    ||| n == 0x85
    ||| n == 0xA0
    ||| n == 0x1680
    ||| 0x2000 <= n <= 0x200A
    ||| n == 0x2028
    ||| n == 0x2029
    ||| n == 0x202F
    ||| n == 0x205F
    ||| n == 0x3000
}

/// `p` is a prefix of `s`.
pub open spec fn has_prefix(s: Seq<char>, p: Seq<char>) -> bool {
    p.len() <= s.len() && s.subrange(0, p.len() as int) == p
}

/// Relies on `str::to_lowercase`: its result depends on the characters alone.
#[verifier::external_body]
fn lowercase(s: &str) -> (r: String)
    ensures
        r@ == lower_of(s@),
{
    s.to_lowercase()
}

/// `t` is `s` without its leading and trailing `White_Space` characters.
pub open spec fn trimmed(s: Seq<char>, t: Seq<char>) -> bool {
    exists|i: int, j: int|
        0 <= i <= j <= s.len() && t == #[trigger] s.subrange(i, j) && (forall|k: int|
            0 <= k < i ==> white_space(#[trigger] s[k])) && (forall|k: int|
            j <= k < s.len() ==> white_space(#[trigger] s[k])) && (i < j ==> !white_space(s[i])
            && !white_space(s[j - 1]))
}

/// Relies on `str::trim`: the string without its leading and trailing
/// `White_Space` characters.
#[verifier::external_body]
fn trim(s: &str) -> (r: &str)
    ensures
        trimmed(s@, r@),
{
    s.trim()
}

/// Relies on `str::starts_with` with a `&str` pattern: whether `p` is a
/// prefix of `s`.
#[verifier::external_body]
fn starts_with(s: &str, p: &str) -> (r: bool)
    ensures
        r == has_prefix(s@, p@),
{
    s.starts_with(p)
}

/// Every character of `s` is `White_Space`.
pub open spec fn all_white_space(s: Seq<char>) -> bool {
    forall|i: int| 0 <= i < s.len() ==> white_space(#[trigger] s[i])
}

/// Why `url` may not be loaded, given whether it is blank and its
/// lower-case form, or `None` if it may: it must not be empty or blank,
/// must start with `http://` or `https://` in any letter case, and must be
/// at least 10 bytes long (in UTF-8).
pub open spec fn url_problem_given(url: &str, blank: bool, lower: Seq<char>) -> Option<Seq<char>> {
    if url@.len() == 0 {
        Some("URL cannot be empty"@)
    } else if blank {
        Some("URL cannot be only whitespace"@)
    } else if !has_prefix(lower, "http://"@) && !has_prefix(lower, "https://"@) {
        Some("URL must start with http:// or https://"@)
    } else if url.len() < 10 {
        Some("URL is too short to be valid"@)
    } else {
        None
    }
}

/// Why `url` may not be loaded, or `None` if it may.
pub open spec fn url_problem(url: &str) -> Option<Seq<char>> {
    url_problem_given(url, all_white_space(url@), lower_of(url@))
}

/// Check `url` given whether it is blank and its lower-case form
/// `url_lower`; the error says why it may not be loaded.
pub fn check_url(url: &str, blank: bool, url_lower: &str) -> (r: Result<(), String>)
    ensures
        url_problem_given(url, blank, url_lower@) is None ==> r is Ok,
        url_problem_given(url, blank, url_lower@) matches Some(m) ==> (r matches Err(e) && e@ == m),
{
    if url.is_empty() {
        return Err("URL cannot be empty".to_owned());
    }
    if blank {
        return Err("URL cannot be only whitespace".to_owned());
    }
    if !starts_with(url_lower, "http://") && !starts_with(url_lower, "https://") {
        return Err("URL must start with http:// or https://".to_owned());
    }
    if url.len() < 10 {
        return Err("URL is too short to be valid".to_owned());
    }
    Ok(())
}

/// Check that `url` may be loaded; the error says why not.
pub fn validate_url(url: &str) -> (r: Result<(), String>)
    ensures
        url_problem(url) is None ==> r is Ok,
        url_problem(url) matches Some(m) ==> (r matches Err(e) && e@ == m),
{
    let rest = trim(url);
    let blank = rest.is_empty();
    proof {
        let (i, j) = choose|i: int, j: int|
            0 <= i <= j <= url@.len() && rest@ == #[trigger] url@.subrange(i, j) && (forall|k: int|
                0 <= k < i ==> white_space(#[trigger] url@[k])) && (forall|k: int|
                j <= k < url@.len() ==> white_space(#[trigger] url@[k])) && (i < j ==> !white_space(url@[i])
                && !white_space(url@[j - 1]));
        if !blank {
            assert(!white_space(url@[i]));
        } else {
            assert forall|k: int| 0 <= k < url@.len() implies white_space(#[trigger] url@[k]) by {
                if k >= i {
                    assert(k >= j);
                }
            }
        }
    }
    let url_lower = lowercase(url);
    check_url(url, blank, url_lower.as_str())
}

} // verus!
