//! The regular expressions of session names and rollout paths, run by the
//! `regex` crate, and the template of the start command, filled by `strfmt`.
//!
//! Each call below is trusted: its contract names what the crate returns and,
//! for the patterns this library uses, says what the crate's documentation
//! says a match is.
use vstd::prelude::*;

verus! {

// ---------------------------------------------------------------------------
// What the patterns match
// ---------------------------------------------------------------------------

/// A character that a session name may hold: ASCII letters and digits, `.`,
/// `_`, `:` and `-`.
pub open spec fn name_char(c: char) -> bool {
    ||| ('A' <= c && c <= 'Z')
    ||| ('a' <= c && c <= 'z')
    ||| ('0' <= c && c <= '9')
    ||| c == '.'
    ||| c == '_'
    ||| c == ':'
    ||| c == '-'
}

/// `s` with each maximal run of characters that satisfy `in_run` replaced by `rep`.
pub open spec fn replace_runs(s: Seq<char>, in_run: spec_fn(char) -> bool, rep: Seq<char>) -> Seq<
    char,
>
    decreases s.len(),
{
    if s.len() == 0 {
        s
    } else {
        let prev = replace_runs(s.drop_last(), in_run, rep);
        if !in_run(s.last()) {
            prev.push(s.last())
        } else if s.len() >= 2 && in_run(s[s.len() - 2]) {
            prev
        } else {
            prev + rep
        }
    }
}

/// An ASCII hexadecimal digit, in either case.
pub open spec fn hex_digit(c: char) -> bool {
    ||| ('0' <= c && c <= '9')
    ||| ('a' <= c && c <= 'f')
    ||| ('A' <= c && c <= 'F')
}

/// A UUID in 8-4-4-4-12 hexadecimal form starts at position `i` of `s`.
pub open spec fn uuid_at(s: Seq<char>, i: int) -> bool {
    &&& 0 <= i
    &&& i + 36 <= s.len()
    &&& forall|k: int|
        0 <= k < 36 ==> if k == 8 || k == 13 || k == 18 || k == 23 {
            #[trigger] s[i + k] == '-'
        } else {
            hex_digit(s[i + k])
        }
}

/// The first position at or after `i` where a UUID starts.
pub open spec fn first_uuid_from(s: Seq<char>, i: int) -> Option<int>
    decreases s.len() - i,
{
    if i < 0 || i + 36 > s.len() {
        None
    } else if uuid_at(s, i) {
        Some(i)
    } else {
        first_uuid_from(s, i + 1)
    }
}

/// The first UUID in `s`, as text.
pub open spec fn first_uuid(s: Seq<char>) -> Option<Seq<char>> {
    match first_uuid_from(s, 0) {
        Some(i) => Some(s.subrange(i, i + 36)),
        None => None,
    }
}

/// A replacement text that `Regex::replace_all` takes literally: one
/// without `$`, which would name a capture group.
pub open spec fn literal_replacement(rep: Seq<char>) -> bool {
    !rep.contains('$')
}

/// The view of an optional optional text.
pub open spec fn opt_opt_string(o: Option<Option<String>>) -> Option<Option<Seq<char>>> {
    match o {
        Some(m) => Some(opt_string(m)),
        None => None,
    }
}

/// The view of an optional text.
pub open spec fn opt_string(o: Option<String>) -> Option<Seq<char>> {
    match o {
        Some(s) => Some(s@),
        None => None,
    }
}

// ---------------------------------------------------------------------------
// regex
// ---------------------------------------------------------------------------

/// A run of characters that a session name may not hold.
pub const INVALID_NAME_RUN: &'static str = "[^A-Za-z0-9._:-]+";

/// A run of underscores.
pub const UNDERSCORE_RUN: &'static str = "_+";

/// A whole session name.
pub const VALID_NAME: &'static str = "^[A-Za-z0-9._:-]+$";

/// A UUID in 8-4-4-4-12 hexadecimal form, in either case.
pub const SESSION_ID_PATTERN: &'static str = "(?i)[0-9a-f]{8}-[0-9a-f]{4}-[0-9a-f]{4}-[0-9a-f]{4}-[0-9a-f]{12}";

/// What `Regex::new(pattern)` and then `Regex::replace_all(text, rep)` give:
/// the replaced text, or `None` when the pattern does not compile.
pub uninterp spec fn spec_regex_replace_all(pattern: Seq<char>, text: Seq<char>, rep: Seq<char>) -> Option<Seq<char>>;

/// What `Regex::new(pattern)` and then `Regex::is_match(text)` give, or `None`
/// when the pattern does not compile.
pub uninterp spec fn spec_regex_is_match(pattern: Seq<char>, text: Seq<char>) -> Option<bool>;

/// What `Regex::new(pattern)` and then `Regex::find(text)` give (the matched
/// text), or `None` when the pattern does not compile.
pub uninterp spec fn spec_regex_find(pattern: Seq<char>, text: Seq<char>) -> Option<Option<Seq<char>>>;

/// Compiles `pattern` with `regex::Regex::new` and replaces every
/// non-overlapping leftmost-first match in `text` with `rep`
/// (`Regex::replace_all`). The result is the one named by
/// `spec_regex_replace_all`; for a replacement without `$` (so taken
/// literally) and the two patterns the library uses, it is each maximal run
/// of the characters the pattern's class matches, replaced once.
#[verifier::external_body]
pub(crate) fn regex_replace_all(pattern: &str, text: &str, rep: &str) -> (r: Option<String>)
    ensures
        opt_string(r) == spec_regex_replace_all(pattern@, text@, rep@),
        pattern@ == INVALID_NAME_RUN@ && literal_replacement(rep@) ==> opt_string(r) == Some(
            replace_runs(text@, |c: char| !name_char(c), rep@),
        ),
        pattern@ == UNDERSCORE_RUN@ && literal_replacement(rep@) ==> opt_string(r) == Some(
            replace_runs(text@, |c: char| c == '_', rep@),
        ),
{
    match regex::Regex::new(pattern) {
        Ok(re) => Some(re.replace_all(text, rep).into_owned()),
        Err(_) => None,
    }
}

/// Compiles `pattern` with `regex::Regex::new` and tests it on `text` with
/// `Regex::is_match`. The result is the one named by `spec_regex_is_match`;
/// for the anchored pattern of session names it holds exactly when `text` is
/// a non-empty run of name characters.
#[verifier::external_body]
pub(crate) fn regex_is_match(pattern: &str, text: &str) -> (r: Option<bool>)
    ensures
        r == spec_regex_is_match(pattern@, text@),
        pattern@ == VALID_NAME@ ==> r == Some(
            text@.len() > 0 && forall|i: int| 0 <= i < text@.len() ==> name_char(#[trigger] text@[i]),
        ),
{
    match regex::Regex::new(pattern) {
        Ok(re) => Some(re.is_match(text)),
        Err(_) => None,
    }
}

/// Compiles `pattern` with `regex::Regex::new` and returns the text of its
/// leftmost-first match in `text` (`Regex::find`). The result is the one
/// named by `spec_regex_find`; for the case-insensitive UUID pattern, whose
/// matches all have 36 characters, it is the UUID that starts first.
#[verifier::external_body]
pub(crate) fn regex_find(pattern: &str, text: &str) -> (r: Option<Option<String>>)
    ensures
        opt_opt_string(r) == spec_regex_find(pattern@, text@),
        pattern@ == SESSION_ID_PATTERN@ ==> opt_opt_string(r) == Some(first_uuid(text@)),
{
    match regex::Regex::new(pattern) {
        Ok(re) => Some(re.find(text).map(|m| m.as_str().to_string())),
        Err(_) => None,
    }
}

// ---------------------------------------------------------------------------
// strfmt
// ---------------------------------------------------------------------------

/// What `strfmt::strfmt(template, vars)` gives when `vars` maps `key` to
/// `value` alone, or `None` when it fails.
pub uninterp spec fn spec_strfmt_one(template: Seq<char>, key: Seq<char>, value: Seq<char>) -> Option<Seq<char>>;

/// Fills `template` with `strfmt::strfmt`, the variables being `key`
/// mapped to `value`. The result is the one named by `spec_strfmt_one`; a
/// template without braces comes back as it is (`strfmt_map` copies every
/// character outside a brace).
#[verifier::external_body]
pub(crate) fn strfmt_one(template: &str, key: &str, value: &str) -> (r: Option<String>)
    ensures
        opt_string(r) == spec_strfmt_one(template@, key@, value@),
        !template@.contains('{') && !template@.contains('}') ==> opt_string(r) == Some(template@),
{
    let mut vars = std::collections::HashMap::new();
    vars.insert(key.to_string(), value.to_string());
    strfmt::strfmt(template, &vars).ok()
}

} // verus!
