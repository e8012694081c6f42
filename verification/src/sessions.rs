//! tmux sessions as the tool sees them: how a `list-sessions` line is read,
//! how sessions are ranked against a fuzzy query, and how names are normalized.
use vstd::prelude::*;

use crate::patterns::{
    first_uuid, name_char, opt_string, regex_find, regex_is_match, regex_replace_all, replace_runs,
    INVALID_NAME_RUN, SESSION_ID_PATTERN, UNDERSCORE_RUN, VALID_NAME,
};
use crate::text::{ascii_lower, decimal, decimal_int, ascii_lower_str, replace, replace_str,
    chars_vec, contains, contains_str, find, find_str, index_of_char_from, split_char,
    split_char_str, spec_to_lowercase, string_of_range, to_lowercase_str, trim, trim_str,
    starts_with, text_le, text_le_exec, lemma_text_le_total, is_ws, trim_start, trim_end,
    ascii_lower_char, find_from, matches_at, replace_from,
    lemma_text_le_transitive,
};

verus! {

broadcast use vstd::std_specs::vec::group_vec_axioms;

// ---------------------------------------------------------------------------
// Integers
// ---------------------------------------------------------------------------

/// An ASCII digit.
pub open spec fn is_digit(c: char) -> bool {
    '0' <= c && c <= '9'
}

/// The value of an ASCII digit.
pub open spec fn digit_value(c: char) -> int {
    (c as int) - ('0' as int)
}

/// Whether every character of `s` is an ASCII digit.
pub open spec fn all_digits(s: Seq<char>) -> bool {
    forall|i: int| 0 <= i < s.len() ==> is_digit(#[trigger] s[i])
}

/// The decimal value of a run of digits.
pub open spec fn digits_value(s: Seq<char>) -> int
    decreases s.len(),
{
    if s.len() == 0 {
        0
    } else {
        digits_value(s.drop_last()) * 10 + digit_value(s.last())
    }
}

/// The integer that a text spells in decimal: an optional sign, then at least
/// one ASCII digit.
pub open spec fn decimal_value(t: Seq<char>) -> Option<int> {
    let neg = t.len() > 0 && t[0] == '-';
    let signed = t.len() > 0 && (t[0] == '-' || t[0] == '+');
    let d = if signed {
        t.drop_first()
    } else {
        t
    };
    if d.len() == 0 || !all_digits(d) {
        None
    } else if neg {
        Some(-digits_value(d))
    } else {
        Some(digits_value(d))
    }
}

/// What `str::parse::<i64>` gives for the trimmed text, or 0 when it fails.
pub open spec fn parse_i64_spec(s: Seq<char>) -> i64 {
    match decimal_value(trim(s)) {
        Some(v) => if i64::MIN <= v <= i64::MAX {
            v as i64
        } else {
            0
        },
        None => 0,
    }
}

proof fn lemma_digits_value_nonneg(s: Seq<char>)
    requires
        all_digits(s),
    ensures
        digits_value(s) >= 0,
    decreases s.len(),
{
    if s.len() > 0 {
        lemma_digits_value_nonneg(s.drop_last());
    }
}

proof fn lemma_digits_value_prefix(s: Seq<char>, k: int)
    requires
        all_digits(s),
        0 <= k <= s.len(),
    ensures
        digits_value(s.take(k)) <= digits_value(s),
    decreases s.len() - k,
{
    if k < s.len() {
        lemma_digits_value_prefix(s, k + 1);
        let t = s.take(k + 1);
        assert(t.drop_last() =~= s.take(k));
        lemma_digits_value_nonneg(s.take(k));
    } else {
        assert(s.take(k) =~= s);
    }
}

/// The `i64` a text spells in decimal, when it spells one that fits.
pub open spec fn decimal_i64(t: Seq<char>) -> Option<i64> {
    match decimal_value(t) {
        Some(v) => if i64::MIN <= v <= i64::MAX {
            Some(v as i64)
        } else {
            None
        },
        None => None,
    }
}

/// The `i64` that `t` spells in decimal (`str::parse::<i64>`), if any.
#[verifier::loop_isolation(false)]
pub fn parse_decimal_i64(t: &str) -> (r: Option<i64>)
    ensures
        r == decimal_i64(t@),
{
    let cs = chars_vec(t);
    let n = cs.len();
    let neg = n > 0 && cs[0] == '-';
    let signed = n > 0 && (cs[0] == '-' || cs[0] == '+');
    let start: usize = if signed {
        1
    } else {
        0
    };
    let ghost d = if signed {
        cs@.drop_first()
    } else {
        cs@
    };
    assert(d =~= cs@.subrange(start as int, n as int));
    if start == n {
        return None;
    }
    let limit: u64 = 0x8000_0000_0000_0000;
    let mut acc: u64 = 0;
    let mut i: usize = start;
    while i < n
        invariant
            start <= i <= n,
            n == cs@.len(),
            d == cs@.subrange(start as int, n as int),
            all_digits(d.take(i - start)),
            acc == digits_value(d.take(i - start)),
            acc <= limit,
        decreases n - i,
    {
        let c = cs[i];
        if !('0' <= c && c <= '9') {
            assert(d[i - start] == c);
            assert(!is_digit(d[i - start]));
            assert(!all_digits(d));
            return None;
        }
        assert((c as u64) as int == c as int);
        assert((c as int) <= ('9' as int));
        let dv: u64 = (c as u64) - ('0' as u64);
        assert(dv <= 9);
        assert(d.take(i - start + 1).drop_last() =~= d.take(i - start));
        if acc > (limit - dv) / 10 {
            proof {
                assert(all_digits(d.take(i - start + 1)));
                assert(digits_value(d.take(i - start + 1)) > limit);
                if all_digits(d) {
                    lemma_digits_value_prefix(d, i - start + 1);
                }
            }
            return None;
        }
        acc = acc * 10 + dv;
        i = i + 1;
    }
    assert(d.take(i - start) =~= d);
    if neg {
        if acc == limit {
            Some(i64::MIN)
        } else {
            Some(-(acc as i64))
        }
    } else if acc == limit {
        None
    } else {
        Some(acc as i64)
    }
}

/// The trimmed text as a decimal `i64`, or 0 when it is not one.
pub fn parse_i64(s: &str) -> (r: i64)
    ensures
        r == parse_i64_spec(s@),
{
    let t = trim_str(s);
    match parse_decimal_i64(t.as_str()) {
        Some(v) => v,
        None => 0,
    }
}

// ---------------------------------------------------------------------------
// Sessions
// ---------------------------------------------------------------------------

/// A tmux session: its name, the name in lower case (what the fuzzy filter
/// matches against), and three timestamps in seconds since the epoch (0 when
/// tmux did not say).
#[derive(Clone, Debug)]
pub struct SessionInfo {
    pub name: String,
    pub name_lc: String,
    pub last_attached: i64,
    pub activity: i64,
    pub created: i64,
}

/// The mathematical form of a session.
pub struct SessionView {
    pub name: Seq<char>,
    pub name_lc: Seq<char>,
    pub last_attached: i64,
    pub activity: i64,
    pub created: i64,
}

impl View for SessionInfo {
    type V = SessionView;

    open spec fn view(&self) -> SessionView {
        SessionView {
            name: self.name@,
            name_lc: self.name_lc@,
            last_attached: self.last_attached,
            activity: self.activity,
            created: self.created,
        }
    }
}

/// A session as `SessionInfo::new` makes it.
pub open spec fn session_of(name: Seq<char>, last_attached: i64, activity: i64, created: i64) -> SessionView {
    SessionView { name, name_lc: spec_to_lowercase(name), last_attached, activity, created }
}

/// How recent a session is: the latest of its three timestamps.
pub open spec fn recency(s: SessionView) -> i64 {
    let a = if s.last_attached >= s.activity {
        s.last_attached
    } else {
        s.activity
    };
    if a >= s.created {
        a
    } else {
        s.created
    }
}

/// The views of a list of sessions.
pub open spec fn session_views(v: Seq<SessionInfo>) -> Seq<SessionView> {
    Seq::new(v.len(), |i: int| v[i]@)
}

impl SessionInfo {
    /// A session with the given name and timestamps; its lower-case name is
    /// `str::to_lowercase` of the name.
    pub fn new(name: String, last_attached: i64, activity: i64, created: i64) -> (r: SessionInfo)
        ensures
            r@ == session_of(name@, last_attached, activity, created),
    {
        let name_lc = to_lowercase_str(name.as_str());
        SessionInfo { name, name_lc, last_attached, activity, created }
    }

    /// The latest of the session's timestamps, by which sessions are ranked.
    pub fn sort_ts(&self) -> (r: i64)
        ensures
            r == recency(self@),
    {
        let a = if self.last_attached >= self.activity {
            self.last_attached
        } else {
            self.activity
        };
        if a >= self.created {
            a
        } else {
            self.created
        }
    }

    /// A copy of the session.
    pub fn copied(&self) -> (r: SessionInfo)
        ensures
            r@ == self@,
    {
        SessionInfo {
            name: self.name.clone(),
            name_lc: self.name_lc.clone(),
            last_attached: self.last_attached,
            activity: self.activity,
            created: self.created,
        }
    }
}

// ---------------------------------------------------------------------------
// `tmux list-sessions` lines
// ---------------------------------------------------------------------------

/// Field `i` of a split line, or the empty text when the line has fewer.
pub open spec fn field(parts: Seq<Seq<char>>, i: int) -> Seq<char> {
    if 0 <= i < parts.len() {
        parts[i]
    } else {
        Seq::empty()
    }
}

/// The session name in tmux's default output, `<name>: <n> windows (...)`;
/// the whole line when it does not have that shape.
pub open spec fn default_output_name(t: Seq<char>) -> Seq<char> {
    match find(t, ": "@) {
        Some(idx) => {
            let cand = t.take(idx);
            let rest = t.skip(idx + 2);
            if trim(cand).len() > 0 && rest.len() > 0 && is_digit(rest[0]) && contains(
                rest,
                " window"@,
            ) {
                trim(cand)
            } else {
                t
            }
        },
        None => t,
    }
}

/// The session a line of `tmux list-sessions` describes: tab-separated name
/// and timestamps when the line has a tab, else tmux's default output, whose
/// timestamps are taken as 0. Blank lines, and tabbed lines with a blank
/// name, describe none.
pub open spec fn session_line_spec(line: Seq<char>) -> Option<SessionView> {
    let t = trim(line);
    if t.len() == 0 {
        None
    } else if contains(t, "\t"@) {
        let parts = split_char(t, '\t');
        let name = trim(parts[0]);
        if name.len() == 0 {
            None
        } else {
            Some(
                session_of(
                    name,
                    parse_i64_spec(field(parts, 1)),
                    parse_i64_spec(field(parts, 2)),
                    parse_i64_spec(field(parts, 3)),
                ),
            )
        }
    } else {
        Some(session_of(default_output_name(t), 0, 0, 0))
    }
}

/// Field `i` of a split line, or the empty text.
fn field_str(parts: &Vec<String>, i: usize) -> (r: &str)
    ensures
        r@ == field(crate::text::views(parts@), i as int),
{
    proof {
        reveal_strlit("");
    }
    if i < parts.len() {
        parts[i].as_str()
    } else {
        assert(""@ =~= Seq::<char>::empty());
        ""
    }
}

/// The name in tmux's default output, or the whole line.
fn default_output_name_exec(t: &str) -> (r: String)
    ensures
        r@ == default_output_name(t@),
{
    proof {
        reveal_strlit(": ");
        reveal_strlit(" window");
    }
    match find_str(t, ": ") {
        Some(idx) => {
            let cs = chars_vec(t);
            proof {
                crate::text::lemma_find_from(t@, ": "@, 0);
                assert(crate::text::matches_at(t@, ": "@, idx as int));
                assert(": "@.len() == 2);
                assert(idx + 2 <= t@.len());
            }
            let n = cs.len();
            assert(idx + 2 <= n);
            let cand = string_of_range(cs.as_slice(), 0, idx);
            let rest = string_of_range(cs.as_slice(), idx + 2, n);
            assert(cand@ =~= t@.take(idx as int));
            assert(rest@ =~= t@.skip(idx + 2));
            let tc = trim_str(cand.as_str());
            let rcs = chars_vec(rest.as_str());
            let starts_with_count = rcs.len() > 0 && '0' <= rcs[0] && rcs[0] <= '9';
            if !tc.as_str().is_empty() && starts_with_count && contains_str(rest.as_str(), " window") {
                tc
            } else {
                String::from_str(t)
            }
        },
        None => String::from_str(t),
    }
}

/// The session a line of `tmux list-sessions` describes, if any.
pub fn parse_tmux_session_line(line: &str) -> (r: Option<SessionInfo>)
    ensures
        match r {
            Some(s) => session_line_spec(line@) == Some(s@),
            None => session_line_spec(line@) is None,
        },
{
    proof {
        reveal_strlit("\t");
    }
    let t = trim_str(line);
    if t.as_str().is_empty() {
        return None;
    }
    if contains_str(t.as_str(), "\t") {
        let parts = split_char_str(t.as_str(), '\t');
        proof {
            crate::text::lemma_split_char_nonempty(t@, '\t');
        }
        let name = trim_str(parts[0].as_str());
        if name.as_str().is_empty() {
            return None;
        }
        let la = parse_i64(field_str(&parts, 1));
        let act = parse_i64(field_str(&parts, 2));
        let cr = parse_i64(field_str(&parts, 3));
        return Some(SessionInfo::new(name, la, act, cr));
    }
    Some(SessionInfo::new(default_output_name_exec(t.as_str()), 0, 0, 0))
}

// ---------------------------------------------------------------------------
// Session names and ids
// ---------------------------------------------------------------------------

/// `s` without leading occurrences of `c`.
pub open spec fn strip_leading(s: Seq<char>, c: char) -> Seq<char>
    decreases s.len(),
{
    if s.len() > 0 && s[0] == c {
        strip_leading(s.drop_first(), c)
    } else {
        s
    }
}

/// `s` without trailing occurrences of `c`.
pub open spec fn strip_trailing(s: Seq<char>, c: char) -> Seq<char>
    decreases s.len(),
{
    if s.len() > 0 && s.last() == c {
        strip_trailing(s.drop_last(), c)
    } else {
        s
    }
}

/// Whether every character of `s` may stand in a session name.
pub open spec fn all_name_chars(s: Seq<char>) -> bool {
    forall|i: int| 0 <= i < s.len() ==> name_char(#[trigger] s[i])
}

/// The session name made of a raw one: trimmed; each run of characters a
/// name may not hold replaced by `_`; runs of `_` collapsed; `_` stripped at
/// both ends. Empty when nothing is left, or when what is left is not a name.
pub open spec fn normalized_name(raw: Seq<char>) -> Seq<char> {
    let t = trim(raw);
    if t.len() == 0 {
        Seq::empty()
    } else {
        let a = replace_runs(t, |c: char| !name_char(c), "_"@);
        let b = replace_runs(a, |c: char| c == '_', "_"@);
        let c = strip_trailing(strip_leading(b, '_'), '_');
        if c.len() == 0 || !all_name_chars(c) {
            Seq::empty()
        } else {
            c
        }
    }
}

/// `s` without `_` at either end.
fn trim_underscores(s: &str) -> (r: String)
    ensures
        r@ == strip_trailing(strip_leading(s@, '_'), '_'),
{
    let cs = chars_vec(s);
    let n = cs.len();
    let mut a: usize = 0;
    assert(cs@.skip(0) =~= cs@);
    while a < n && cs[a] == '_'
        invariant
            a <= n == cs@.len(),
            strip_leading(cs@, '_') == strip_leading(cs@.skip(a as int), '_'),
        decreases n - a,
    {
        assert(cs@.skip(a as int).drop_first() =~= cs@.skip(a + 1));
        a = a + 1;
    }
    assert(strip_leading(cs@, '_') == cs@.skip(a as int));
    let mut b: usize = n;
    while b > a && cs[b - 1] == '_'
        invariant
            a <= b <= n == cs@.len(),
            strip_trailing(cs@.skip(a as int), '_') == strip_trailing(
                cs@.subrange(a as int, b as int),
                '_',
            ),
        decreases b,
    {
        assert(cs@.subrange(a as int, b as int).drop_last() =~= cs@.subrange(a as int, b - 1));
        b = b - 1;
    }
    assert(cs@.skip(a as int) =~= cs@.subrange(a as int, n as int));
    string_of_range(cs.as_slice(), a, b)
}

/// The session name made of `raw`, or the empty text when `raw` holds none.
pub fn normalize_session_name(raw: &str) -> (r: String)
    ensures
        r@ == normalized_name(raw@),
{
    proof {
        reveal_strlit("_");
        assert(!"_"@.contains('$'));
    }
    let t = trim_str(raw);
    if t.as_str().is_empty() {
        return String::new();
    }
    let a = match regex_replace_all(INVALID_NAME_RUN, t.as_str(), "_") {
        Some(a) => a,
        None => {
            return String::new();
        },
    };
    let b = match regex_replace_all(UNDERSCORE_RUN, a.as_str(), "_") {
        Some(b) => b,
        None => {
            return String::new();
        },
    };
    let c = trim_underscores(b.as_str());
    if c.as_str().is_empty() {
        return String::new();
    }
    match regex_is_match(VALID_NAME, c.as_str()) {
        Some(true) => c,
        _ => String::new(),
    }
}

/// The first UUID in a rollout path: the id of the session it records.
pub fn extract_session_id_from_path(path: &str) -> (r: Option<String>)
    ensures
        opt_string(r) == first_uuid(path@),
{
    match regex_find(SESSION_ID_PATTERN, path) {
        Some(m) => m,
        None => None,
    }
}

// ---------------------------------------------------------------------------
// Paths
// ---------------------------------------------------------------------------

/// `s` without trailing `/`, keeping a lone `/`.
pub open spec fn strip_trailing_slashes(s: Seq<char>) -> Seq<char>
    decreases s.len(),
{
    if s.len() > 1 && s.last() == '/' {
        strip_trailing_slashes(s.drop_last())
    } else {
        s
    }
}

/// The form in which two paths are compared: `\` turned into `/`, trailing
/// `/` dropped, and, on Windows, ASCII letters in lower case.
pub open spec fn path_key(path: Seq<char>, windows: bool) -> Seq<char> {
    let n = strip_trailing_slashes(replace(path, "\\"@, "/"@));
    if windows {
        ascii_lower(n)
    } else {
        n
    }
}

/// No `\` in `s`.
pub open spec fn no_backslash(s: Seq<char>) -> bool {
    forall|i: int| 0 <= i < s.len() ==> #[trigger] s[i] != '\\'
}

proof fn lemma_backslash_match(s: Seq<char>, j: int)
    requires
        0 <= j < s.len(),
    ensures
        matches_at(s, "\\"@, j) <==> s[j] == '\\',
{
    reveal_strlit("\\");
    if s[j] == '\\' {
        assert(s.subrange(j, j + 1) =~= "\\"@);
    }
    if matches_at(s, "\\"@, j) {
        assert(s.subrange(j, j + 1)[0] == s[j]);
    }
}

proof fn lemma_replace_backslashes(s: Seq<char>, pos: int)
    requires
        0 <= pos <= s.len(),
    ensures
        no_backslash(replace_from(s, "\\"@, "/"@, pos)),
        no_backslash(s) ==> replace_from(s, "\\"@, "/"@, pos) == s.subrange(pos, s.len() as int),
    decreases s.len() + 1 - pos,
{
    reveal_strlit("\\");
    reveal_strlit("/");
    crate::text::lemma_find_from(s, "\\"@, pos);
    match find_from(s, "\\"@, pos) {
        Some(i) => {
            lemma_backslash_match(s, i);
            if i + 1 <= s.len() {
                lemma_replace_backslashes(s, i + 1);
                let head = s.subrange(pos, i);
                let rest = replace_from(s, "\\"@, "/"@, i + 1);
                assert forall|j: int| 0 <= j < head.len() implies #[trigger] head[j] != '\\' by {
                    lemma_backslash_match(s, pos + j);
                    assert(head[j] == s[pos + j]);
                }
                let r = head + "/"@ + rest;
                assert forall|j: int| 0 <= j < r.len() implies #[trigger] r[j] != '\\' by {
                    if j < head.len() {
                        assert(r[j] == head[j]);
                    } else if j == head.len() {
                        assert(r[j] == '/');
                    } else {
                        assert(r[j] == rest[j - head.len() - 1]);
                    }
                }
            }
        },
        None => {
            let r = s.subrange(pos, s.len() as int);
            assert forall|j: int| 0 <= j < r.len() implies #[trigger] r[j] != '\\' by {
                lemma_backslash_match(s, pos + j);
                assert(r[j] == s[pos + j]);
            }
        },
    }
}

proof fn lemma_strip_slashes(s: Seq<char>)
    ensures
        exists|k: int| 0 <= k <= s.len() && strip_trailing_slashes(s) == s.take(k),
        strip_trailing_slashes(s).len() <= 1 || strip_trailing_slashes(s).last() != '/',
    decreases s.len(),
{
    if s.len() > 1 && s.last() == '/' {
        lemma_strip_slashes(s.drop_last());
        let k = choose|k: int|
            0 <= k <= s.drop_last().len() && strip_trailing_slashes(s.drop_last()) == s.drop_last().take(k);
        assert(s.drop_last().take(k) =~= s.take(k));
    } else {
        assert(s.take(s.len() as int) =~= s);
    }
}

proof fn lemma_ascii_lower_char(c: char)
    ensures
        ascii_lower_char(ascii_lower_char(c)) == ascii_lower_char(c),
        ascii_lower_char(c) == '/' <==> c == '/',
        ascii_lower_char(c) == '\\' <==> c == '\\',
{
    if 'A' <= c && c <= 'Z' {
        assert((((c as u32) + 32) as u32) as int == c as int + 32);
        assert(((((c as u32) + 32) as u32) as char) as int == c as int + 32);
    }
}

/// A path's compared form holds no `\`, and ends with `/` only when it is
/// `/` itself, on Windows and elsewhere.
pub proof fn law_path_key_shape(path: Seq<char>, windows: bool)
    ensures
        no_backslash(path_key(path, windows)),
        path_key(path, windows).len() > 0 && path_key(path, windows).last() == '/' ==> path_key(
            path,
            windows,
        ) == seq!['/'],
{
    reveal_strlit("\\");
    reveal_strlit("/");
    let rep = replace(path, "\\"@, "/"@);
    lemma_replace_backslashes(path, 0);
    let n = strip_trailing_slashes(rep);
    lemma_strip_slashes(rep);
    let k = choose|k: int| 0 <= k <= rep.len() && n == rep.take(k);
    assert forall|i: int| 0 <= i < n.len() implies #[trigger] n[i] != '\\' by {
        assert(n[i] == rep[i]);
    }
    let key = path_key(path, windows);
    if windows {
        assert(key == ascii_lower(n));
        assert forall|i: int| 0 <= i < key.len() implies #[trigger] key[i] != '\\' by {
            lemma_ascii_lower_char(n[i]);
        }
        if key.len() > 0 {
            lemma_ascii_lower_char(n.last());
            assert(key.last() == ascii_lower_char(n.last()));
        }
    }
    if key.len() > 0 && key.last() == '/' {
        assert(key.len() == 1);
        assert(key =~= seq!['/']);
    }
}

/// Putting a path in its compared form twice changes nothing, on Windows
/// and elsewhere.
pub proof fn law_path_key_twice_changes_nothing(path: Seq<char>, windows: bool)
    ensures
        path_key(path_key(path, windows), windows) == path_key(path, windows),
{
    reveal_strlit("\\");
    reveal_strlit("/");
    law_path_key_shape(path, windows);
    let key = path_key(path, windows);
    lemma_replace_backslashes(key, 0);
    assert(key.subrange(0, key.len() as int) =~= key);
    assert(replace(key, "\\"@, "/"@) == key);
    assert(strip_trailing_slashes(key) == key);
    if windows {
        let n = strip_trailing_slashes(replace(path, "\\"@, "/"@));
        assert(key == ascii_lower(n));
        assert(ascii_lower(key) =~= key) by {
            assert forall|i: int| 0 <= i < key.len() implies #[trigger] ascii_lower(key)[i] == key[i] by {
                lemma_ascii_lower_char(n[i]);
            }
        }
    }
}

/// The separator of path components on the machine that runs the code,
/// `std::path::MAIN_SEPARATOR`: `/`, or `\` on Windows.
#[verifier::external_body]
fn main_separator() -> (r: char)
    ensures
        r == '/' || r == '\\',
{
    std::path::MAIN_SEPARATOR
}

/// The form in which a path is compared, on Windows when `windows` holds.
pub fn normalize_path_for_compare_on(path: &str, windows: bool) -> (r: String)
    ensures
        r@ == path_key(path@, windows),
{
    proof {
        reveal_strlit("\\");
        reveal_strlit("/");
    }
    let replaced = replace_str(path, "\\", "/");
    let cs = chars_vec(replaced.as_str());
    let mut n = cs.len();
    assert(cs@.take(n as int) =~= cs@);
    while n > 1 && cs[n - 1] == '/'
        invariant
            n <= cs@.len(),
            strip_trailing_slashes(cs@) == strip_trailing_slashes(cs@.take(n as int)),
        decreases n,
    {
        assert(cs@.take(n as int).drop_last() =~= cs@.take(n - 1));
        n = n - 1;
    }
    let stripped = string_of_range(cs.as_slice(), 0, n);
    assert(stripped@ =~= cs@.take(n as int));
    if windows {
        ascii_lower_str(stripped.as_str())
    } else {
        stripped
    }
}

/// The form in which a path is compared on this machine.
pub fn normalize_path_for_compare(path: &str) -> (r: String)
    ensures
        r@ == path_key(path@, false) || r@ == path_key(path@, true),
{
    normalize_path_for_compare_on(path, main_separator() == '\\')
}

/// Whether two paths name the same directory, on Windows when `windows` holds.
pub fn paths_match_on(a: &str, b: &str, windows: bool) -> (r: bool)
    ensures
        r == (path_key(a@, windows) == path_key(b@, windows)),
{
    let ka = normalize_path_for_compare_on(a, windows);
    let kb = normalize_path_for_compare_on(b, windows);
    crate::json::text_eq(ka.as_str(), kb.as_str())
}

/// Whether two paths name the same directory on this machine.
pub fn paths_match(a: &str, b: &str) -> (r: bool)
    ensures
        r == (path_key(a@, false) == path_key(b@, false)) || r == (path_key(a@, true) == path_key(
            b@,
            true,
        )),
{
    paths_match_on(a, b, main_separator() == '\\')
}

// ---------------------------------------------------------------------------
// Fuzzy matching
// ---------------------------------------------------------------------------

/// The number of bytes UTF-8 takes for a character.
pub open spec fn utf8_width(c: char) -> int {
    if (c as u32) < 0x80 {
        1
    } else if (c as u32) < 0x800 {
        2
    } else if (c as u32) < 0x10000 {
        3
    } else {
        4
    }
}

/// The number of bytes UTF-8 takes for a text: its `str::len`.
pub open spec fn utf8_len(s: Seq<char>) -> int
    decreases s.len(),
{
    if s.len() == 0 {
        0
    } else {
        utf8_len(s.drop_last()) + utf8_width(s.last())
    }
}

/// Texts no longer than this many characters are scored; no machine holds a
/// longer one.
pub open spec fn within_limit(s: Seq<char>) -> bool {
    s.len() <= 0x100_0000_0000
}

/// The greedy match of the first `n` characters of `q` in `t`, each at the
/// first occurrence after the previous one: the position to search from
/// next, the byte offset of the last match (-1 before any), and the sum of
/// the byte gaps between consecutive matches. `None` when a character is
/// not found.
pub open spec fn subseq_run(q: Seq<char>, t: Seq<char>, n: int) -> Option<(int, int, int)>
    decreases n,
{
    if n <= 0 {
        Some((0, -1, 0))
    } else {
        match subseq_run(q, t, n - 1) {
            None => None,
            Some((start, last, gap)) => {
                let i = index_of_char_from(t, q[n - 1], start);
                if i >= t.len() {
                    None
                } else {
                    let pos = utf8_len(t.take(i));
                    let g = if last >= 0 && pos - last - 1 > 0 {
                        gap + (pos - last - 1)
                    } else {
                        gap
                    };
                    Some((i + 1, pos, g))
                }
            },
        }
    }
}

/// Whether the characters of `q` occur in `t` in order, and the byte gaps
/// between them (a large penalty when they do not).
pub open spec fn subsequence_spec(q: Seq<char>, t: Seq<char>) -> (bool, int) {
    match subseq_run(q, t, q.len() as int) {
        Some((_, _, gap)) => (true, gap),
        None => (false, 1_000_000_000),
    }
}

/// How well `t` matches the query `q`: exact, then prefix, then substring
/// (the earlier the better), then subsequence (the tighter the better);
/// shorter texts ahead within each. `-1_000_000_000` for no match; 0 for
/// an empty query.
pub open spec fn fuzzy_spec(q: Seq<char>, t: Seq<char>) -> int {
    if q.len() == 0 {
        0
    } else if t == q {
        1_000_000
    } else if starts_with(t, q) {
        500_000 - utf8_len(t)
    } else {
        match find(t, q) {
            Some(i) => 400_000 - utf8_len(t.take(i)) * 100 - utf8_len(t),
            None => {
                let (ok, gap) = subsequence_spec(q, t);
                if ok {
                    300_000 - gap * 10 - utf8_len(t)
                } else {
                    -1_000_000_000
                }
            },
        }
    }
}

proof fn lemma_utf8_len_bounds(s: Seq<char>)
    ensures
        s.len() <= utf8_len(s) <= 4 * s.len(),
    decreases s.len(),
{
    if s.len() > 0 {
        lemma_utf8_len_bounds(s.drop_last());
    }
}

/// The byte offsets of the characters of `cs`, and of its end.
fn utf8_offsets(cs: &Vec<char>) -> (offs: Vec<u64>)
    requires
        within_limit(cs@),
    ensures
        offs@.len() == cs@.len() + 1,
        forall|k: int| 0 <= k <= cs@.len() ==> #[trigger] offs@[k] == utf8_len(cs@.take(k)),
        forall|a: int, b: int| 0 <= a <= b <= cs@.len() ==> offs@[a] <= offs@[b],
        offs@[cs@.len() as int] <= 4 * cs@.len(),
{
    let mut offs: Vec<u64> = Vec::new();
    offs.push(0);
    assert(cs@.take(0) =~= Seq::<char>::empty());
    let mut acc: u64 = 0;
    let mut k: usize = 0;
    while k < cs.len()
        invariant
            k <= cs@.len(),
            within_limit(cs@),
            offs@.len() == k + 1,
            acc == offs@[k as int],
            acc <= 4 * k,
            forall|j: int| 0 <= j <= k ==> #[trigger] offs@[j] == utf8_len(cs@.take(j)),
            forall|a: int, b: int| 0 <= a <= b <= k ==> offs@[a] <= offs@[b],
        decreases cs.len() - k,
    {
        let c = cs[k];
        let cv = c as u32;
        let w: u64 = if cv < 0x80 {
            1
        } else if cv < 0x800 {
            2
        } else if cv < 0x10000 {
            3
        } else {
            4
        };
        assert(cs@.take(k + 1).drop_last() =~= cs@.take(k as int));
        acc = acc + w;
        offs.push(acc);
        k = k + 1;
    }
    assert(cs@.take(k as int) =~= cs@);
    offs
}

/// Whether the characters of `query` occur in `text` in order, and the
/// byte gaps between them.
pub fn is_subsequence(query: &str, text: &str) -> (r: (bool, i64))
    requires
        within_limit(text@),
    ensures
        r.0 == subsequence_spec(query@, text@).0,
        r.1 == subsequence_spec(query@, text@).1,
{
    let qs = chars_vec(query);
    let ts = chars_vec(text);
    let offs = utf8_offsets(&ts);
    let mut start: usize = 0;
    let mut last: i64 = -1;
    let mut gap: i64 = 0;
    let mut n: usize = 0;
    while n < qs.len()
        invariant
            qs@ == query@,
            ts@ == text@,
            within_limit(text@),
            n <= qs@.len(),
            offs@.len() == ts@.len() + 1,
            forall|k: int| 0 <= k <= ts@.len() ==> #[trigger] offs@[k] == utf8_len(ts@.take(k)),
            forall|a: int, b: int| 0 <= a <= b <= ts@.len() ==> offs@[a] <= offs@[b],
            offs@[ts@.len() as int] <= 4 * ts@.len(),
            subseq_run(query@, text@, n as int) == Some((start as int, last as int, gap as int)),
            start <= ts@.len(),
            last >= -1,
            last == -1 ==> gap == 0 && start == 0,
            last >= 0 ==> start >= 1,
            last >= 0 ==> last == offs@[start - 1],
            last >= 0 ==> last < offs@[start as int],
            last >= 0 ==> 0 <= gap <= last,
        decreases qs.len() - n,
    {
        let i = crate::text::index_of_char(ts.as_slice(), qs[n], start);
        proof {
            crate::text::lemma_index_of_char_from(ts@, qs@[n as int], start as int);
        }
        if i >= ts.len() {
            proof {
                lemma_subseq_none_stays(query@, text@, n + 1, query@.len() as int);
            }
            return (false, 1_000_000_000);
        }
        assert(offs@[i as int] <= offs@[ts@.len() as int]);
        assert(offs@[start as int] <= offs@[i as int]);
        let pos: i64 = offs[i] as i64;
        if last >= 0 && pos - last - 1 > 0 {
            gap = gap + (pos - last - 1);
        }
        proof {
            assert(ts@.take(i + 1).drop_last() =~= ts@.take(i as int));
            assert(offs@[i + 1] == utf8_len(ts@.take(i + 1)));
            assert(offs@[i as int] == utf8_len(ts@.take(i as int)));
        }
        last = pos;
        start = i + 1;
        n = n + 1;
    }
    (true, gap)
}

/// How well `text` matches the query (see `fuzzy_spec`).
pub fn fuzzy_score(query: &str, text: &str) -> (r: i64)
    requires
        within_limit(text@),
    ensures
        r == fuzzy_spec(query@, text@),
{
    if query.is_empty() {
        return 0;
    }
    if crate::json::text_eq(text, query) {
        return 1_000_000;
    }
    let ts = chars_vec(text);
    let offs = utf8_offsets(&ts);
    let len: i64 = offs[ts.len()] as i64;
    assert(ts@.take(ts@.len() as int) =~= ts@);
    if crate::text::starts_with_str(text, query) {
        return 500_000 - len;
    }
    match find_str(text, query) {
        Some(i) => {
            proof {
                crate::text::lemma_find_from(text@, query@, 0);
            }
            let before: i64 = offs[i] as i64;
            400_000 - before * 100 - len
        },
        None => {
            let (ok, gap) = is_subsequence(query, text);
            if ok {
                proof {
                    let run = subseq_run(query@, text@, query@.len() as int);
                    lemma_subseq_gap_bound(query@, text@, query@.len() as int);
                    lemma_utf8_len_bounds(text@);
                }
                300_000 - gap * 10 - len
            } else {
                -1_000_000_000
            }
        },
    }
}

proof fn lemma_subseq_none_stays(q: Seq<char>, t: Seq<char>, a: int, b: int)
    requires
        1 <= a <= b,
        subseq_run(q, t, a) is None,
    ensures
        subseq_run(q, t, b) is None,
    decreases b - a,
{
    if a < b {
        lemma_subseq_none_stays(q, t, a, b - 1);
    }
}

proof fn lemma_utf8_take_le(s: Seq<char>, k: int)
    requires
        0 <= k <= s.len(),
    ensures
        utf8_len(s.take(k)) <= utf8_len(s),
    decreases s.len() - k,
{
    if k < s.len() {
        lemma_utf8_take_le(s, k + 1);
        assert(s.take(k + 1).drop_last() =~= s.take(k));
    } else {
        assert(s.take(k) =~= s);
    }
}

proof fn lemma_subseq_gap_bound(q: Seq<char>, t: Seq<char>, n: int)
    ensures
        subseq_run(q, t, n) matches Some((start, last, gap)) ==> {
            &&& 0 <= start <= t.len()
            &&& 0 <= gap
            &&& last <= utf8_len(t)
            &&& (last < 0 ==> gap == 0 && last == -1)
            &&& (last >= 0 ==> start >= 1 && last == utf8_len(t.take(start - 1)) && gap <= last)
        },
    decreases n,
{
    lemma_utf8_len_bounds(t);
    if n > 0 {
        lemma_subseq_gap_bound(q, t, n - 1);
        if let Some((start, last, gap)) = subseq_run(q, t, n - 1) {
            crate::text::lemma_index_of_char_from(t, q[n - 1], start);
            let i = index_of_char_from(t, q[n - 1], start);
            if 0 <= i < t.len() {
                lemma_utf8_take_le(t, i);
                lemma_utf8_len_bounds(t.take(i));
                if last >= 0 {
                    lemma_utf8_take_le(t.take(i), start - 1);
                    assert(t.take(i).take(start - 1) =~= t.take(start - 1));
                }
            }
        }
    }
}

// ---------------------------------------------------------------------------
// Ranking
// ---------------------------------------------------------------------------

/// A session with its score against a query.
pub type Scored = (int, SessionView);

/// Whether `a` may come before `b` in a ranking: higher score first, then
/// more recent, then by lower-case name.
pub open spec fn rank_le(a: Scored, b: Scored) -> bool {
    ||| a.0 > b.0
    ||| (a.0 == b.0 && recency(a.1) > recency(b.1))
    ||| (a.0 == b.0 && recency(a.1) == recency(b.1) && text_le(a.1.name_lc, b.1.name_lc))
}

/// `x` placed into the ranked `s` after every entry that may come before it.
pub open spec fn insert_ranked(s: Seq<Scored>, x: Scored) -> Seq<Scored>
    decreases s.len(),
{
    if s.len() == 0 {
        seq![x]
    } else if rank_le(s.last(), x) {
        s.push(x)
    } else {
        insert_ranked(s.drop_last(), x).push(s.last())
    }
}

/// The entries ranked, entries of equal rank kept in their order (a stable sort).
pub open spec fn sort_ranked(s: Seq<Scored>) -> Seq<Scored>
    decreases s.len(),
{
    if s.len() == 0 {
        seq![]
    } else {
        insert_ranked(sort_ranked(s.drop_last()), s.last())
    }
}

/// Whether every entry may come before every later one.
pub open spec fn is_ranked(s: Seq<Scored>) -> bool {
    forall|i: int, j: int| 0 <= i < j < s.len() ==> rank_le(#[trigger] s[i], #[trigger] s[j])
}

/// The sessions, each scored against `q`.
pub open spec fn scored_sessions(s: Seq<SessionView>, q: Seq<char>) -> Seq<Scored> {
    Seq::new(s.len(), |i: int| (fuzzy_spec(q, s[i].name_lc), s[i]))
}

/// The sessions that a query keeps, with their scores: all of them, scored 0,
/// for an empty query; else those whose lower-case name matches the
/// lower-case query at all.
pub open spec fn candidates(s: Seq<SessionView>, query: Seq<char>) -> Seq<Scored> {
    if query.len() == 0 {
        Seq::new(s.len(), |i: int| (0int, s[i]))
    } else {
        scored_sessions(s, spec_to_lowercase(query)).filter(|e: Scored| e.0 > -1_000_000_000)
    }
}

/// The sessions a query keeps, ranked.
pub open spec fn ranked(s: Seq<SessionView>, query: Seq<char>) -> Seq<Scored> {
    sort_ranked(candidates(s, query))
}

/// The sessions of a ranking.
pub open spec fn ranked_sessions(r: Seq<Scored>) -> Seq<SessionView> {
    r.map_values(|e: Scored| e.1)
}

/// Every session's lower-case name can be scored.
pub open spec fn names_within_limit(s: Seq<SessionView>) -> bool {
    forall|i: int| 0 <= i < s.len() ==> within_limit(#[trigger] s[i].name_lc)
}

/// Whether every session's lower-case name is short enough to score
/// (see `within_limit`).
pub fn sessions_within_limit(sessions: &Vec<SessionInfo>) -> (r: bool)
    ensures
        r == names_within_limit(session_views(sessions@)),
{
    let ghost sv = session_views(sessions@);
    let mut i: usize = 0;
    while i < sessions.len()
        invariant
            i <= sessions@.len(),
            sv == session_views(sessions@),
            forall|j: int| 0 <= j < i ==> within_limit(#[trigger] sv[j].name_lc),
        decreases sessions.len() - i,
    {
        let n = crate::text::char_count(sessions[i].name_lc.as_str());
        if n as u64 > 0x100_0000_0000u64 {
            assert(!within_limit(sv[i as int].name_lc));
            return false;
        }
        i = i + 1;
    }
    true
}

proof fn lemma_rank_total(a: Scored, b: Scored)
    ensures
        rank_le(a, b) || rank_le(b, a),
{
    lemma_text_le_total(a.1.name_lc, b.1.name_lc);
}

proof fn lemma_rank_transitive(a: Scored, b: Scored, c: Scored)
    requires
        rank_le(a, b),
        rank_le(b, c),
    ensures
        rank_le(a, c),
{
    if a.0 == b.0 && b.0 == c.0 && recency(a.1) == recency(b.1) && recency(b.1) == recency(c.1) {
        lemma_text_le_transitive(a.1.name_lc, b.1.name_lc, c.1.name_lc);
    }
}

proof fn lemma_insert_ranked(s: Seq<Scored>, x: Scored)
    requires
        is_ranked(s),
    ensures
        is_ranked(insert_ranked(s, x)),
        insert_ranked(s, x).to_multiset() =~= s.to_multiset().insert(x),
    decreases s.len(),
{
    broadcast use vstd::seq_lib::group_to_multiset_ensures;

    if s.len() == 0 {
        assert(seq![x] =~= Seq::<Scored>::empty().push(x));
    } else if rank_le(s.last(), x) {
        let r = s.push(x);
        assert forall|i: int, j: int| 0 <= i < j < r.len() implies rank_le(#[trigger] r[i], #[trigger] r[j]) by {
            if j == s.len() && i < s.len() - 1 {
                lemma_rank_transitive(s[i], s.last(), x);
            }
        }
    } else {
        let t = s.drop_last();
        assert(is_ranked(t));
        lemma_insert_ranked(t, x);
        let u = insert_ranked(t, x);
        let r = u.push(s.last());
        lemma_rank_total(s.last(), x);
        assert forall|i: int| 0 <= i < u.len() implies rank_le(#[trigger] u[i], s.last()) by {
            assert(u.to_multiset().count(u[i]) > 0);
            if u[i] != x {
                assert(t.to_multiset().count(u[i]) > 0);
                assert(t.contains(u[i]));
                let k = choose|k: int| 0 <= k < t.len() && t[k] == u[i];
                assert(s[k] == t[k]);
            }
        }
        assert forall|i: int, j: int| 0 <= i < j < r.len() implies rank_le(#[trigger] r[i], #[trigger] r[j]) by {
            if j == u.len() {
                assert(r[i] == u[i]);
            } else {
                assert(r[i] == u[i] && r[j] == u[j]);
            }
        }
        assert(s =~= t.push(s.last()));
    }
}

/// A ranking puts every entry no later than every entry after it, and holds
/// exactly the entries it ranked.
pub proof fn lemma_sort_ranked(s: Seq<Scored>)
    ensures
        is_ranked(sort_ranked(s)),
        sort_ranked(s).to_multiset() =~= s.to_multiset(),
    decreases s.len(),
{
    broadcast use vstd::seq_lib::group_to_multiset_ensures;

    if s.len() > 0 {
        lemma_sort_ranked(s.drop_last());
        lemma_insert_ranked(sort_ranked(s.drop_last()), s.last());
        assert(s =~= s.drop_last().push(s.last()));
    }
}

/// The view of a scored session.
pub open spec fn scored_view(e: (i64, SessionInfo)) -> Scored {
    (e.0 as int, e.1@)
}

/// The views of scored sessions.
pub open spec fn scored_views(v: Seq<(i64, SessionInfo)>) -> Seq<Scored> {
    Seq::new(v.len(), |i: int| scored_view(v[i]))
}

/// Whether `a` may come before `b`.
fn rank_le_exec(a: &(i64, SessionInfo), b: &(i64, SessionInfo)) -> (r: bool)
    ensures
        r == rank_le(scored_view(*a), scored_view(*b)),
{
    if a.0 != b.0 {
        return a.0 > b.0;
    }
    let ra = a.1.sort_ts();
    let rb = b.1.sort_ts();
    if ra != rb {
        return ra > rb;
    }
    text_le_exec(a.1.name_lc.as_str(), b.1.name_lc.as_str())
}

proof fn lemma_insert_ranked_at(s: Seq<Scored>, x: Scored, p: int)
    requires
        0 <= p <= s.len(),
        forall|j: int| p <= j < s.len() ==> !rank_le(#[trigger] s[j], x),
        p == 0 || rank_le(s[p - 1], x),
    ensures
        insert_ranked(s, x) == s.insert(p, x),
    decreases s.len(),
{
    if s.len() == 0 {
        assert(s.insert(p, x) =~= seq![x]);
    } else if p == s.len() {
        assert(s.insert(p, x) =~= s.push(x));
    } else {
        assert(!rank_le(s.last(), x));
        let t = s.drop_last();
        assert forall|j: int| p <= j < t.len() implies !rank_le(#[trigger] t[j], x) by {
            assert(t[j] == s[j]);
        }
        lemma_insert_ranked_at(t, x, p);
        assert(t.insert(p, x).push(s.last()) =~= s.insert(p, x));
    }
}

/// The scored sessions ranked (a stable insertion sort).
fn sort_scored(v: &Vec<(i64, SessionInfo)>) -> (r: Vec<(i64, SessionInfo)>)
    ensures
        scored_views(r@) == sort_ranked(scored_views(v@)),
{
    let ghost all = scored_views(v@);
    let mut sorted: Vec<(i64, SessionInfo)> = Vec::new();
    let mut k: usize = 0;
    while k < v.len()
        invariant
            k <= v@.len(),
            all == scored_views(v@),
            scored_views(sorted@) == sort_ranked(all.take(k as int)),
        decreases v.len() - k,
    {
        let x = (v[k].0, v[k].1.copied());
        assert(scored_view(x) == all[k as int]);
        let mut p = sorted.len();
        while p > 0 && !rank_le_exec(&sorted[p - 1], &x)
            invariant
                p <= sorted@.len(),
                forall|j: int|
                    p <= j < sorted@.len() ==> !rank_le(
                        #[trigger] scored_views(sorted@)[j],
                        scored_view(x),
                    ),
            decreases p,
        {
            p = p - 1;
        }
        proof {
            lemma_insert_ranked_at(scored_views(sorted@), scored_view(x), p as int);
            assert(all.take(k + 1).drop_last() =~= all.take(k as int));
        }
        let ghost old_sorted = sorted@;
        sorted.insert(p, x);
        assert(scored_views(sorted@) =~= scored_views(old_sorted).insert(p as int, scored_view(x)));
        k = k + 1;
    }
    assert(all.take(k as int) =~= all);
    sorted
}

/// The sessions, each scored 0.
fn zero_scored(sessions: &[SessionInfo]) -> (r: Vec<(i64, SessionInfo)>)
    ensures
        scored_views(r@) == Seq::new(sessions@.len(), |j: int| (0int, sessions@[j]@)),
{
    let mut scored: Vec<(i64, SessionInfo)> = Vec::new();
    let mut i: usize = 0;
    while i < sessions.len()
        invariant
            i <= sessions@.len(),
            scored_views(scored@) == Seq::new(i as nat, |j: int| (0int, sessions@[j]@)),
        decreases sessions.len() - i,
    {
        let c = sessions[i].copied();
        let ghost old_s = scored@;
        scored.push((0, c));
        assert(scored@ == old_s.push((0i64, c)));
        assert(c@ == sessions@[i as int]@);
        assert(scored_views(scored@) =~= scored_views(old_s).push(scored_view((0i64, c))));
        assert(scored_views(scored@) =~= Seq::new((i + 1) as nat, |j: int| (0int, sessions@[j]@)));
        i = i + 1;
    }
    scored
}

/// The sessions of scored entries.
fn unscored(v: Vec<(i64, SessionInfo)>) -> (r: Vec<SessionInfo>)
    ensures
        session_views(r@) == ranked_sessions(scored_views(v@)),
{
    let ghost sv = scored_views(v@);
    let mut out: Vec<SessionInfo> = Vec::new();
    let mut i: usize = 0;
    while i < v.len()
        invariant
            i <= v@.len(),
            sv == scored_views(v@),
            session_views(out@) == ranked_sessions(sv.take(i as int)),
        decreases v.len() - i,
    {
        let c = v[i].1.copied();
        let ghost old_o = out@;
        out.push(c);
        assert(out@ == old_o.push(c));
        assert(session_views(out@) =~= session_views(old_o).push(c@));
        assert(ranked_sessions(sv.take(i + 1)) =~= ranked_sessions(sv.take(i as int)).push(
            sv[i as int].1,
        ));
        i = i + 1;
    }
    assert(sv.take(i as int) =~= sv);
    out
}

/// The sessions a query keeps, ranked: every session by recency (then
/// name) for an empty query; else those whose lower-case name matches the
/// lower-case query, by score, then recency, then name.
pub fn filter_and_sort(sessions: &[SessionInfo], query: &str) -> (r: Vec<SessionInfo>)
    requires
        names_within_limit(session_views(sessions@)),
    ensures
        session_views(r@) == ranked_sessions(ranked(session_views(sessions@), query@)),
{
    let ghost sv = session_views(sessions@);
    let mut scored: Vec<(i64, SessionInfo)> = Vec::new();
    if query.is_empty() {
        scored = zero_scored(sessions);
        assert(scored_views(scored@) =~= candidates(sv, query@));
    } else {
        let q = to_lowercase_str(query);
        let ghost all = scored_sessions(sv, q@);
        let ghost keep = |e: Scored| e.0 > -1_000_000_000;
        let mut i: usize = 0;
        while i < sessions.len()
            invariant
                i <= sessions@.len(),
                sv == session_views(sessions@),
                names_within_limit(sv),
                all == scored_sessions(sv, q@),
                forall|e: Scored| #[trigger] keep(e) == (e.0 > -1_000_000_000),
                scored_views(scored@) == all.take(i as int).filter(keep),
            decreases sessions.len() - i,
        {
            proof {
                assert(all.take(i + 1) =~= all.take(i as int).push(all[i as int]));
                all.take(i as int).lemma_filter_push(all[i as int], keep);
                assert(within_limit(sv[i as int].name_lc));
            }
            let score = fuzzy_score(q.as_str(), sessions[i].name_lc.as_str());
            if score > -1_000_000_000 {
                let ghost old_s = scored@;
                let c = sessions[i].copied();
                scored.push((score, c));
                assert(scored@ == old_s.push((score, c)));
                assert(scored_views(scored@) =~= scored_views(old_s).push(all[i as int]));
            }
            i = i + 1;
        }
        assert(all.take(i as int) =~= all);
    }
    let sorted = sort_scored(&scored);
    unscored(sorted)
}

/// The names of the sessions, most recent first (then by lower-case name),
/// as `--list` prints them.
pub fn list_sessions(sessions: &[SessionInfo]) -> (r: Vec<String>)
    ensures
        crate::text::views(r@) == ranked_sessions(ranked(session_views(sessions@), Seq::empty())).map_values(
            |s: SessionView| s.name,
        ),
{
    let ghost sv = session_views(sessions@);
    let scored = zero_scored(sessions);
    assert(scored_views(scored@) =~= candidates(sv, Seq::empty()));
    let sorted = sort_scored(&scored);
    let items = unscored(sorted);
    let mut names: Vec<String> = Vec::new();
    let mut j: usize = 0;
    while j < items.len()
        invariant
            j <= items@.len(),
            crate::text::views(names@) == session_views(items@).take(j as int).map_values(
                |s: SessionView| s.name,
            ),
        decreases items.len() - j,
    {
        let nm = items[j].name.clone();
        let ghost old_n = names@;
        names.push(nm);
        assert(names@ == old_n.push(nm));
        assert(crate::text::views(names@) =~= crate::text::views(old_n).push(nm@));
        assert(session_views(items@).take(j + 1).map_values(|s: SessionView| s.name)
            =~= session_views(items@).take(j as int).map_values(|s: SessionView| s.name).push(
            items@[j as int].name@,
        ));
        assert(crate::text::views(names@) =~= session_views(items@).take(j + 1).map_values(
            |s: SessionView| s.name,
        ));
        j = j + 1;
    }
    assert(session_views(items@).take(j as int) =~= session_views(items@));
    names
}

/// The kinds of fuzzy match rank in order: for a non-empty query, the query
/// itself scores above every other text; a text it prefixes, shorter than
/// 100000 bytes, above every text it does not prefix; and a text that holds
/// it at byte `i`, with `100 * i` plus its length under 100000 bytes, above
/// every text that does not hold it.
pub proof fn law_fuzzy_match_kinds(q: Seq<char>, t1: Seq<char>, t2: Seq<char>)
    requires
        q.len() > 0,
    ensures
        t2 != q ==> fuzzy_spec(q, q) > fuzzy_spec(q, t2),
        starts_with(t1, q) && utf8_len(t1) < 100_000 && t2 != q && !starts_with(t2, q)
            ==> fuzzy_spec(q, t1) > fuzzy_spec(q, t2),
        (find(t1, q) matches Some(i) && 100 * utf8_len(t1.take(i)) + utf8_len(t1) < 100_000)
            && t1 != q && !starts_with(t1, q) && find(t2, q) is None ==> fuzzy_spec(q, t1)
            > fuzzy_spec(q, t2),
{
    lemma_utf8_len_bounds(t1);
    lemma_utf8_len_bounds(t2);
    lemma_subseq_gap_bound(q, t2, q.len() as int);
    crate::text::lemma_find_from(t2, q, 0);
    crate::text::lemma_find_from(t1, q, 0);
    if let Some(i) = find(t1, q) {
        lemma_utf8_len_bounds(t1.take(i));
    }
    if let Some(i) = find(t2, q) {
        lemma_utf8_len_bounds(t2.take(i));
    }
    if t2 == q {
        assert(t2.subrange(0, q.len() as int) =~= q);
        assert(crate::text::matches_at(t2, q, 0));
    }
    if starts_with(t2, q) {
        assert(t2.subrange(0, q.len() as int) =~= t2.take(q.len() as int));
        assert(crate::text::matches_at(t2, q, 0));
    }
}

/// A ranking of sessions puts every entry no later than every entry after
/// it, and holds exactly the sessions the query keeps.
pub proof fn law_ranking_orders_candidates(sessions: Seq<SessionView>, query: Seq<char>)
    ensures
        is_ranked(ranked(sessions, query)),
        ranked(sessions, query).to_multiset() =~= candidates(sessions, query).to_multiset(),
{
    lemma_sort_ranked(candidates(sessions, query));
}

/// Within a ranking scores never rise, and sessions with equal scores come
/// most recent first. Each score is the session's fuzzy score for the
/// lower-case query, or 0 for every session when the query is empty.
pub proof fn law_equal_scores_rank_most_recent_first(sessions: Seq<SessionView>, query: Seq<char>)
    ensures
        forall|i: int, j: int|
            0 <= i < j < ranked(sessions, query).len() ==> (#[trigger] ranked(sessions, query)[i]).0
                >= (#[trigger] ranked(sessions, query)[j]).0 && (ranked(sessions, query)[i].0
                == ranked(sessions, query)[j].0 ==> recency(ranked(sessions, query)[i].1) >= recency(
                ranked(sessions, query)[j].1)),
        forall|i: int|
            0 <= i < ranked(sessions, query).len() ==> (#[trigger] ranked(sessions, query)[i]).0 == if query.len()
                == 0 {
                0
            } else {
                fuzzy_spec(spec_to_lowercase(query), ranked(sessions, query)[i].1.name_lc)
            },
{
    broadcast use vstd::seq_lib::group_to_multiset_ensures;

    let r = ranked(sessions, query);
    let c = candidates(sessions, query);
    lemma_sort_ranked(c);
    assert forall|i: int, j: int| 0 <= i < j < r.len() implies (#[trigger] r[i]).0 >= (#[trigger] r[j]).0
        && (r[i].0 == r[j].0 ==> recency(r[i].1) >= recency(r[j].1)) by {
        assert(rank_le(r[i], r[j]));
    }
    assert forall|i: int| 0 <= i < r.len() implies (#[trigger] r[i]).0 == if query.len() == 0 {
        0
    } else {
        fuzzy_spec(spec_to_lowercase(query), r[i].1.name_lc)
    } by {
        let e = r[i];
        assert(r.contains(e));
        assert(r.to_multiset().count(e) > 0);
        assert(c.to_multiset().count(e) > 0);
        assert(c.contains(e));
        if query.len() == 0 {
            let k = choose|k: int| 0 <= k < c.len() && c[k] == e;
        } else {
            let sc = scored_sessions(sessions, spec_to_lowercase(query));
            sc.lemma_filter_contains_rev(|x: Scored| x.0 > -1_000_000_000, e);
            let k = choose|k: int| 0 <= k < sc.len() && sc[k] == e;
        }
    }
}

proof fn lemma_strip_leading(s: Seq<char>, c: char)
    ensures
        strip_leading(s, c).len() == 0 || strip_leading(s, c)[0] != c,
        exists|k: int| 0 <= k <= s.len() && strip_leading(s, c) == s.skip(k),
    decreases s.len(),
{
    if s.len() > 0 && s[0] == c {
        lemma_strip_leading(s.drop_first(), c);
        let k = choose|k: int|
            0 <= k <= s.drop_first().len() && strip_leading(s.drop_first(), c) == s.drop_first().skip(k);
        assert(s.drop_first().skip(k) =~= s.skip(k + 1));
    } else {
        assert(s.skip(0) =~= s);
    }
}

proof fn lemma_strip_trailing(s: Seq<char>, c: char)
    ensures
        strip_trailing(s, c).len() == 0 || strip_trailing(s, c).last() != c,
        exists|k: int| 0 <= k <= s.len() && strip_trailing(s, c) == s.take(k),
    decreases s.len(),
{
    if s.len() > 0 && s.last() == c {
        lemma_strip_trailing(s.drop_last(), c);
        let k = choose|k: int|
            0 <= k <= s.drop_last().len() && strip_trailing(s.drop_last(), c) == s.drop_last().take(k);
        assert(s.drop_last().take(k) =~= s.take(k));
    } else {
        assert(s.take(s.len() as int) =~= s);
    }
}

/// A normalized name is empty or a valid name: only letters, digits, `.`,
/// `_`, `:` and `-`, and no `_` at either end.
pub proof fn law_normalized_name_is_valid(raw: Seq<char>)
    ensures
        normalized_name(raw).len() == 0 || (all_name_chars(normalized_name(raw))
            && normalized_name(raw)[0] != '_' && normalized_name(raw).last() != '_'),
{
    let t = trim(raw);
    if t.len() > 0 {
        let a = replace_runs(t, |c: char| !name_char(c), "_"@);
        let b = replace_runs(a, |c: char| c == '_', "_"@);
        let l = strip_leading(b, '_');
        lemma_strip_leading(b, '_');
        lemma_strip_trailing(l, '_');
        let k = choose|k: int| 0 <= k <= l.len() && strip_trailing(l, '_') == l.take(k);
        let c = strip_trailing(l, '_');
        if c.len() > 0 {
            assert(c[0] == l[0]);
        }
    }
}

/// No two `_` stand side by side in `s`.
pub open spec fn no_double_underscore(s: Seq<char>) -> bool {
    forall|i: int| 1 <= i < s.len() ==> !(s[i - 1] == '_' && #[trigger] s[i] == '_')
}

/// Every character of `s` is `_`.
pub open spec fn all_underscores(s: Seq<char>) -> bool {
    forall|i: int| 0 <= i < s.len() ==> #[trigger] s[i] == '_'
}

/// Every character of `s` is in a run or is `_`.
pub open spec fn only_runs_and_underscores(s: Seq<char>, in_run: spec_fn(char) -> bool) -> bool {
    forall|i: int| 0 <= i < s.len() ==> in_run(#[trigger] s[i]) || s[i] == '_'
}

proof fn lemma_runs_identity(s: Seq<char>, in_run: spec_fn(char) -> bool, rep: Seq<char>)
    requires
        forall|i: int| 0 <= i < s.len() ==> !in_run(#[trigger] s[i]),
    ensures
        replace_runs(s, in_run, rep) == s,
    decreases s.len(),
{
    if s.len() > 0 {
        assert forall|i: int| 0 <= i < s.drop_last().len() implies !in_run(#[trigger] s.drop_last()[i]) by {
            assert(s.drop_last()[i] == s[i]);
        }
        lemma_runs_identity(s.drop_last(), in_run, rep);
        assert(s.drop_last().push(s.last()) =~= s);
    }
}

proof fn lemma_runs_single_underscores(s: Seq<char>, in_run: spec_fn(char) -> bool)
    requires
        forall|c: char| #[trigger] in_run(c) == (c == '_'),
        no_double_underscore(s),
    ensures
        replace_runs(s, in_run, seq!['_']) == s,
    decreases s.len(),
{
    if s.len() > 0 {
        let d = s.drop_last();
        assert forall|i: int| 1 <= i < d.len() implies !(d[i - 1] == '_' && #[trigger] d[i] == '_') by {
            assert(d[i] == s[i]);
            assert(d[i - 1] == s[i - 1]);
        }
        lemma_runs_single_underscores(d, in_run);
        assert(d.push(s.last()) =~= s);
        if in_run(s.last()) && s.len() >= 2 {
            assert(s[s.len() - 1] == '_');
        }
        assert(d + seq!['_'] =~= d.push('_'));
    }
}

proof fn lemma_runs_collapse(s: Seq<char>, in_run: spec_fn(char) -> bool)
    requires
        forall|c: char| #[trigger] in_run(c) == (c == '_'),
    ensures
        no_double_underscore(replace_runs(s, in_run, seq!['_'])),
        replace_runs(s, in_run, seq!['_']).len() == 0 <==> s.len() == 0,
        s.len() > 0 ==> (replace_runs(s, in_run, seq!['_']).last() == '_' <==> s.last() == '_'),
    decreases s.len(),
{
    if s.len() > 0 {
        let d = s.drop_last();
        lemma_runs_collapse(d, in_run);
        let prev = replace_runs(d, in_run, seq!['_']);
        let out = replace_runs(s, in_run, seq!['_']);
        if !in_run(s.last()) {
            assert(out == prev.push(s.last()));
            assert forall|i: int| 1 <= i < out.len() implies !(out[i - 1] == '_' && #[trigger] out[i] == '_') by {
                if i < out.len() - 1 {
                    assert(out[i] == prev[i]);
                    assert(out[i - 1] == prev[i - 1]);
                }
            }
        } else if s.len() >= 2 && in_run(s[s.len() - 2]) {
            assert(out == prev);
            assert(d.last() == s[s.len() - 2]);
        } else {
            assert(out == prev + seq!['_']);
            if d.len() > 0 {
                assert(d.last() == s[s.len() - 2]);
            }
            assert forall|i: int| 1 <= i < out.len() implies !(out[i - 1] == '_' && #[trigger] out[i] == '_') by {
                if i < out.len() - 1 {
                    assert(out[i] == prev[i]);
                    assert(out[i - 1] == prev[i - 1]);
                } else {
                    assert(out[i - 1] == prev.last());
                }
            }
        }
    }
}

proof fn lemma_runs_name_chars(s: Seq<char>, in_run: spec_fn(char) -> bool)
    requires
        forall|i: int| 0 <= i < s.len() ==> in_run(#[trigger] s[i]) || name_char(s[i]),
    ensures
        all_name_chars(replace_runs(s, in_run, seq!['_'])),
    decreases s.len(),
{
    if s.len() > 0 {
        let d = s.drop_last();
        assert forall|i: int| 0 <= i < d.len() implies in_run(#[trigger] d[i]) || name_char(d[i]) by {
            assert(d[i] == s[i]);
        }
        lemma_runs_name_chars(d, in_run);
        let prev = replace_runs(d, in_run, seq!['_']);
        let out = replace_runs(s, in_run, seq!['_']);
        assert forall|i: int| 0 <= i < out.len() implies name_char(#[trigger] out[i]) by {
            if i < prev.len() {
                assert(out[i] == prev[i]);
            }
        }
    }
}

proof fn lemma_runs_underscores(s: Seq<char>, in_run: spec_fn(char) -> bool)
    ensures
        all_underscores(replace_runs(s, in_run, seq!['_'])) <==> only_runs_and_underscores(s, in_run),
    decreases s.len(),
{
    if s.len() > 0 {
        let d = s.drop_last();
        lemma_runs_underscores(d, in_run);
        let prev = replace_runs(d, in_run, seq!['_']);
        let out = replace_runs(s, in_run, seq!['_']);
        assert(only_runs_and_underscores(s, in_run) <==> (only_runs_and_underscores(d, in_run) && (
        in_run(s.last()) || s.last() == '_'))) by {
            if only_runs_and_underscores(s, in_run) {
                assert forall|i: int| 0 <= i < d.len() implies in_run(#[trigger] d[i]) || d[i] == '_' by {
                    assert(d[i] == s[i]);
                }
                assert(s[s.len() - 1] == s.last());
            }
            if only_runs_and_underscores(d, in_run) && (in_run(s.last()) || s.last() == '_') {
                assert forall|i: int| 0 <= i < s.len() implies in_run(#[trigger] s[i]) || s[i] == '_' by {
                    if i < d.len() {
                        assert(d[i] == s[i]);
                    }
                }
            }
        }
        if all_underscores(out) {
            assert forall|i: int| 0 <= i < prev.len() implies #[trigger] prev[i] == '_' by {
                assert(out[i] == prev[i]);
            }
            if !in_run(s.last()) {
                assert(out[out.len() - 1] == s.last());
            }
        }
        if all_underscores(prev) {
            assert forall|i: int| 0 <= i < out.len() && (in_run(s.last()) || s.last() == '_') implies #[trigger] out[i] == '_' by {
                if i < prev.len() {
                    assert(out[i] == prev[i]);
                }
            }
        }
    }
}

proof fn lemma_strip_leading_prefix(s: Seq<char>, c: char)
    ensures
        exists|k: int|
            0 <= k <= s.len() && strip_leading(s, c) == s.skip(k) && (forall|i: int|
                0 <= i < k ==> #[trigger] s[i] == c),
    decreases s.len(),
{
    if s.len() > 0 && s[0] == c {
        lemma_strip_leading_prefix(s.drop_first(), c);
        let k = choose|k: int|
            0 <= k <= s.drop_first().len() && strip_leading(s.drop_first(), c) == s.drop_first().skip(k)
                && (forall|i: int| 0 <= i < k ==> #[trigger] s.drop_first()[i] == c);
        assert(s.drop_first().skip(k) =~= s.skip(k + 1));
        assert forall|i: int| 0 <= i < k + 1 implies #[trigger] s[i] == c by {
            if i > 0 {
                assert(s[i] == s.drop_first()[i - 1]);
            }
        }
    } else {
        assert(s.skip(0) =~= s);
    }
}

proof fn lemma_strip_trailing_suffix(s: Seq<char>, c: char)
    ensures
        exists|k: int|
            0 <= k <= s.len() && strip_trailing(s, c) == s.take(k) && (forall|i: int|
                k <= i < s.len() ==> #[trigger] s[i] == c),
    decreases s.len(),
{
    if s.len() > 0 && s.last() == c {
        lemma_strip_trailing_suffix(s.drop_last(), c);
        let k = choose|k: int|
            0 <= k <= s.drop_last().len() && strip_trailing(s.drop_last(), c) == s.drop_last().take(k)
                && (forall|i: int| k <= i < s.drop_last().len() ==> #[trigger] s.drop_last()[i] == c);
        assert(s.drop_last().take(k) =~= s.take(k));
        assert forall|i: int| k <= i < s.len() implies #[trigger] s[i] == c by {
            if i < s.len() - 1 {
                assert(s[i] == s.drop_last()[i]);
            }
        }
    } else {
        assert(s.take(s.len() as int) =~= s);
    }
}

/// Normalizing a normalized name changes nothing: the name holds no `__`
/// either. And the name is empty exactly when the trimmed raw name holds
/// no letter, digit, `.`, `:` or `-`.
pub proof fn law_normalize_twice_changes_nothing(raw: Seq<char>)
    ensures
        normalized_name(normalized_name(raw)) == normalized_name(raw),
        no_double_underscore(normalized_name(raw)),
        normalized_name(raw).len() == 0 <==> (forall|i: int|
            0 <= i < trim(raw).len() ==> !name_char(#[trigger] trim(raw)[i]) || trim(raw)[i] == '_'),
{
    reveal_strlit("_");
    assert("_"@ =~= seq!['_']);
    let t = trim(raw);
    let out = normalized_name(raw);
    let nn = |c: char| !name_char(c);
    let us = |c: char| c == '_';
    if t.len() == 0 {
        assert(trim(Seq::<char>::empty()) == Seq::<char>::empty());
        assert(normalized_name(Seq::<char>::empty()) =~= Seq::<char>::empty());
    } else {
        let a = replace_runs(t, nn, seq!['_']);
        let b = replace_runs(a, us, seq!['_']);
        let l = strip_leading(b, '_');
        let c = strip_trailing(l, '_');
        lemma_runs_name_chars(t, nn);
        lemma_runs_name_chars(a, us);
        lemma_runs_collapse(a, us);
        lemma_runs_underscores(t, nn);
        lemma_runs_underscores(a, us);
        lemma_strip_leading_prefix(b, '_');
        lemma_strip_trailing_suffix(l, '_');
        lemma_strip_leading(b, '_');
        lemma_strip_trailing(l, '_');
        let k = choose|k: int|
            0 <= k <= b.len() && l == b.skip(k) && (forall|i: int| 0 <= i < k ==> #[trigger] b[i] == '_');
        let m = choose|m: int|
            0 <= m <= l.len() && c == l.take(m) && (forall|i: int| m <= i < l.len() ==> #[trigger] l[i] == '_');
        assert forall|i: int| 0 <= i < c.len() implies #[trigger] c[i] == b[k + i] by {}
        assert(all_name_chars(c)) by {
            assert forall|i: int| 0 <= i < c.len() implies name_char(#[trigger] c[i]) by {
                assert(c[i] == b[k + i]);
            }
        }
        assert(no_double_underscore(c)) by {
            assert forall|i: int| 1 <= i < c.len() implies !(c[i - 1] == '_' && #[trigger] c[i] == '_') by {
                assert(c[i] == b[k + i]);
                assert(c[i - 1] == b[k + i - 1]);
            }
        }
        assert(only_runs_and_underscores(a, us) <==> all_underscores(a)) by {
            if only_runs_and_underscores(a, us) {
                assert forall|i: int| 0 <= i < a.len() implies #[trigger] a[i] == '_' by {
                    assert(us(a[i]) || a[i] == '_');
                }
            }
            if all_underscores(a) {
                assert forall|i: int| 0 <= i < a.len() implies us(#[trigger] a[i]) || a[i] == '_' by {}
            }
        }
        assert((c.len() == 0) <==> all_underscores(b)) by {
            if c.len() == 0 && !all_underscores(b) {
                let j = choose|j: int| 0 <= j < b.len() && b[j] != '_';
                assert(j >= k);
                assert(l[j - k] == b[j]);
                assert(j - k < m);
                assert(c[j - k] == l[j - k]);
            }
            if c.len() > 0 && all_underscores(b) {
                assert(c[0] == b[k]);
            }
        }
        assert((forall|i: int| 0 <= i < t.len() ==> !name_char(#[trigger] t[i]) || t[i] == '_')
            <==> only_runs_and_underscores(t, nn)) by {
            if forall|i: int| 0 <= i < t.len() ==> !name_char(#[trigger] t[i]) || t[i] == '_' {
                assert forall|i: int| 0 <= i < t.len() implies nn(#[trigger] t[i]) || t[i] == '_' by {
                    assert(!name_char(t[i]) || t[i] == '_');
                }
            }
            if only_runs_and_underscores(t, nn) {
                assert forall|i: int| 0 <= i < t.len() implies !name_char(#[trigger] t[i]) || t[i] == '_' by {
                    assert(nn(t[i]) || t[i] == '_');
                }
            }
        }
        if c.len() == 0 {
            assert(out =~= Seq::<char>::empty());
            assert(trim(Seq::<char>::empty()) == Seq::<char>::empty());
        } else {
            assert(out == c);
            assert(c[0] != '_' && c.last() != '_');
            assert(!is_ws(c[0]) && !is_ws(c.last())) by {
                assert(name_char(c[0]));
                assert(name_char(c[c.len() - 1]));
            }
            assert(trim_start(c) == c);
            assert(trim_end(c) == c);
            assert(trim(c) == c);
            assert forall|i: int| 0 <= i < c.len() implies !nn(#[trigger] c[i]) by {
                assert(name_char(c[i]));
            }
            lemma_runs_identity(c, nn, seq!['_']);
            lemma_runs_single_underscores(c, us);
            assert(strip_leading(c, '_') == c);
            assert(strip_trailing(c, '_') == c);
        }
    }
}

proof fn lemma_digit_char(d: nat)
    requires
        d < 10,
    ensures
        is_digit(crate::text::digit_char(d)),
        digit_value(crate::text::digit_char(d)) == d,
{
    assert(((d + 48) as u32) as int == d + 48);
    assert((((d + 48) as u32) as char) as int == d + 48);
}

proof fn lemma_digit_not_ws(d: nat)
    requires
        d < 10,
    ensures
        !crate::text::is_ws(crate::text::digit_char(d)),
        crate::text::digit_char(d) != '-',
        crate::text::digit_char(d) != '+',
{
    assert(((d + 48) as u32) as int == d + 48);
    assert((((d + 48) as u32) as char) as int == d + 48);
    assert((crate::text::digit_char(d) as u32) as int == d + 48);
}

proof fn lemma_decimal_digits(n: nat)
    ensures
        decimal(n).len() > 0,
        all_digits(decimal(n)),
        digits_value(decimal(n)) == n,
        !crate::text::is_ws(decimal(n)[0]),
        !crate::text::is_ws(decimal(n).last()),
        decimal(n)[0] != '-',
        decimal(n)[0] != '+',
    decreases n,
{
    if n < 10 {
        lemma_digit_char(n);
        lemma_digit_not_ws(n);
        assert(decimal(n).drop_last() =~= Seq::<char>::empty());
        assert(digits_value(Seq::<char>::empty()) == 0);
        assert(digits_value(decimal(n)) == digits_value(decimal(n).drop_last()) * 10 + digit_value(
            decimal(n).last(),
        ));
    } else {
        lemma_decimal_digits(n / 10);
        lemma_digit_char(n % 10);
        lemma_digit_not_ws(n % 10);
        let s = decimal(n);
        assert(s.drop_last() =~= decimal(n / 10));
        assert(s[0] == decimal(n / 10)[0]);
        assert(s.last() == crate::text::digit_char(n % 10));
        assert((n / 10) * 10 + n % 10 == n) by (nonlinear_arith);
        assert(digits_value(s) == digits_value(decimal(n / 10)) * 10 + digit_value(s.last()));
    }
}

/// Printing an `i64` in decimal and parsing it back gives the same number:
/// the timestamps that tmux prints are read back exactly.
pub proof fn law_parse_i64_reads_decimal(n: i64)
    ensures
        parse_i64_spec(decimal_int(n as int)) == n,
{
    let t = decimal_int(n as int);
    if n < 0 {
        let m = (-n) as nat;
        lemma_decimal_digits(m);
        assert(t.drop_first() =~= decimal(m));
        assert(t.last() == decimal(m).last());
    } else {
        lemma_decimal_digits(n as nat);
    }
    assert(!crate::text::is_ws(t[0]));
    assert(crate::text::trim_start(t) == t);
    assert(crate::text::trim_end(t) == t);
}

proof fn lemma_index_of_char_exact(s: Seq<char>, c: char, pos: int, k: int)
    requires
        0 <= pos <= k <= s.len(),
        k == s.len() || s[k] == c,
        forall|j: int| pos <= j < k ==> s[j] != c,
    ensures
        index_of_char_from(s, c, pos) == k,
    decreases k - pos,
{
    if pos < k {
        lemma_index_of_char_exact(s, c, pos + 1, k);
    }
}

proof fn lemma_decimal_int_text(n: i64)
    ensures
        decimal_int(n as int).len() > 0,
        !decimal_int(n as int).contains('\t'),
        !crate::text::is_ws(decimal_int(n as int).last()),
        parse_i64_spec(decimal_int(n as int)) == n,
{
    law_parse_i64_reads_decimal(n);
    let t = decimal_int(n as int);
    if n < 0 {
        let m = (-n) as nat;
        lemma_decimal_digits(m);
        assert(t.last() == decimal(m).last());
        assert forall|j: int| 0 <= j < t.len() implies t[j] != '\t' by {
            if j > 0 {
                assert(t[j] == decimal(m)[j - 1]);
                assert(is_digit(decimal(m)[j - 1]));
            }
        }
    } else {
        lemma_decimal_digits(n as nat);
        assert forall|j: int| 0 <= j < t.len() implies t[j] != '\t' by {
            assert(is_digit(t[j]));
        }
    }
}

proof fn lemma_index_shift(p: Seq<char>, y: Seq<char>, c: char, i: int)
    requires
        0 <= i <= y.len(),
    ensures
        index_of_char_from(p + y, c, p.len() + i) == p.len() + index_of_char_from(y, c, i),
    decreases y.len() - i,
{
    if i < y.len() {
        assert((p + y)[p.len() + i] == y[i]);
        lemma_index_shift(p, y, c, i + 1);
    }
}

proof fn lemma_split_shift(p: Seq<char>, y: Seq<char>, c: char, i: int)
    requires
        0 <= i <= y.len(),
    ensures
        crate::text::split_from(p + y, c, p.len() + i) == crate::text::split_from(y, c, i),
    decreases y.len() - i,
{
    lemma_index_shift(p, y, c, i);
    crate::text::lemma_index_of_char_from(y, c, i);
    let k = index_of_char_from(y, c, i);
    if k < y.len() {
        lemma_split_shift(p, y, c, k + 1);
        assert((p + y).subrange(p.len() + i, p.len() + k) =~= y.subrange(i, k));
    } else {
        assert((p + y).subrange(p.len() + i, (p + y).len() as int) =~= y.subrange(i, y.len() as int));
    }
}

proof fn lemma_split_head(x: Seq<char>, y: Seq<char>, c: char)
    requires
        !x.contains(c),
    ensures
        split_char(x + seq![c] + y, c) == seq![x] + split_char(y, c),
{
    let s = x + seq![c] + y;
    assert forall|j: int| 0 <= j < x.len() implies s[j] != c by {
        assert(s[j] == x[j]);
    }
    lemma_index_of_char_exact(s, c, 0, x.len() as int);
    assert(s.subrange(0, x.len() as int) =~= x);
    assert(s =~= (x + seq![c]) + y);
    lemma_split_shift(x + seq![c], y, c, 0);
}

proof fn lemma_split_none(x: Seq<char>, c: char)
    requires
        !x.contains(c),
    ensures
        split_char(x, c) == seq![x],
{
    lemma_index_of_char_exact(x, c, 0, x.len() as int);
    assert(x.subrange(0, x.len() as int) =~= x);
}

proof fn lemma_trim_of(l: Seq<char>)
    requires
        l.len() > 0,
        !crate::text::is_ws(l[0]),
        !crate::text::is_ws(l.last()),
    ensures
        trim(l) == l,
{
    assert(crate::text::trim_start(l) == l);
    assert(crate::text::trim_end(l) == l);
}

/// A line in the format the picker asks `tmux list-sessions` for (the name,
/// then the three timestamps in decimal, separated by tabs) reads back as the
/// session it describes, for a name that is not empty, holds no tab and has
/// no whitespace at either end.
pub proof fn law_session_line_reads_back(name: Seq<char>, la: i64, act: i64, cr: i64)
    requires
        name.len() > 0,
        !crate::text::is_ws(name[0]),
        !crate::text::is_ws(name.last()),
        !name.contains('\t'),
    ensures
        session_line_spec(
            name + "\t"@ + decimal_int(la as int) + "\t"@ + decimal_int(act as int) + "\t"@
                + decimal_int(cr as int),
        ) == Some(session_of(name, la, act, cr)),
{
    let a = decimal_int(la as int);
    let b = decimal_int(act as int);
    let c = decimal_int(cr as int);
    let tab = "\t"@;
    assert(tab =~= seq!['\t']) by {
        reveal_strlit("\t");
    }
    lemma_decimal_int_text(la);
    lemma_decimal_int_text(act);
    lemma_decimal_int_text(cr);
    let r2 = b + tab + c;
    let r1 = a + tab + r2;
    let l = name + tab + a + tab + b + tab + c;
    assert(l =~= name + seq!['\t'] + r1);
    assert(r1 =~= a + seq!['\t'] + r2);
    assert(r2 =~= b + seq!['\t'] + c);
    lemma_split_none(c, '\t');
    lemma_split_head(b, c, '\t');
    lemma_split_head(a, r2, '\t');
    lemma_split_head(name, r1, '\t');
    let parts = split_char(l, '\t');
    assert(parts =~= seq![name, a, b, c]);
    assert(l[0] == name[0]);
    assert(l.last() == c.last());
    lemma_trim_of(l);
    lemma_trim_of(name);
    assert(l.subrange(name.len() as int, name.len() as int + 1) =~= tab);
    crate::text::lemma_find_from(l, tab, 0);
    assert(crate::text::matches_at(l, tab, name.len() as int));
    assert(contains(l, tab));
}

/// With no query, the picker lists the most recent sessions first.
pub proof fn law_no_query_lists_most_recent_first(sessions: Seq<SessionView>)
    ensures
        forall|i: int, j: int|
            0 <= i < j < ranked(sessions, Seq::empty()).len() ==> recency(
                #[trigger] ranked_sessions(ranked(sessions, Seq::empty()))[i],
            ) >= recency(#[trigger] ranked_sessions(ranked(sessions, Seq::empty()))[j]),
{
    broadcast use vstd::seq_lib::group_to_multiset_ensures;

    let cands = candidates(sessions, Seq::empty());
    let r = ranked(sessions, Seq::empty());
    lemma_sort_ranked(cands);
    assert forall|k: int| 0 <= k < r.len() implies (#[trigger] r[k]).0 == 0 by {
        assert(r.to_multiset().count(r[k]) > 0);
        assert(cands.to_multiset().count(r[k]) > 0);
        assert(cands.contains(r[k]));
    }
    assert forall|i: int, j: int| 0 <= i < j < r.len() implies recency(
        #[trigger] ranked_sessions(r)[i],
    ) >= recency(#[trigger] ranked_sessions(r)[j]) by {
        assert(rank_le(r[i], r[j]));
        assert(r[i].0 == 0 && r[j].0 == 0);
    }
}

} // verus!
