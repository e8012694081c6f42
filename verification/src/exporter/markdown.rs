//! Markdown building blocks and text cleanup for transcripts.
use vstd::prelude::*;

use crate::text::{
    ascii_lower, ascii_lower_str, chars_vec, contains, contains_str, decimal, ends_with,
    ends_with_str, find, find_str, index_of_char, index_of_char_from, join, join_strings, lines,
    lines_of, push_str, replace, replace_str, skip_ws, string_of, string_of_range, trim, trim_end,
    trim_end_str, trim_start, trim_start_str, trim_str, u64_to_string, views, words_of,
};

verus! {

// ---------------------------------------------------------------------------
// Specifications
// ---------------------------------------------------------------------------

/// `### [ts] title`, a blank line, the body without trailing whitespace, a blank line.
pub open spec fn section_spec(ts: Seq<char>, title: Seq<char>, body: Seq<char>) -> Seq<char> {
    "### ["@ + ts + "] "@ + title + "\n\n"@ + trim_end(body) + "\n\n"@
}

/// The body with each triple backtick broken up.
pub open spec fn fence_safe(body: Seq<char>) -> Seq<char> {
    replace(body, "```"@, "``\\`"@)
}

/// A fenced code block in language `lang`.
pub open spec fn fence_spec(lang: Seq<char>, body: Seq<char>) -> Seq<char> {
    "```"@ + lang + "\n"@ + trim_end(fence_safe(body)) + "\n```\n"@
}

/// Each line of `text` quoted with `> `.
pub open spec fn blockquote_spec(text: Seq<char>) -> Seq<char> {
    join(lines(text).map_values(|l: Seq<char>| "> "@ + l), "\n"@)
}

/// Backticks turned into single quotes.
pub open spec fn inline_code_spec(text: Seq<char>) -> Seq<char> {
    Seq::new(text.len(), |i: int| if text[i] == '`' { '\'' } else { text[i] })
}

/// The first `max_len` chars, or all of them.
pub open spec fn shorten_spec(text: Seq<char>, max_len: nat) -> Seq<char> {
    if text.len() <= max_len {
        text
    } else {
        text.take(max_len as int)
    }
}

/// The first `max_len` chars followed by a count of those left out.
pub open spec fn truncate_spec(text: Seq<char>, max_len: nat) -> Seq<char> {
    if text.len() <= max_len {
        text
    } else {
        trim_end(text.take(max_len as int)) + " (+"@ + decimal((text.len() - max_len) as nat)
            + " chars)"@
    }
}

/// The key before the first `=` of a trimmed line, and the value after it.
pub open spec fn split_once_eq(t: Seq<char>) -> Option<(Seq<char>, Seq<char>)> {
    let k = index_of_char_from(t, '=', 0);
    if k < t.len() {
        Some((t.take(k), t.skip(k + 1)))
    } else {
        None
    }
}

/// A JSON-style `"encrypted_content":` key in the line.
pub open spec fn has_encrypted_key(t: Seq<char>) -> bool {
    let norm = replace(t, "\\\""@, "\""@);
    match find(norm, "\"encrypted_content\""@) {
        Some(idx) => {
            let after = trim_start(norm.skip(idx + 19));
            after.len() > 0 && after[0] == ':'
        },
        None => false,
    }
}

/// Lines that only carry encrypted or empty reasoning content.
pub open spec fn is_noise_spec(line: Seq<char>) -> bool {
    let t = trim(line);
    has_encrypted_key(t) || match split_once_eq(t) {
        Some((key, value)) => {
            trim(key) == "encrypted_content"@ || (trim(key) == "content"@ && trim(value) == "{}"@)
        },
        None => false,
    }
}

/// The lines of `text` that are not noise, joined by newlines.
pub open spec fn scrub_spec(text: Seq<char>) -> Seq<char> {
    join(lines(text).filter(|l: Seq<char>| !is_noise_spec(l)), "\n"@)
}

/// A line whose first non-blank char is `#` gets a backslash before that char.
pub open spec fn escape_heading_spec(line: Seq<char>) -> Seq<char> {
    let t = trim_start(line);
    if t.len() > 0 && t[0] == '#' {
        line.take(line.len() - t.len()) + "\\"@ + t
    } else {
        line
    }
}

/// Every line of `text` with markdown headings escaped.
pub open spec fn escape_headings_spec(text: Seq<char>) -> Seq<char> {
    join(lines(text).map_values(|l: Seq<char>| escape_heading_spec(l)), "\n"@)
}

/// Words that mark trouble in a tool's output or an event's name.
pub open spec fn mentions_trouble(lower: Seq<char>) -> bool {
    contains(lower, "error"@) || contains(lower, "fail"@) || contains(lower, "panic"@)
}

// ---------------------------------------------------------------------------
// Executable functions
// ---------------------------------------------------------------------------

/// A markdown section: heading with timestamp and title, then the body.
pub fn markdown_section(ts: &str, title: &str, body: &str) -> (r: String)
    ensures
        r@ == section_spec(ts@, title@, body@),
{
    let mut out = String::new();
    push_str(&mut out, "### [");
    push_str(&mut out, ts);
    push_str(&mut out, "] ");
    push_str(&mut out, title);
    push_str(&mut out, "\n\n");
    let trimmed = trim_end_str(body);
    push_str(&mut out, trimmed.as_str());
    push_str(&mut out, "\n\n");
    assert(out@ =~= section_spec(ts@, title@, body@));
    out
}

/// A fenced code block whose body cannot close the fence early.
pub fn markdown_fence(lang: &str, body: &str) -> (r: String)
    ensures
        r@ == fence_spec(lang@, body@),
{
    proof {
        reveal_strlit("```");
    }
    let safe = replace_str(body, "```", "``\\`");
    let trimmed = trim_end_str(safe.as_str());
    let mut out = String::new();
    push_str(&mut out, "```");
    push_str(&mut out, lang);
    push_str(&mut out, "\n");
    push_str(&mut out, trimmed.as_str());
    push_str(&mut out, "\n```\n");
    assert(out@ =~= fence_spec(lang@, body@));
    out
}

/// The text quoted line by line.
pub fn markdown_blockquote(text: &str) -> (r: String)
    ensures
        r@ == blockquote_spec(text@),
{
    let ls = lines_of(text);
    let mut quoted: Vec<String> = Vec::new();
    let mut i: usize = 0;
    while i < ls.len()
        invariant
            views(ls@) == lines(text@),
            i <= ls@.len(),
            views(quoted@) == lines(text@).map_values(|l: Seq<char>| "> "@ + l).take(i as int),
        decreases ls.len() - i,
    {
        let mut q = String::new();
        push_str(&mut q, "> ");
        push_str(&mut q, ls[i].as_str());
        let ghost old_q = quoted@;
        quoted.push(q);
        assert(views(quoted@) =~= views(old_q).push(q@));
        i = i + 1;
        assert(views(quoted@) =~= lines(text@).map_values(|l: Seq<char>| "> "@ + l).take(
            i as int,
        ));
    }
    assert(lines(text@).map_values(|l: Seq<char>| "> "@ + l).take(i as int) =~= lines(
        text@,
    ).map_values(|l: Seq<char>| "> "@ + l));
    join_strings(&quoted, "\n")
}

/// The text with backticks replaced by single quotes, for use inside inline code.
pub fn inline_code(text: &str) -> (r: String)
    ensures
        r@ == inline_code_spec(text@),
{
    let cs = chars_vec(text);
    let mut out = String::new();
    let mut i: usize = 0;
    while i < cs.len()
        invariant
            cs@ == text@,
            i <= cs@.len(),
            out@ == inline_code_spec(text@).take(i as int),
        decreases cs.len() - i,
    {
        if cs[i] == '`' {
            out.push('\'');
        } else {
            out.push(cs[i]);
        }
        i = i + 1;
        assert(out@ =~= inline_code_spec(text@).take(i as int));
    }
    assert(inline_code_spec(text@).take(i as int) =~= inline_code_spec(text@));
    out
}

/// At most `max_len` chars of `text`.
pub fn shorten(text: &str, max_len: usize) -> (r: String)
    ensures
        r@ == shorten_spec(text@, max_len as nat),
{
    let cs = chars_vec(text);
    if cs.len() <= max_len {
        return string_of(cs.as_slice());
    }
    if max_len == 0 {
        let r = String::new();
        assert(r@ =~= text@.take(0));
        return r;
    }
    string_of_range(cs.as_slice(), 0, max_len)
}

/// At most `max_len` chars of `text`, with a note of how many were cut.
pub fn truncate_with_indicator(text: &str, max_len: usize) -> (r: String)
    ensures
        r@ == truncate_spec(text@, max_len as nat),
{
    let cs = chars_vec(text);
    if cs.len() <= max_len {
        return string_of(cs.as_slice());
    }
    let kept = string_of_range(cs.as_slice(), 0, max_len);
    let remaining = cs.len() - max_len;
    let mut out = trim_end_str(kept.as_str());
    push_str(&mut out, " (+");
    let num = u64_to_string(remaining as u64);
    push_str(&mut out, num.as_str());
    push_str(&mut out, " chars)");
    assert(out@ =~= truncate_spec(text@, max_len as nat));
    out
}

/// Whitespace runs collapsed to single spaces.
pub fn collapse_ws(text: &str) -> (r: String)
    ensures
        r@ == crate::text::collapse_ws(text@),
{
    let ws = words_of(text);
    proof {
        reveal_strlit(" ");
        assert(" "@ =~= seq![' ']);
    }
    join_strings(&ws, " ")
}

/// Whether the line carries encrypted or empty reasoning content.
pub fn is_noise_line(line: &str) -> (b: bool)
    ensures
        b == is_noise_spec(line@),
{
    proof {
        reveal_strlit("\"encrypted_content\"");
        reveal_strlit("\\\"");
    }
    let trimmed = trim_str(line);
    let normalized = replace_str(trimmed.as_str(), "\\\"", "\"");
    let mut encrypted = false;
    match find_str(normalized.as_str(), "\"encrypted_content\"") {
        Some(idx) => {
            proof {
                crate::text::lemma_find_from(normalized@, "\"encrypted_content\""@, 0);
            }
            let ncs = chars_vec(normalized.as_str());
            assert(idx + 19 <= ncs.len());
            let start = idx + 19;
            let after = string_of_range(ncs.as_slice(), start, ncs.len());
            assert(after@ =~= normalized@.skip(idx + 19));
            let after_t = trim_start_str(after.as_str());
            let acs = chars_vec(after_t.as_str());
            if acs.len() > 0 && acs[0] == ':' {
                encrypted = true;
            }
        },
        None => {},
    }
    if encrypted {
        return true;
    }
    let tcs = chars_vec(trimmed.as_str());
    let k = index_of_char(tcs.as_slice(), '=', 0);
    if k >= tcs.len() {
        return false;
    }
    let key_s = string_of_range(tcs.as_slice(), 0, k);
    let value_s = string_of_range(tcs.as_slice(), k + 1, tcs.len());
    assert(key_s@ =~= trim(line@).take(k as int));
    assert(value_s@ =~= trim(line@).skip(k + 1));
    let key = trim_str(key_s.as_str());
    let is_enc = key.eq(&String::from_str("encrypted_content"));
    if is_enc {
        return true;
    }
    let is_content = key.eq(&String::from_str("content"));
    if is_content {
        let value = trim_str(value_s.as_str());
        return value.eq(&String::from_str("{}"));
    }
    false
}

/// The text without noise lines.
pub fn scrub_noise_lines(text: &str) -> (r: String)
    ensures
        r@ == scrub_spec(text@),
{
    let ls = lines_of(text);
    let mut kept: Vec<String> = Vec::new();
    let mut i: usize = 0;
    while i < ls.len()
        invariant
            views(ls@) == lines(text@),
            i <= ls@.len(),
            views(kept@) == lines(text@).take(i as int).filter(
                |l: Seq<char>| !is_noise_spec(l),
            ),
        decreases ls.len() - i,
    {
        let noise = is_noise_line(ls[i].as_str());
        proof {
            let pred = |l: Seq<char>| !is_noise_spec(l);
            assert(lines(text@).take(i + 1) =~= lines(text@).take(i as int).push(
                lines(text@)[i as int],
            ));
            lines(text@).take(i as int).lemma_filter_push(lines(text@)[i as int], pred);
        }
        if !noise {
            let ghost old_k = kept@;
            kept.push(ls[i].clone());
            assert(views(kept@) =~= views(old_k).push(ls@[i as int]@));
        }
        i = i + 1;
    }
    assert(lines(text@).take(i as int) =~= lines(text@));
    join_strings(&kept, "\n")
}

/// A line with a markdown heading marker escaped.
fn escape_heading_line(line: &str) -> (r: String)
    ensures
        r@ == escape_heading_spec(line@),
{
    proof {
        reveal_strlit("\\");
    }
    let cs = chars_vec(line);
    let a = skip_ws(cs.as_slice(), 0, cs.len());
    assert(cs@.subrange(0, cs@.len() as int) =~= cs@);
    if a < cs.len() && cs[a] == '#' {
        let mut out = string_of_range(cs.as_slice(), 0, a);
        out.push('\\');
        let rest = string_of_range(cs.as_slice(), a, cs.len());
        push_str(&mut out, rest.as_str());
        assert(out@ =~= escape_heading_spec(line@));
        out
    } else {
        string_of(cs.as_slice())
    }
}

/// The text with every line that starts a markdown heading escaped.
pub fn escape_heading_lines(text: &str) -> (r: String)
    ensures
        r@ == escape_headings_spec(text@),
{
    let ls = lines_of(text);
    let mut out: Vec<String> = Vec::new();
    let mut i: usize = 0;
    while i < ls.len()
        invariant
            views(ls@) == lines(text@),
            i <= ls@.len(),
            views(out@) == lines(text@).map_values(|l: Seq<char>| escape_heading_spec(l)).take(
                i as int,
            ),
        decreases ls.len() - i,
    {
        let e = escape_heading_line(ls[i].as_str());
        let ghost old_o = out@;
        out.push(e);
        assert(views(out@) =~= views(old_o).push(e@));
        i = i + 1;
        assert(views(out@) =~= lines(text@).map_values(|l: Seq<char>| escape_heading_spec(l)).take(
            i as int,
        ));
    }
    assert(lines(text@).map_values(|l: Seq<char>| escape_heading_spec(l)).take(i as int)
        =~= lines(text@).map_values(|l: Seq<char>| escape_heading_spec(l)));
    join_strings(&out, "\n")
}

/// Whether the lower-cased text mentions an error, a failure or a panic.
fn mentions_trouble_exec(lower: &str) -> (b: bool)
    ensures
        b == mentions_trouble(lower@),
{
    contains_str(lower, "error") || contains_str(lower, "fail") || contains_str(lower, "panic")
}

/// A tool's output is worth showing when it failed or mentions trouble.
pub fn should_include_medium_output(exit_code: Option<i64>, output: &str) -> (b: bool)
    ensures
        b == (exit_code.unwrap_or(0) != 0 || mentions_trouble(ascii_lower(output@)) || contains(
            ascii_lower(output@),
            "warn"@,
        )),
{
    let code = match exit_code {
        Some(c) => c,
        None => 0,
    };
    if code != 0 {
        return true;
    }
    let lower = ascii_lower_str(output);
    if mentions_trouble_exec(lower.as_str()) || contains_str(lower.as_str(), "warn") {
        return true;
    }
    false
}

/// An event is worth showing when its label mentions trouble.
pub fn is_medium_event_worthy(label: &str) -> (b: bool)
    ensures
        b == (label@.len() > 0 && mentions_trouble(ascii_lower(label@))),
{
    if label.is_empty() {
        return false;
    }
    let l = ascii_lower_str(label);
    mentions_trouble_exec(l.as_str())
}

/// A message added automatically by the system to report its status.
pub fn is_auto_system_status_message(parts: &Vec<String>) -> (b: bool)
    ensures
        b == (contains(join(views(parts@), "\n"@), "== System Status =="@) && contains(
            join(views(parts@), "\n"@),
            "[automatic message added by system]"@,
        )),
{
    let text = join_strings(parts, "\n");
    contains_str(text.as_str(), "== System Status ==") && contains_str(
        text.as_str(),
        "[automatic message added by system]",
    )
}

/// The catalog's rollout path, and its `.jsonl` sibling when it names a snapshot.
pub open spec fn rel_candidates(rel: Seq<char>) -> Seq<Seq<char>> {
    if ends_with(rel, ".snapshot.json"@) {
        seq![rel, rel.take(rel.len() - 14) + ".jsonl"@]
    } else {
        seq![rel]
    }
}

/// The catalog's rollout path, and its `.jsonl` sibling when it names a snapshot.
pub fn rollout_rel_candidates(rel: &str) -> (r: Vec<String>)
    ensures
        views(r@) == rel_candidates(rel@),
        r@.len() >= 1,
        r@[0]@ == rel@,
        r@.len() == if ends_with(rel@, ".snapshot.json"@) {
            2int
        } else {
            1int
        },
        r@.len() == 2 ==> r@[1]@ == rel@.take(rel@.len() - 14) + ".jsonl"@,
{
    proof {
        reveal_strlit(".snapshot.json");
    }
    let mut out: Vec<String> = Vec::new();
    out.push(String::from_str(rel));
    if ends_with_str(rel, ".snapshot.json") {
        let cs = chars_vec(rel);
        let mut alt = string_of_range(cs.as_slice(), 0, cs.len() - 14);
        push_str(&mut alt, ".jsonl");
        out.push(alt);
    }
    out
}

} // verus!
