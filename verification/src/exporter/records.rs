//! Sections of a transcript for the payloads of rollout records.
use vstd::prelude::*;

use crate::exporter::items::{
    content_items, message_parts, message_parts_spec, opt_view, summarize_tool_call,
    tool_call_spec, tool_title, MediumToolCall,
};
use crate::exporter::markdown::{
    blockquote_spec, fence_spec, inline_code, inline_code_spec, is_auto_system_status_message,
    markdown_blockquote, markdown_fence, markdown_section, mentions_trouble, section_spec,
    should_include_medium_output,
};
use crate::exporter::values::{
    extract_reasoning_summaries, get_str, json_maybe, one_line, one_line_value, parse_json_maybe,
    reasoning_summaries, summarize_tool_output, tool_output_summary,
};
use crate::json::{
    ji64, jget, jget_str, jget_str_or, json_pretty, spec_json_pretty, text_eq, Json, JsonValue,
};
use crate::text::{
    ascii_lower, contains, decimal_int, i64_to_string, join, join_strings, push_str,
    spec_to_uppercase, to_uppercase_str, views,
};

verus! {

broadcast use vstd::std_specs::vec::group_vec_axioms;

// ---------------------------------------------------------------------------
// Specifications
// ---------------------------------------------------------------------------

/// The view of a pending tool call: name, summary, timestamp.
pub open spec fn call_view(c: MediumToolCall) -> (Seq<char>, Seq<char>, Seq<char>) {
    (c.name@, c.call_markdown@, c.timestamp@)
}

/// A payload's `type`, or `unknown`.
pub open spec fn payload_type(p: Json) -> Seq<char> {
    jget_str_or(p, "type"@, "unknown"@)
}

/// Whether an optional payload has the given `type`.
pub open spec fn has_type(p: Option<Json>, t: Seq<char>) -> bool {
    p is Some && jget_str(p->0, "type"@) == Some(t)
}

/// A tool call captured to wait for its output: the call id, and its name,
/// summary and timestamp.
pub open spec fn captured_call(
    payload: Option<Json>,
    max_len: nat,
    detailed: bool,
    ts: Seq<char>,
) -> Option<(Seq<char>, (Seq<char>, Seq<char>, Seq<char>))> {
    if !has_type(payload, "function_call"@) {
        None
    } else {
        let p = payload->0;
        match jget_str(p, "call_id"@) {
            None => None,
            Some(id) => {
                let name = jget_str_or(p, "name"@, "unknown"@);
                let args = json_maybe(jget(p, "arguments"@));
                Some((id, (name, tool_call_spec(name, args, max_len, detailed), ts)))
            },
        }
    }
}

/// A call without an id, shown where it occurs.
pub open spec fn unpaired_call_spec(
    ts: Seq<char>,
    payload: Option<Json>,
    max_len: nat,
    detailed: bool,
) -> Option<Seq<char>> {
    if !has_type(payload, "function_call"@) {
        None
    } else {
        let p = payload->0;
        let name = jget_str_or(p, "name"@, "unknown"@);
        let args = json_maybe(jget(p, "arguments"@));
        Some(section_spec(ts, tool_title(name), tool_call_spec(name, args, max_len, detailed)))
    }
}

/// The metadata object of a parsed tool output, if there is one.
pub open spec fn output_meta(output: Json) -> Option<Json> {
    match jget(output, "metadata"@) {
        Some(m) => if m is Object {
            Some(m)
        } else {
            None
        },
        None => None,
    }
}

/// A member of the metadata of a parsed tool output.
pub open spec fn meta_member(output: Json, key: Seq<char>) -> Option<Json> {
    match output_meta(output) {
        Some(m) => jget(m, key),
        None => None,
    }
}

/// The output text of a parsed tool output, on one line.
pub open spec fn output_text(output: Json, max_len: nat) -> Seq<char> {
    match jget(output, "output"@) {
        Some(v) => one_line(v, max_len, 0),
        None => one_line(output, max_len, 0),
    }
}

/// Whether an output is shown: a non-zero exit code or a mention of trouble.
pub open spec fn include_output(code: Option<i64>, text: Seq<char>) -> bool {
    code.unwrap_or(0) != 0 || mentions_trouble(ascii_lower(text)) || contains(
        ascii_lower(text),
        "warn"@,
    )
}

/// The lines of a tool output's section.
pub open spec fn tool_output_section_lines(
    output: Json,
    call: Option<(Seq<char>, Seq<char>, Seq<char>)>,
    max_len: nat,
) -> Seq<Seq<char>> {
    let l0: Seq<Seq<char>> = match call {
        Some(c) => seq![c.1],
        None => seq![],
    };
    let code = match meta_member(output, "exit_code"@) {
        Some(v) => ji64(v),
        None => None,
    };
    let l1: Seq<Seq<char>> = match code {
        Some(n) => seq!["- exit_code: "@ + decimal_int(n as int)],
        None => seq![],
    };
    let l2: Seq<Seq<char>> = match meta_member(output, "duration_seconds"@) {
        Some(d) => seq!["- duration_s: "@ + one_line(d, 40, 0)],
        None => seq![],
    };
    let text = output_text(output, max_len);
    let l3: Seq<Seq<char>> = if include_output(code, text) {
        seq!["- output: "@ + text]
    } else {
        seq![]
    };
    let all = l0 + l1 + l2 + l3;
    if all.len() == 0 {
        seq!["- output: (no data)"@]
    } else {
        all
    }
}

/// A tool output in medium detail, under its call's summary when it has one.
pub open spec fn tool_output_spec(
    ts: Seq<char>,
    payload: Option<Json>,
    call: Option<(Seq<char>, Seq<char>, Seq<char>)>,
    max_len: nat,
) -> Option<Seq<char>> {
    if !has_type(payload, "function_call_output"@) {
        None
    } else {
        let output = json_maybe(jget(payload->0, "output"@));
        let title = match call {
            Some(c) => tool_title(c.0),
            None => "TOOL"@,
        };
        Some(section_spec(ts, title, join(tool_output_section_lines(output, call, max_len), "\n"@)))
    }
}

/// A member of the metadata on one line, or `none`.
pub open spec fn sig_part(output: Json, key: Seq<char>) -> Seq<char> {
    match meta_member(output, key) {
        Some(v) => one_line(v, 20, 0),
        None => "none"@,
    }
}

/// What identifies a tool output: exit code, duration and output text.
pub open spec fn output_signature_spec(payload: Option<Json>) -> Seq<char> {
    let p = match payload {
        Some(p) => p,
        None => Json::Null,
    };
    let output = json_maybe(jget(p, "output"@));
    sig_part(output, "exit_code"@) + "|"@ + sig_part(output, "duration_seconds"@) + "|"@
        + output_text(output, 200)
}

/// The summaries of a reasoning item, joined, when it has any.
pub open spec fn reasoning_key_spec(payload: Option<Json>) -> Option<Seq<char>> {
    if !has_type(payload, "reasoning"@) {
        None
    } else {
        let s = reasoning_summaries(payload->0);
        if s.len() == 0 {
            None
        } else {
            Some(join(s, "\n\n"@))
        }
    }
}

/// A user or assistant message, unless it is empty or an automatic status
/// message; with the image count after it.
pub open spec fn compact_item_spec(ts: Seq<char>, payload: Option<Json>, idx: nat) -> (
    Option<Seq<char>>,
    nat,
) {
    if !has_type(payload, "message"@) {
        (None, idx)
    } else {
        let p = payload->0;
        let role = jget_str_or(p, "role"@, "unknown"@);
        if role != "user"@ && role != "assistant"@ {
            (None, idx)
        } else {
            let (parts, idx2) = message_parts_spec(jget(p, "content"@), idx, true);
            let text = join(parts, "\n"@);
            if parts.len() == 0 {
                (None, idx2)
            } else if role == "user"@ && contains(text, "== System Status =="@) && contains(
                text,
                "[automatic message added by system]"@,
            ) {
                (None, idx2)
            } else {
                let title = if role == "user"@ {
                    "USER"@
                } else {
                    "ASSISTANT"@
                };
                (Some(section_spec(ts, title, text)), idx2)
            }
        }
    }
}

/// The quoted summaries of a reasoning item.
pub open spec fn quoted_summaries(s: Seq<Seq<char>>) -> Seq<Seq<char>> {
    s.map_values(|x: Seq<char>| blockquote_spec(x))
}

/// A response item in medium detail, with the image count after it.
pub open spec fn medium_item_spec(ts: Seq<char>, payload: Option<Json>, idx: nat, max_len: nat) -> (
    Option<Seq<char>>,
    nat,
) {
    match payload {
        None => (None, idx),
        Some(p) => {
            let ptype = payload_type(p);
            if ptype == "message"@ {
                compact_item_spec(ts, payload, idx)
            } else if ptype == "function_call"@ {
                let name = jget_str_or(p, "name"@, "unknown"@);
                let args = json_maybe(jget(p, "arguments"@));
                (
                    Some(
                        section_spec(
                            ts,
                            "TOOL_CALL `"@ + inline_code_spec(name) + "`"@,
                            "- arguments: "@ + one_line(args, max_len, 0),
                        ),
                    ),
                    idx,
                )
            } else if ptype == "function_call_output"@ {
                let id = jget_str_or(p, "call_id"@, Seq::empty());
                let output = json_maybe(jget(p, "output"@));
                (
                    Some(
                        section_spec(
                            ts,
                            "TOOL_OUTPUT `"@ + inline_code_spec(id) + "`"@,
                            tool_output_summary(output, max_len),
                        ),
                    ),
                    idx,
                )
            } else if ptype == "reasoning"@ {
                let s = reasoning_summaries(p);
                if s.len() == 0 {
                    (None, idx)
                } else {
                    (Some(section_spec(ts, "REASONING"@, join(quoted_summaries(s), "\n\n"@))), idx)
                }
            } else {
                (
                    Some(
                        section_spec(
                            ts,
                            "RESPONSE_ITEM "@ + ptype,
                            "- payload: "@ + one_line(p, max_len, 0),
                        ),
                    ),
                    idx,
                )
            }
        },
    }
}

/// A payload printed as a JSON block.
pub open spec fn json_block(p: Json) -> Seq<char> {
    fence_spec("json"@, spec_json_pretty(p))
}

/// A record in full JSON detail, with the image count after it.
pub open spec fn full_item_spec(ts: Seq<char>, otype: Seq<char>, payload: Option<Json>, idx: nat) -> (
    Option<Seq<char>>,
    nat,
) {
    let p = match payload {
        Some(p) => p,
        None => Json::Null,
    };
    if otype == "session_meta"@ {
        (Some(section_spec(ts, "SESSION_META"@, json_block(p))), idx)
    } else if otype == "event"@ {
        (Some(section_spec(ts, "EVENT"@, json_block(p))), idx)
    } else if otype == "response_item"@ {
        match payload {
            None => (None, idx),
            Some(p) => {
                let ptype = payload_type(p);
                if ptype == "message"@ {
                    let role = spec_to_uppercase(jget_str_or(p, "role"@, "unknown"@));
                    let (parts, idx2) = message_parts_spec(jget(p, "content"@), idx, false);
                    let body = if parts.len() == 0 {
                        "(empty message)"@
                    } else {
                        join(parts, "\n"@)
                    };
                    (Some(section_spec(ts, role, body)), idx2)
                } else if ptype == "function_call"@ {
                    let name = jget_str_or(p, "name"@, "unknown"@);
                    let args = json_maybe(jget(p, "arguments"@));
                    (
                        Some(
                            section_spec(
                                ts,
                                "TOOL_CALL `"@ + inline_code_spec(name) + "`"@,
                                json_block(args),
                            ),
                        ),
                        idx,
                    )
                } else if ptype == "function_call_output"@ {
                    let id = jget_str_or(p, "call_id"@, Seq::empty());
                    let output = json_maybe(jget(p, "output"@));
                    (
                        Some(
                            section_spec(
                                ts,
                                "TOOL_OUTPUT `"@ + inline_code_spec(id) + "`"@,
                                json_block(output),
                            ),
                        ),
                        idx,
                    )
                } else {
                    (Some(section_spec(ts, "RESPONSE_ITEM "@ + ptype, json_block(p))), idx)
                }
            },
        }
    } else if otype.len() == 0 {
        (None, idx)
    } else {
        (Some(section_spec(ts, spec_to_uppercase(otype), json_block(p))), idx)
    }
}

// ---------------------------------------------------------------------------
// Executable functions
// ---------------------------------------------------------------------------

/// `payload.get("type").and_then(Value::as_str) == Some(t)`.
fn has_type_exec(payload: Option<&JsonValue>, t: &str) -> (b: bool)
    ensures
        b == has_type(opt_view(payload), t@),
{
    match payload {
        Some(p) => match get_str(p, "type") {
            Some(s) => text_eq(s, t),
            None => false,
        },
        None => false,
    }
}

/// A string member, or a default.
pub fn get_str_or(value: &JsonValue, key: &str, default: &str) -> (r: String)
    ensures
        r@ == jget_str_or(value@, key@, default@),
{
    match get_str(value, key) {
        Some(s) => String::from_str(s),
        None => String::from_str(default),
    }
}

/// Captures a tool call that has an id, to render it with its output later.
pub fn capture_medium_tool_call(
    payload: Option<&JsonValue>,
    max_len: usize,
    detailed_calls: bool,
    ts: &str,
) -> (r: Option<(String, MediumToolCall)>)
    ensures
        match r {
            Some((id, call)) => captured_call(opt_view(payload), max_len as nat, detailed_calls, ts@)
                == Some((id@, call_view(call))),
            None => captured_call(opt_view(payload), max_len as nat, detailed_calls, ts@) is None,
        },
{
    if !has_type_exec(payload, "function_call") {
        return None;
    }
    let p = payload.unwrap();
    let call_id = match get_str(p, "call_id") {
        Some(id) => String::from_str(id),
        None => {
            return None;
        },
    };
    let name = get_str_or(p, "name", "unknown");
    let args = parse_json_maybe(p.get("arguments"));
    let call_markdown = summarize_tool_call(name.as_str(), &args, max_len, detailed_calls);
    Some((call_id, MediumToolCall { name, call_markdown, timestamp: String::from_str(ts) }))
}

/// A pending call's section, shown when no output came for it.
pub fn render_pending_tool_call(call: &MediumToolCall) -> (r: String)
    ensures
        r@ == section_spec(call.timestamp@, tool_title(call.name@), call.call_markdown@),
{
    let mut title = String::from_str("TOOL `");
    let code = inline_code(call.name.as_str());
    push_str(&mut title, code.as_str());
    push_str(&mut title, "`");
    markdown_section(call.timestamp.as_str(), title.as_str(), call.call_markdown.as_str())
}

/// A tool's section title.
fn tool_title_exec(name: &str) -> (r: String)
    ensures
        r@ == tool_title(name@),
{
    let mut title = String::from_str("TOOL `");
    let code = inline_code(name);
    push_str(&mut title, code.as_str());
    push_str(&mut title, "`");
    title
}

/// A tool call without an id, rendered where it occurs.
pub fn render_unpaired_tool_call(
    ts: &str,
    payload: Option<&JsonValue>,
    max_len: usize,
    detailed_calls: bool,
) -> (r: Option<String>)
    ensures
        opt_text(r) == unpaired_call_spec(ts@, opt_view(payload), max_len as nat, detailed_calls),
{
    if !has_type_exec(payload, "function_call") {
        return None;
    }
    let p = payload.unwrap();
    let name = get_str_or(p, "name", "unknown");
    let args = parse_json_maybe(p.get("arguments"));
    let call_markdown = summarize_tool_call(name.as_str(), &args, max_len, detailed_calls);
    let title = tool_title_exec(name.as_str());
    Some(markdown_section(ts, title.as_str(), call_markdown.as_str()))
}

/// The view of an optional text.
pub open spec fn opt_text(o: Option<String>) -> Option<Seq<char>> {
    match o {
        Some(s) => Some(s@),
        None => None,
    }
}

/// The view of an optional pending call.
pub open spec fn opt_call(o: Option<&MediumToolCall>) -> Option<(Seq<char>, Seq<char>, Seq<char>)> {
    match o {
        Some(c) => Some(call_view(*c)),
        None => None,
    }
}

/// The metadata object of a parsed output.
fn output_meta_exec(output: &JsonValue) -> (r: Option<&JsonValue>)
    ensures
        opt_view(r) == output_meta(output@),
{
    match output.get("metadata") {
        Some(m) => if m.is_object() {
            Some(m)
        } else {
            None
        },
        None => None,
    }
}

/// The output text of a parsed output, on one line.
fn output_text_exec(output: &JsonValue, max_len: usize) -> (r: String)
    ensures
        r@ == output_text(output@, max_len as nat),
{
    match output.get("output") {
        Some(v) => one_line_value(v, max_len, 0),
        None => one_line_value(output, max_len, 0),
    }
}

/// A tool output in medium detail: the call's summary, exit code, duration, and
/// the output text when it failed or mentions trouble.
pub fn render_medium_tool_output(
    ts: &str,
    payload: Option<&JsonValue>,
    call: Option<&MediumToolCall>,
    max_len: usize,
) -> (r: Option<String>)
    ensures
        opt_text(r) == tool_output_spec(ts@, opt_view(payload), opt_call(call), max_len as nat),
{
    if !has_type_exec(payload, "function_call_output") {
        return None;
    }
    let p = payload.unwrap();
    let output = parse_json_maybe(p.get("output"));
    let mut lines: Vec<String> = Vec::new();
    match call {
        Some(c) => {
            lines.push(c.call_markdown.clone());
        },
        None => {},
    }
    let ghost l0 = views(lines@);
    let meta = output_meta_exec(&output);
    let exit_code: Option<i64> = match meta {
        Some(m) => match m.get("exit_code") {
            Some(v) => v.as_i64(),
            None => None,
        },
        None => None,
    };
    match exit_code {
        Some(code) => {
            let mut l = String::from_str("- exit_code: ");
            let t = i64_to_string(code);
            push_str(&mut l, t.as_str());
            lines.push(l);
        },
        None => {},
    }
    match meta {
        Some(m) => match m.get("duration_seconds") {
            Some(dur) => {
                let mut l = String::from_str("- duration_s: ");
                let t = one_line_value(dur, 40, 0);
                push_str(&mut l, t.as_str());
                lines.push(l);
            },
            None => {},
        },
        None => {},
    }
    let text = output_text_exec(&output, max_len);
    if should_include_medium_output(exit_code, text.as_str()) {
        let mut l = String::from_str("- output: ");
        push_str(&mut l, text.as_str());
        lines.push(l);
    }
    if lines.len() == 0 {
        lines.push(String::from_str("- output: (no data)"));
    }
    assert(views(lines@) =~= tool_output_section_lines(output@, opt_call(call), max_len as nat));
    let title = match call {
        Some(c) => tool_title_exec(c.name.as_str()),
        None => String::from_str("TOOL"),
    };
    let body = join_strings(&lines, "\n");
    Some(markdown_section(ts, title.as_str(), body.as_str()))
}

/// A metadata member on one line, or `none`.
fn sig_part_exec(output: &JsonValue, key: &str) -> (r: String)
    ensures
        r@ == sig_part(output@, key@),
{
    match output_meta_exec(output) {
        Some(m) => match m.get(key) {
            Some(v) => one_line_value(v, 20, 0),
            None => String::from_str("none"),
        },
        None => String::from_str("none"),
    }
}

/// What identifies a tool output, to skip repeats of the same output.
pub fn medium_tool_output_signature(payload: Option<&JsonValue>) -> (r: String)
    ensures
        r@ == output_signature_spec(opt_view(payload)),
{
    let output = match payload {
        Some(p) => parse_json_maybe(p.get("output")),
        None => JsonValue::Null,
    };
    let code = sig_part_exec(&output, "exit_code");
    let duration = sig_part_exec(&output, "duration_seconds");
    let body = output_text_exec(&output, 200);
    let mut out = code;
    push_str(&mut out, "|");
    push_str(&mut out, duration.as_str());
    push_str(&mut out, "|");
    push_str(&mut out, body.as_str());
    out
}

/// The summaries of a reasoning item, joined, to skip repeated reasoning.
pub fn medium_reasoning_key(payload: Option<&JsonValue>) -> (r: Option<String>)
    ensures
        opt_text(r) == reasoning_key_spec(opt_view(payload)),
{
    if !has_type_exec(payload, "reasoning") {
        return None;
    }
    let p = payload.unwrap();
    let summaries = extract_reasoning_summaries(p);
    if summaries.len() == 0 {
        return None;
    }
    Some(join_strings(&summaries, "\n\n"))
}

/// A user or assistant message in compact form.
pub fn render_compact_response_item(ts: &str, payload: Option<&JsonValue>, image_idx: &mut usize) -> (r:
    Option<String>)
    requires
        payload is Some ==> *old(image_idx) + content_items(jget(payload->0@, "content"@)).len()
            <= usize::MAX,
    ensures
        (opt_text(r), *final(image_idx) as nat) == compact_item_spec(
            ts@,
            opt_view(payload),
            *old(image_idx) as nat,
        ),
{
    if !has_type_exec(payload, "message") {
        return None;
    }
    let p = payload.unwrap();
    let role_raw = get_str_or(p, "role", "unknown");
    let is_user = text_eq(role_raw.as_str(), "user");
    let is_assistant = text_eq(role_raw.as_str(), "assistant");
    if !is_user && !is_assistant {
        return None;
    }
    let parts = message_parts(p.get("content"), image_idx, true);
    if parts.len() == 0 {
        return None;
    }
    if is_user && is_auto_system_status_message(&parts) {
        return None;
    }
    let role = if is_user {
        String::from_str("USER")
    } else {
        String::from_str("ASSISTANT")
    };
    let text = join_strings(&parts, "\n");
    Some(markdown_section(ts, role.as_str(), text.as_str()))
}

/// A response item in medium detail.
pub fn render_medium_response_item(
    ts: &str,
    payload: Option<&JsonValue>,
    image_idx: &mut usize,
    max_len: usize,
) -> (r: Option<String>)
    requires
        payload is Some ==> *old(image_idx) + content_items(jget(payload->0@, "content"@)).len()
            <= usize::MAX,
    ensures
        (opt_text(r), *final(image_idx) as nat) == medium_item_spec(
            ts@,
            opt_view(payload),
            *old(image_idx) as nat,
            max_len as nat,
        ),
{
    let p = match payload {
        Some(p) => p,
        None => {
            return None;
        },
    };
    let ptype = get_str_or(p, "type", "unknown");
    if text_eq(ptype.as_str(), "message") {
        return render_compact_response_item(ts, payload, image_idx);
    }
    if text_eq(ptype.as_str(), "function_call") {
        let name = get_str_or(p, "name", "unknown");
        let args = parse_json_maybe(p.get("arguments"));
        let mut title = String::from_str("TOOL_CALL `");
        let code = inline_code(name.as_str());
        push_str(&mut title, code.as_str());
        push_str(&mut title, "`");
        let mut body = String::from_str("- arguments: ");
        let a = one_line_value(&args, max_len, 0);
        push_str(&mut body, a.as_str());
        return Some(markdown_section(ts, title.as_str(), body.as_str()));
    }
    if text_eq(ptype.as_str(), "function_call_output") {
        proof {
            reveal_strlit("");
        }
        let id = get_str_or(p, "call_id", "");
        let output = parse_json_maybe(p.get("output"));
        let summary = summarize_tool_output(&output, max_len);
        let mut title = String::from_str("TOOL_OUTPUT `");
        let code = inline_code(id.as_str());
        push_str(&mut title, code.as_str());
        push_str(&mut title, "`");
        return Some(markdown_section(ts, title.as_str(), summary.as_str()));
    }
    if text_eq(ptype.as_str(), "reasoning") {
        let summaries = extract_reasoning_summaries(p);
        if summaries.len() == 0 {
            return None;
        }
        let mut quoted: Vec<String> = Vec::new();
        let mut i: usize = 0;
        while i < summaries.len()
            invariant
                i <= summaries@.len(),
                views(quoted@) == quoted_summaries(views(summaries@)).take(i as int),
            decreases summaries.len() - i,
        {
            let q = markdown_blockquote(summaries[i].as_str());
            let ghost old_q = quoted@;
            quoted.push(q);
            assert(views(quoted@) =~= views(old_q).push(q@));
            i = i + 1;
            assert(views(quoted@) =~= quoted_summaries(views(summaries@)).take(i as int));
        }
        assert(quoted_summaries(views(summaries@)).take(i as int) =~= quoted_summaries(
            views(summaries@),
        ));
        let body = join_strings(&quoted, "\n\n");
        return Some(markdown_section(ts, "REASONING", body.as_str()));
    }
    let mut title = String::from_str("RESPONSE_ITEM ");
    push_str(&mut title, ptype.as_str());
    let mut body = String::from_str("- payload: ");
    let a = one_line_value(p, max_len, 0);
    push_str(&mut body, a.as_str());
    Some(markdown_section(ts, title.as_str(), body.as_str()))
}

/// A value printed as a JSON block.
fn json_block_exec(value: &JsonValue) -> (r: String)
    ensures
        r@ == json_block(value@),
{
    let pretty = json_pretty(value);
    markdown_fence("json", pretty.as_str())
}

/// A record in full JSON detail.
pub fn render_full_item(
    ts: &str,
    otype: &str,
    payload: Option<&JsonValue>,
    image_idx: &mut usize,
) -> (r: Option<String>)
    requires
        payload is Some ==> *old(image_idx) + content_items(jget(payload->0@, "content"@)).len()
            <= usize::MAX,
    ensures
        (opt_text(r), *final(image_idx) as nat) == full_item_spec(
            ts@,
            otype@,
            opt_view(payload),
            *old(image_idx) as nat,
        ),
{
    let null = JsonValue::Null;
    let p_or_null: &JsonValue = match payload {
        Some(p) => p,
        None => &null,
    };
    if text_eq(otype, "session_meta") {
        let block = json_block_exec(p_or_null);
        return Some(markdown_section(ts, "SESSION_META", block.as_str()));
    }
    if text_eq(otype, "event") {
        let block = json_block_exec(p_or_null);
        return Some(markdown_section(ts, "EVENT", block.as_str()));
    }
    if text_eq(otype, "response_item") {
        let p = match payload {
            Some(p) => p,
            None => {
                return None;
            },
        };
        let ptype = get_str_or(p, "type", "unknown");
        if text_eq(ptype.as_str(), "message") {
            let role_raw = get_str_or(p, "role", "unknown");
            let role = to_uppercase_str(role_raw.as_str());
            let parts = message_parts(p.get("content"), image_idx, false);
            let body = if parts.len() == 0 {
                String::from_str("(empty message)")
            } else {
                join_strings(&parts, "\n")
            };
            return Some(markdown_section(ts, role.as_str(), body.as_str()));
        }
        if text_eq(ptype.as_str(), "function_call") {
            let name = get_str_or(p, "name", "unknown");
            let args = parse_json_maybe(p.get("arguments"));
            let mut title = String::from_str("TOOL_CALL `");
            let code = inline_code(name.as_str());
            push_str(&mut title, code.as_str());
            push_str(&mut title, "`");
            let block = json_block_exec(&args);
            return Some(markdown_section(ts, title.as_str(), block.as_str()));
        }
        if text_eq(ptype.as_str(), "function_call_output") {
            proof {
            reveal_strlit("");
        }
        let id = get_str_or(p, "call_id", "");
            let output = parse_json_maybe(p.get("output"));
            let mut title = String::from_str("TOOL_OUTPUT `");
            let code = inline_code(id.as_str());
            push_str(&mut title, code.as_str());
            push_str(&mut title, "`");
            let block = json_block_exec(&output);
            return Some(markdown_section(ts, title.as_str(), block.as_str()));
        }
        let mut title = String::from_str("RESPONSE_ITEM ");
        push_str(&mut title, ptype.as_str());
        let block = json_block_exec(p);
        return Some(markdown_section(ts, title.as_str(), block.as_str()));
    }
    if otype.is_empty() {
        return None;
    }
    let title = to_uppercase_str(otype);
    let block = json_block_exec(p_or_null);
    Some(markdown_section(ts, title.as_str(), block.as_str()))
}

} // verus!
