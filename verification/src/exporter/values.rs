//! One-line summaries of JSON values, event labels and reasoning summaries.
use vstd::prelude::*;

use crate::exporter::markdown::{collapse_ws, scrub_noise_lines, scrub_spec, shorten, shorten_spec};
use crate::json::{
    entry_views, jget, jget_str, json_pretty, json_views, parse_json, spec_json_pretty,
    spec_parse_json, Json, JsonValue,
};
use crate::text::{join, join_strings, push_str, trim, trim_str, views};

verus! {

broadcast use vstd::std_specs::vec::group_vec_axioms;

// ---------------------------------------------------------------------------
// Specifications
// ---------------------------------------------------------------------------

/// `true` or `false`.
pub open spec fn bool_text(b: bool) -> Seq<char> {
    if b {
        "true"@
    } else {
        "false"@
    }
}

/// The smaller of two integers.
pub open spec fn min_int(a: int, b: int) -> int {
    if a <= b {
        a
    } else {
        b
    }
}

/// A value on one line: strings cleaned and collapsed, at most six array items
/// and eight object members, nesting cut below depth three, all of it cut to
/// `max_len` chars.
pub open spec fn one_line(j: Json, max_len: nat, depth: int) -> Seq<char>
    decreases 4 - depth, 0int,
{
    if depth > 3 {
        "<depth-limit>"@
    } else {
        match j {
            Json::Null => "{}"@,
            Json::Bool(b) => bool_text(b),
            Json::Number(t, _) => t,
            Json::Str(s) => shorten_spec(crate::text::collapse_ws(scrub_spec(s)), max_len),
            Json::Array(items) => shorten_spec(
                "["@ + join(one_line_items(items, min_int(items.len() as int, 6), depth + 1), ", "@)
                    + "]"@,
                max_len,
            ),
            Json::Object(entries) => shorten_spec(
                join(one_line_entries(entries, min_int(entries.len() as int, 8), depth + 1), " "@),
                max_len,
            ),
        }
    }
}

/// The one-line forms of the first `n` items, each cut to 40 chars.
pub open spec fn one_line_items(items: Seq<Json>, n: int, depth: int) -> Seq<Seq<char>>
    decreases 4 - depth, n,
{
    if n <= 0 || n > items.len() {
        seq![]
    } else {
        one_line_items(items, n - 1, depth).push(one_line(items[n - 1], 40, depth))
    }
}

/// `key=value` for the first `n` members, each value cut to 60 chars.
pub open spec fn one_line_entries(entries: Seq<(Seq<char>, Json)>, n: int, depth: int) -> Seq<
    Seq<char>,
>
    decreases 4 - depth, n,
{
    if n <= 0 || n > entries.len() {
        seq![]
    } else {
        one_line_entries(entries, n - 1, depth).push(
            entries[n - 1].0 + "="@ + one_line(entries[n - 1].1, 60, depth),
        )
    }
}

/// A string as it is; any other value on one line, cut to 200 chars.
pub open spec fn value_string(j: Json) -> Seq<char> {
    match j {
        Json::Str(s) => s,
        _ => one_line(j, 200, 0),
    }
}

/// A string field that may hold JSON: its parsed value when it parses, else the
/// field itself; `null` when there is no field.
pub open spec fn json_maybe(o: Option<Json>) -> Json {
    match o {
        None => Json::Null,
        Some(Json::Str(s)) => match spec_parse_json(s) {
            Ok(v) => v,
            Err(_) => Json::Str(s),
        },
        Some(v) => v,
    }
}

/// The first of the keys `type`, `name`, `event` that holds a non-empty string.
pub open spec fn first_label(j: Json) -> Option<Seq<char>> {
    let t = jget_str(j, "type"@);
    let n = jget_str(j, "name"@);
    let e = jget_str(j, "event"@);
    if t is Some && t->0.len() > 0 {
        t
    } else if n is Some && n->0.len() > 0 {
        n
    } else if e is Some && e->0.len() > 0 {
        e
    } else {
        None
    }
}

/// An event's label: from its `msg` object first, then from the event itself.
pub open spec fn event_label_spec(payload: Json) -> Seq<char> {
    if !(payload is Object) {
        Seq::empty()
    } else {
        let msg = jget(payload, "msg"@);
        let from_msg = if msg is Some && msg->0 is Object {
            first_label(msg->0)
        } else {
            None
        };
        if from_msg is Some {
            from_msg->0
        } else {
            match first_label(payload) {
                Some(l) => l,
                None => Seq::empty(),
            }
        }
    }
}

/// The entries of a `summary` field: its items when it is an array, else itself.
pub open spec fn summary_entries(summary: Option<Json>) -> Seq<Json> {
    match summary {
        Some(Json::Array(items)) => items,
        Some(v) => seq![v],
        None => seq![],
    }
}

/// The trimmed, non-empty `text` fields of the first `n` entries.
pub open spec fn summary_texts(entries: Seq<Json>, n: int) -> Seq<Seq<char>>
    decreases n,
{
    if n <= 0 || n > entries.len() {
        seq![]
    } else {
        let prev = summary_texts(entries, n - 1);
        match jget_str(entries[n - 1], "text"@) {
            Some(t) => if trim(t).len() > 0 {
                prev.push(trim(t))
            } else {
                prev
            },
            None => prev,
        }
    }
}

/// The texts of a reasoning item's summary.
pub open spec fn reasoning_summaries(payload: Json) -> Seq<Seq<char>> {
    let entries = summary_entries(jget(payload, "summary"@));
    summary_texts(entries, entries.len() as int)
}

/// The lines that summarize a tool's output.
pub open spec fn tool_output_lines(j: Json, max_len: nat) -> Seq<Seq<char>> {
    let meta = jget(j, "metadata"@);
    let meta_obj = meta is Some && meta->0 is Object;
    let code = if meta_obj {
        jget(meta->0, "exit_code"@)
    } else {
        None
    };
    let dur = if meta_obj {
        jget(meta->0, "duration_seconds"@)
    } else {
        None
    };
    let out = jget(j, "output"@);
    let l1: Seq<Seq<char>> = match code {
        Some(c) => seq!["- exit_code: "@ + one_line(c, 40, 0)],
        None => seq![],
    };
    let l2: Seq<Seq<char>> = match dur {
        Some(d) => seq!["- duration_s: "@ + one_line(d, 40, 0)],
        None => seq![],
    };
    let l3: Seq<Seq<char>> = match out {
        Some(o) => seq!["- output: "@ + one_line(o, max_len, 0)],
        None => seq![],
    };
    let all = l1 + l2 + l3;
    if all.len() == 0 {
        seq!["- output: "@ + one_line(j, max_len, 0)]
    } else {
        all
    }
}

/// A tool's output summarized line by line.
pub open spec fn tool_output_summary(j: Json, max_len: nat) -> Seq<char> {
    join(tool_output_lines(j, max_len), "\n"@)
}

// ---------------------------------------------------------------------------
// Lemmas
// ---------------------------------------------------------------------------

proof fn lemma_one_line_items_len(items: Seq<Json>, n: int, depth: int)
    requires
        0 <= n <= items.len(),
    ensures
        one_line_items(items, n, depth).len() == n,
    decreases n,
{
    if n > 0 {
        lemma_one_line_items_len(items, n - 1, depth);
    }
}

// ---------------------------------------------------------------------------
// Executable functions
// ---------------------------------------------------------------------------

/// `value.get(key).and_then(Value::as_str)`.
pub fn get_str<'a>(value: &'a JsonValue, key: &str) -> (r: Option<&'a str>)
    ensures
        match r {
            Some(s) => jget_str(value@, key@) == Some(s@),
            None => jget_str(value@, key@) is None,
        },
{
    match value.get(key) {
        Some(v) => v.as_str(),
        None => None,
    }
}

/// A value on one line, at most `max_len` chars.
pub fn one_line_value(value: &JsonValue, max_len: usize, depth: usize) -> (r: String)
    ensures
        r@ == one_line(value@, max_len as nat, depth as int),
    decreases 4 - depth,
{
    if depth > 3 {
        return String::from_str("<depth-limit>");
    }
    match value {
        JsonValue::Null => String::from_str("{}"),
        JsonValue::Bool(b) => {
            if *b {
                String::from_str("true")
            } else {
                String::from_str("false")
            }
        },
        JsonValue::Number(t, _) => t.clone(),
        JsonValue::Str(s) => {
            let scrubbed = scrub_noise_lines(s.as_str());
            let collapsed = collapse_ws(scrubbed.as_str());
            shorten(collapsed.as_str(), max_len)
        },
        JsonValue::Array(items) => {
            proof {
                crate::json::lemma_array_view(*items);
            }
            let ghost js = json_views(items@);
            let n = if items.len() < 6 {
                items.len()
            } else {
                6
            };
            let mut parts: Vec<String> = Vec::new();
            let mut i: usize = 0;
            while i < n
                invariant
                    js == json_views(items@),
                    n <= items@.len(),
                    n == min_int(items@.len() as int, 6),
                    i <= n,
                    depth <= 3,
                    views(parts@) == one_line_items(js, i as int, depth + 1),
                decreases n - i,
            {
                let p = one_line_value(&items[i], 40, depth + 1);
                let ghost old_p = parts@;
                parts.push(p);
                assert(views(parts@) =~= views(old_p).push(p@));
                i = i + 1;
            }
            let mut text = String::from_str("[");
            let joined = join_strings(&parts, ", ");
            push_str(&mut text, joined.as_str());
            push_str(&mut text, "]");
            shorten(text.as_str(), max_len)
        },
        JsonValue::Object(entries) => {
            proof {
                crate::json::lemma_object_view(*entries);
            }
            let ghost es = entry_views(entries@);
            let n = if entries.len() < 8 {
                entries.len()
            } else {
                8
            };
            let mut parts: Vec<String> = Vec::new();
            let mut i: usize = 0;
            while i < n
                invariant
                    es == entry_views(entries@),
                    n <= entries@.len(),
                    n == min_int(entries@.len() as int, 8),
                    i <= n,
                    depth <= 3,
                    views(parts@) == one_line_entries(es, i as int, depth + 1),
                decreases n - i,
            {
                let v = one_line_value(&entries[i].1, 60, depth + 1);
                let mut p = entries[i].0.clone();
                push_str(&mut p, "=");
                push_str(&mut p, v.as_str());
                let ghost old_p = parts@;
                parts.push(p);
                assert(views(parts@) =~= views(old_p).push(p@));
                i = i + 1;
            }
            let joined = join_strings(&parts, " ");
            shorten(joined.as_str(), max_len)
        },
    }
}

/// A string value as it is, any other value on one line.
pub fn value_as_string(value: &JsonValue) -> (r: String)
    ensures
        r@ == value_string(value@),
{
    match value {
        JsonValue::Str(s) => s.clone(),
        _ => one_line_value(value, 200, 0),
    }
}

/// The parsed value of a string field that holds JSON, else the field itself.
pub fn parse_json_maybe(value: Option<&JsonValue>) -> (r: JsonValue)
    ensures
        r@ == json_maybe(
            match value {
                Some(v) => Some(v@),
                None => None,
            },
        ),
{
    match value {
        None => JsonValue::Null,
        Some(v) => match v {
            JsonValue::Str(s) => match parse_json(s.as_str()) {
                Ok(parsed) => parsed,
                Err(_) => JsonValue::Str(s.clone()),
            },
            _ => v.deep_clone(),
        },
    }
}

/// The value printed as pretty JSON.
pub fn safe_json(value: &JsonValue) -> (r: String)
    ensures
        r@ == spec_json_pretty(value@),
{
    json_pretty(value)
}

/// A tool's output: exit code, duration and output text, or the whole value.
pub fn summarize_tool_output(value: &JsonValue, max_len: usize) -> (r: String)
    ensures
        r@ == tool_output_summary(value@, max_len as nat),
{
    let mut lines: Vec<String> = Vec::new();
    let meta = value.get("metadata");
    let meta_obj = match meta {
        Some(m) => m.is_object(),
        None => false,
    };
    if meta_obj {
        let m = meta.unwrap();
        match m.get("exit_code") {
            Some(code) => {
                let mut l = String::from_str("- exit_code: ");
                let t = one_line_value(code, 40, 0);
                push_str(&mut l, t.as_str());
                lines.push(l);
            },
            None => {},
        }
        match m.get("duration_seconds") {
            Some(dur) => {
                let mut l = String::from_str("- duration_s: ");
                let t = one_line_value(dur, 40, 0);
                push_str(&mut l, t.as_str());
                lines.push(l);
            },
            None => {},
        }
    }
    match value.get("output") {
        Some(out) => {
            let mut l = String::from_str("- output: ");
            let t = one_line_value(out, max_len, 0);
            push_str(&mut l, t.as_str());
            lines.push(l);
        },
        None => {},
    }
    if lines.len() == 0 {
        let mut l = String::from_str("- output: ");
        let t = one_line_value(value, max_len, 0);
        push_str(&mut l, t.as_str());
        lines.push(l);
    }
    assert(views(lines@) =~= tool_output_lines(value@, max_len as nat));
    join_strings(&lines, "\n")
}

/// The first of `type`, `name`, `event` that holds a non-empty string.
fn first_label_exec(value: &JsonValue) -> (r: Option<String>)
    ensures
        match r {
            Some(s) => first_label(value@) == Some(s@),
            None => first_label(value@) is None,
        },
{
    match get_str(value, "type") {
        Some(v) => if !v.is_empty() {
            return Some(String::from_str(v));
        },
        None => {},
    }
    match get_str(value, "name") {
        Some(v) => if !v.is_empty() {
            return Some(String::from_str(v));
        },
        None => {},
    }
    match get_str(value, "event") {
        Some(v) => if !v.is_empty() {
            return Some(String::from_str(v));
        },
        None => {},
    }
    None
}

/// An event's label: the kind of its message, or of the event itself.
pub fn event_label(payload: &JsonValue) -> (r: String)
    ensures
        r@ == event_label_spec(payload@),
{
    if !payload.is_object() {
        return String::new();
    }
    match payload.get("msg") {
        Some(msg) => if msg.is_object() {
            match first_label_exec(msg) {
                Some(l) => {
                    return l;
                },
                None => {},
            }
        },
        None => {},
    }
    match first_label_exec(payload) {
        Some(l) => l,
        None => String::new(),
    }
}

/// The trimmed, non-empty texts of a reasoning item's summary.
pub fn extract_reasoning_summaries(payload: &JsonValue) -> (r: Vec<String>)
    ensures
        views(r@) == reasoning_summaries(payload@),
{
    let summary = payload.get("summary");
    let ghost entries = summary_entries(
        match summary {
            Some(v) => Some(v@),
            None => None,
        },
    );
    let mut out: Vec<String> = Vec::new();
    match summary {
        None => {
            assert(views(out@) =~= reasoning_summaries(payload@));
            out
        },
        Some(s) => match s.as_array() {
            Some(items) => {
                let mut i: usize = 0;
                while i < items.len()
                    invariant
                        entries == json_views(items@),
                        i <= items@.len(),
                        views(out@) == summary_texts(entries, i as int),
                    decreases items.len() - i,
                {
                    match get_str(&items[i], "text") {
                        Some(t) => {
                            let c = trim_str(t);
                            if !c.as_str().is_empty() {
                                let ghost old_o = out@;
                                out.push(c);
                                assert(views(out@) =~= views(old_o).push(c@));
                            }
                        },
                        None => {},
                    }
                    i = i + 1;
                }
                out
            },
            None => {
                assert(entries =~= seq![s@]);
                assert(summary_texts(entries, 0) == Seq::<Seq<char>>::empty());
                assert(entries[0] == s@);
                match get_str(s, "text") {
                    Some(t) => {
                        let c = trim_str(t);
                        if !c.as_str().is_empty() {
                            out.push(c);
                        }
                    },
                    None => {},
                }
                assert(views(out@) =~= summary_texts(entries, 1));
                out
            },
        },
    }
}

} // verus!
