//! Details of events in medium transcripts.
use vstd::prelude::*;

use crate::exporter::records::get_str_or;
use crate::exporter::values::{get_str, one_line, one_line_value};
use crate::json::{jget, jget_str, jget_str_or, text_eq, Json, JsonValue};
use crate::text::{join, join_strings, push_str, views};

verus! {

// ---------------------------------------------------------------------------
// Specifications
// ---------------------------------------------------------------------------

/// A member when it is an object.
pub open spec fn object_member(j: Json, key: Seq<char>) -> Option<Json> {
    match jget(j, key) {
        Some(v) => if v is Object {
            Some(v)
        } else {
            None
        },
        None => None,
    }
}

/// `key=value` when the member is a non-empty string.
pub open spec fn labeled(j: Option<Json>, key: Seq<char>) -> Seq<Seq<char>> {
    match j {
        Some(v) => match jget_str(v, key) {
            Some(s) => if s.len() > 0 {
                seq![key + "="@ + s]
            } else {
                seq![]
            },
            None => seq![],
        },
        None => seq![],
    }
}

/// The result of a tool call: its structured content when it succeeded with one.
pub open spec fn compact_result(result: Json) -> Json {
    match object_member(result, "Ok"@) {
        Some(ok) => match jget(ok, "structuredContent"@) {
            Some(c) => c,
            None => result,
        },
        None => result,
    }
}

/// The detail lines of an MCP tool call event.
pub open spec fn mcp_parts(msg: Json, max_len: nat, duration_text: Seq<char>, is_end: bool) -> Seq<
    Seq<char>,
> {
    let inv = object_member(msg, "invocation"@);
    let header = labeled(Some(msg), "call_id"@) + labeled(inv, "server"@) + labeled(inv, "tool"@);
    let args: Seq<Seq<char>> = match inv {
        Some(i) => match jget(i, "arguments"@) {
            Some(a) => if a is Null {
                seq![]
            } else {
                seq!["arguments="@ + one_line(a, max_len, 0)]
            },
            None => seq![],
        },
        None => seq![],
    };
    let head: Seq<Seq<char>> = if header.len() > 0 {
        seq![join(header, " "@)]
    } else {
        seq![]
    };
    let dur: Seq<Seq<char>> = if is_end && object_member(msg, "duration"@) is Some {
        seq!["duration_s="@ + duration_text]
    } else {
        seq![]
    };
    let res: Seq<Seq<char>> = if is_end {
        match jget(msg, "result"@) {
            Some(r) => {
                let c = compact_result(r);
                if c is Null {
                    seq![]
                } else {
                    seq!["result="@ + one_line(c, max_len, 0)]
                }
            },
            None => seq![],
        }
    } else {
        seq![]
    };
    head + args + dur + res
}

/// An event's details on one line; MCP tool calls by call, server, tool,
/// arguments, and at their end duration and result.
pub open spec fn event_details_spec(payload: Json, max_len: nat, duration_text: Seq<char>) -> Seq<
    char,
> {
    if !(payload is Object) {
        one_line(payload, max_len, 0)
    } else {
        match object_member(payload, "msg"@) {
            Some(msg) => {
                let mtype = jget_str_or(msg, "type"@, Seq::empty());
                if mtype == "mcp_tool_call_begin"@ || mtype == "mcp_tool_call_end"@ {
                    let parts = mcp_parts(msg, max_len, duration_text, mtype == "mcp_tool_call_end"@);
                    if parts.len() > 0 {
                        join(parts, "\n"@)
                    } else {
                        one_line(msg, max_len, 0)
                    }
                } else {
                    one_line(msg, max_len, 0)
                }
            },
            None => one_line(payload, max_len, 0),
        }
    }
}

/// The duration object that an event's details show, if any.
pub open spec fn event_duration_spec(payload: Json) -> Option<Json> {
    if !(payload is Object) {
        None
    } else {
        match object_member(payload, "msg"@) {
            Some(msg) => if jget_str(msg, "type"@) == Some("mcp_tool_call_end"@) {
                object_member(msg, "duration"@)
            } else {
                None
            },
            None => None,
        }
    }
}

// ---------------------------------------------------------------------------
// Executable functions
// ---------------------------------------------------------------------------

/// A member when it is an object.
pub fn object_member_exec<'a>(j: &'a JsonValue, key: &str) -> (r: Option<&'a JsonValue>)
    ensures
        match r {
            Some(v) => object_member(j@, key@) == Some(v@),
            None => object_member(j@, key@) is None,
        },
{
    match j.get(key) {
        Some(v) => if v.is_object() {
            Some(v)
        } else {
            None
        },
        None => None,
    }
}

/// Appends `key=value` when the member is a non-empty string.
fn push_labeled(out: &mut Vec<String>, j: Option<&JsonValue>, key: &str)
    ensures
        views(final(out)@) == views(old(out)@) + labeled(
            match j {
                Some(v) => Some(v@),
                None => None,
            },
            key@,
        ),
{
    match j {
        Some(v) => match get_str(v, key) {
            Some(s) => if !s.is_empty() {
                let mut l = String::from_str(key);
                push_str(&mut l, "=");
                push_str(&mut l, s);
                let ghost old_o = out@;
                out.push(l);
                assert(views(out@) =~= views(old_o).push(l@));
                return ;
            },
            None => {},
        },
        None => {},
    }
    assert(views(out@) =~= views(old(out)@) + Seq::<Seq<char>>::empty());
}

/// The duration object that an event's details show, to be printed in seconds.
pub fn event_duration(payload: &JsonValue) -> (r: Option<&JsonValue>)
    ensures
        match r {
            Some(d) => event_duration_spec(payload@) == Some(d@),
            None => event_duration_spec(payload@) is None,
        },
{
    if !payload.is_object() {
        return None;
    }
    match object_member_exec(payload, "msg") {
        Some(msg) => match get_str(msg, "type") {
            Some(t) => if text_eq(t, "mcp_tool_call_end") {
                object_member_exec(msg, "duration")
            } else {
                None
            },
            None => None,
        },
        None => None,
    }
}

/// An event's details; `duration_text` is the event's duration in seconds with
/// three decimals, shown at the end of an MCP tool call.
pub fn format_medium_event(payload: &JsonValue, max_len: usize, duration_text: &str) -> (r: String)
    ensures
        r@ == event_details_spec(payload@, max_len as nat, duration_text@),
{
    if !payload.is_object() {
        return one_line_value(payload, max_len, 0);
    }
    let msg = match object_member_exec(payload, "msg") {
        Some(m) => m,
        None => {
            return one_line_value(payload, max_len, 0);
        },
    };
    proof {
        reveal_strlit("");
        assert(""@ =~= Seq::<char>::empty());
    }
    let mtype = get_str_or(msg, "type", "");
    let is_begin = text_eq(mtype.as_str(), "mcp_tool_call_begin");
    let is_end = text_eq(mtype.as_str(), "mcp_tool_call_end");
    if !is_begin && !is_end {
        return one_line_value(msg, max_len, 0);
    }
    let invocation = object_member_exec(msg, "invocation");
    let mut header: Vec<String> = Vec::new();
    push_labeled(&mut header, Some(msg), "call_id");
    push_labeled(&mut header, invocation, "server");
    push_labeled(&mut header, invocation, "tool");
    let mut parts: Vec<String> = Vec::new();
    if header.len() > 0 {
        parts.push(join_strings(&header, " "));
    }
    match invocation {
        Some(inv) => match inv.get("arguments") {
            Some(a) => if !a.is_null() {
                let mut l = String::from_str("arguments=");
                let t = one_line_value(a, max_len, 0);
                push_str(&mut l, t.as_str());
                parts.push(l);
            },
            None => {},
        },
        None => {},
    }
    if is_end {
        match object_member_exec(msg, "duration") {
            Some(_) => {
                let mut l = String::from_str("duration_s=");
                push_str(&mut l, duration_text);
                parts.push(l);
            },
            None => {},
        }
        match msg.get("result") {
            Some(result) => {
                let compact: &JsonValue = match object_member_exec(result, "Ok") {
                    Some(ok) => match ok.get("structuredContent") {
                        Some(c) => c,
                        None => result,
                    },
                    None => result,
                };
                if !compact.is_null() {
                    let mut l = String::from_str("result=");
                    let t = one_line_value(compact, max_len, 0);
                    push_str(&mut l, t.as_str());
                    parts.push(l);
                }
            },
            None => {},
        }
    }
    assert(views(parts@) =~= mcp_parts(msg@, max_len as nat, duration_text@, is_end));
    if parts.len() > 0 {
        return join_strings(&parts, "\n");
    }
    one_line_value(msg, max_len, 0)
}

} // verus!
