//! The assistant's outputs in a rollout, newest last, for copying one of them.
use vstd::prelude::*;

use crate::exporter::items::content_items;
use crate::json::{jget, jget_str, parse_json, spec_parse_json, text_eq, Json, JsonValue};
use crate::text::{join, join_strings, trim, trim_str, views};

verus! {

broadcast use vstd::std_specs::vec::group_vec_axioms;

/// Whether a content part is an output text.
pub open spec fn is_output_text(item: Json) -> bool {
    jget_str(item, "type"@) == Some("output_text"@)
}

/// The texts of the output-text parts among `items`, in order.
pub open spec fn output_texts(items: Seq<Json>) -> Seq<Seq<char>>
    decreases items.len(),
{
    if items.len() == 0 {
        seq![]
    } else {
        let prev = output_texts(items.drop_last());
        if is_output_text(items.last()) {
            match jget_str(items.last(), "text"@) {
                Some(t) => prev.push(t),
                None => prev,
            }
        } else {
            prev
        }
    }
}

/// Whether a record is a message of the assistant.
pub open spec fn is_assistant_message(rec: Json) -> bool {
    &&& jget_str(rec, "type"@) == Some("response_item"@)
    &&& jget(rec, "payload"@) matches Some(p) && jget_str(p, "type"@) == Some("message"@)
        && jget_str(p, "role"@) == Some("assistant"@)
}

/// The text of an assistant message: its output texts, a blank line between
/// them; nothing for other records and for a message with only whitespace.
pub open spec fn assistant_text(rec: Json) -> Option<Seq<char>> {
    if is_assistant_message(rec) {
        let t = join(output_texts(content_items(jget(jget(rec, "payload"@).unwrap(), "content"@))), "\n\n"@);
        if trim(t).len() > 0 {
            Some(t)
        } else {
            None
        }
    } else {
        None
    }
}

/// The assistant's outputs in the lines of a rollout, in order; lines that
/// do not parse are passed over.
pub open spec fn assistant_outputs(lines: Seq<Seq<char>>) -> Seq<Seq<char>>
    decreases lines.len(),
{
    if lines.len() == 0 {
        seq![]
    } else {
        let prev = assistant_outputs(lines.drop_last());
        match spec_parse_json(lines.last()) {
            Ok(rec) => match assistant_text(rec) {
                Some(t) => prev.push(t),
                None => prev,
            },
            Err(_) => prev,
        }
    }
}

/// The `n`-th output from the end (the last one for 1), if there are that many.
pub open spec fn nth_last(outputs: Seq<Seq<char>>, n: nat) -> Option<Seq<char>> {
    if 1 <= n <= outputs.len() {
        Some(outputs[outputs.len() - n])
    } else {
        None
    }
}

/// The texts of the output-text parts of a message's content.
fn output_texts_exec(items: &Vec<JsonValue>) -> (r: Vec<String>)
    ensures
        views(r@) == output_texts(crate::json::json_views(items@)),
{
    let ghost js = crate::json::json_views(items@);
    let mut out: Vec<String> = Vec::new();
    let mut i: usize = 0;
    while i < items.len()
        invariant
            i <= items@.len(),
            js == crate::json::json_views(items@),
            views(out@) == output_texts(js.take(i as int)),
        decreases items.len() - i,
    {
        let ghost before = out@;
        assert(js.take(i as int + 1).drop_last() =~= js.take(i as int));
        assert(js.take(i as int + 1).last() == items@[i as int]@);
        let item = &items[i];
        let is_text = match item.get("type") {
            Some(v) => match v.as_str() {
                Some(t) => text_eq(t, "output_text"),
                None => false,
            },
            None => false,
        };
        if is_text {
            match item.get("text") {
                Some(v) => match v.as_str() {
                    Some(t) => {
                        out.push(String::from_str(t));
                        assert(views(out@) =~= views(before).push(t@));
                    },
                    None => {},
                },
                None => {},
            }
        }
        i = i + 1;
    }
    assert(js.take(items@.len() as int) =~= js);
    out
}

/// The text of a record when it is an assistant message (see `assistant_text`).
pub fn assistant_message_text(rec: &JsonValue) -> (r: Option<String>)
    ensures
        crate::patterns::opt_string(r) == assistant_text(rec@),
{
    let is_item = match rec.get("type") {
        Some(v) => match v.as_str() {
            Some(t) => text_eq(t, "response_item"),
            None => false,
        },
        None => false,
    };
    if !is_item {
        return None;
    }
    let p = match rec.get("payload") {
        Some(p) => p,
        None => {
            return None;
        },
    };
    let is_message = match p.get("type") {
        Some(v) => match v.as_str() {
            Some(t) => text_eq(t, "message"),
            None => false,
        },
        None => false,
    };
    let is_assistant = match p.get("role") {
        Some(v) => match v.as_str() {
            Some(t) => text_eq(t, "assistant"),
            None => false,
        },
        None => false,
    };
    if !(is_message && is_assistant) {
        return None;
    }
    let texts = match p.get("content") {
        Some(c) => match c.as_array() {
            Some(items) => output_texts_exec(items),
            None => Vec::new(),
        },
        None => Vec::new(),
    };
    assert(views(texts@) == output_texts(content_items(jget(p@, "content"@)))) by {
        if views(texts@).len() == 0 {
            assert(output_texts(seq![]) == Seq::<Seq<char>>::empty());
        }
    }
    let t = join_strings(&texts, "\n\n");
    let trimmed = trim_str(t.as_str());
    if trimmed.as_str().is_empty() {
        None
    } else {
        Some(t)
    }
}

/// The `n`-th assistant output from the end of a rollout's lines (the last
/// one for 1); nothing when the rollout holds fewer, or for 0.
pub fn nth_last_assistant_output(lines: &Vec<String>, n: usize) -> (r: Option<String>)
    ensures
        crate::patterns::opt_string(r) == nth_last(assistant_outputs(views(lines@)), n as nat),
{
    let ghost ls = views(lines@);
    let mut outs: Vec<String> = Vec::new();
    let mut i: usize = 0;
    while i < lines.len()
        invariant
            i <= lines@.len(),
            ls == views(lines@),
            views(outs@) == assistant_outputs(ls.take(i as int)),
        decreases lines.len() - i,
    {
        let ghost before = outs@;
        assert(ls.take(i as int + 1).drop_last() =~= ls.take(i as int));
        assert(ls.take(i as int + 1).last() == lines@[i as int]@);
        match parse_json(lines[i].as_str()) {
            Ok(rec) => match assistant_message_text(&rec) {
                Some(t) => {
                    let ghost tv = t@;
                    outs.push(t);
                    assert(views(outs@) =~= views(before).push(tv));
                },
                None => {},
            },
            Err(_) => {},
        }
        i = i + 1;
    }
    assert(ls.take(lines@.len() as int) =~= ls);
    if n >= 1 && n <= outs.len() {
        let k = outs.len() - n;
        Some(outs[k].clone())
    } else {
        None
    }
}

} // verus!
