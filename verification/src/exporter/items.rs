//! Rendering of single rollout items: messages, tool calls, tool outputs, events.
use vstd::prelude::*;

use crate::exporter::markdown::{
    escape_heading_lines, escape_headings_spec, fence_spec, inline_code, inline_code_spec,
    markdown_fence, scrub_noise_lines, scrub_spec,
};
use crate::exporter::values::get_str;
use crate::json::{jget, jget_str, jget_str_or, jstr, json_pretty, json_views, spec_json_pretty, text_eq, Json, JsonValue};
use crate::text::{
    contains, join, join_strings, push_str, split_char, split_char_str,
    starts_with, starts_with_str, trim, trim_str, views, zero_padded, zero_padded_string,
};

verus! {

broadcast use vstd::std_specs::vec::group_vec_axioms;

// ---------------------------------------------------------------------------
// Image names and message parts
// ---------------------------------------------------------------------------

/// The first of the keys `name`, `filename`, `file_name`, `path` that holds a
/// non-empty string.
pub open spec fn image_name_key(item: Json) -> Option<Seq<char>> {
    let a = jget_str(item, "name"@);
    let b = jget_str(item, "filename"@);
    let c = jget_str(item, "file_name"@);
    let d = jget_str(item, "path"@);
    if a is Some && a->0.len() > 0 {
        a
    } else if b is Some && b->0.len() > 0 {
        b
    } else if c is Some && c->0.len() > 0 {
        c
    } else if d is Some && d->0.len() > 0 {
        d
    } else {
        None
    }
}

/// The URL of an image item: `image_url` as a string, or its `url` member.
pub open spec fn image_url_text(item: Json) -> Seq<char> {
    match jget(item, "image_url"@) {
        Some(Json::Str(s)) => s,
        Some(Json::Object(e)) => jget_str_or(Json::Object(e), "url"@, Seq::empty()),
        _ => Seq::empty(),
    }
}

/// The last path segment of a URL without its query, when that is non-empty.
pub open spec fn url_base(url: Seq<char>) -> Option<Seq<char>> {
    if url.len() == 0 || starts_with(url, "data:"@) {
        None
    } else {
        let without_query = split_char(url, '?')[0];
        let segs = split_char(without_query, '/');
        let base = segs[segs.len() - 1];
        if base.len() > 0 {
            Some(base)
        } else {
            None
        }
    }
}

/// The name shown for the `idx`-th image of a transcript.
pub open spec fn image_name_spec(item: Json, idx: nat) -> Seq<char> {
    match image_name_key(item) {
        Some(n) => n,
        None => match url_base(image_url_text(item)) {
            Some(b) => b,
            None => "image_"@ + zero_padded(idx, 3),
        },
    }
}

/// The text parts of the first `n` content items, and the image count after them.
pub open spec fn parts_from(items: Seq<Json>, n: int, idx0: nat, scrub: bool) -> (
    Seq<Seq<char>>,
    nat,
)
    decreases n,
{
    if n <= 0 || n > items.len() {
        (seq![], idx0)
    } else {
        let (prev, idx) = parts_from(items, n - 1, idx0, scrub);
        let item = items[n - 1];
        match jget_str(item, "type"@) {
            None => (prev, idx),
            Some(t) => if t == "input_text"@ || t == "output_text"@ {
                match jget_str(item, "text"@) {
                    Some(text) => {
                        let cleaned = if scrub {
                            scrub_spec(text)
                        } else {
                            text
                        };
                        if trim(cleaned).len() > 0 {
                            (prev.push(escape_headings_spec(cleaned)), idx)
                        } else {
                            (prev, idx)
                        }
                    },
                    None => (prev, idx),
                }
            } else if t == "input_image"@ {
                (prev.push(image_name_spec(item, idx + 1)), idx + 1)
            } else {
                (prev.push(spec_json_pretty(item)), idx)
            },
        }
    }
}

/// The items of a message's content, when it is an array.
pub open spec fn content_items(content: Option<Json>) -> Seq<Json> {
    match content {
        Some(Json::Array(items)) => items,
        _ => seq![],
    }
}

/// The text parts of a message's content, and the image count after them.
pub open spec fn message_parts_spec(content: Option<Json>, idx0: nat, scrub: bool) -> (
    Seq<Seq<char>>,
    nat,
) {
    let items = content_items(content);
    parts_from(items, items.len() as int, idx0, scrub)
}

proof fn lemma_parts_from_count(items: Seq<Json>, n: int, idx0: nat, scrub: bool)
    ensures
        idx0 <= parts_from(items, n, idx0, scrub).1 <= idx0 + (if n < 0 {
            0
        } else {
            n
        }),
    decreases n,
{
    if n > 0 && n <= items.len() {
        lemma_parts_from_count(items, n - 1, idx0, scrub);
    }
}

/// Lifts an optional reference to its view.
pub open spec fn opt_view(o: Option<&JsonValue>) -> Option<Json> {
    match o {
        Some(v) => Some(v@),
        None => None,
    }
}

/// The name shown for an image: its own name, the last segment of its URL, or
/// `image_` and its number.
pub fn image_name(item: &JsonValue, idx: usize) -> (r: String)
    ensures
        r@ == image_name_spec(item@, idx as nat),
{
    match get_str(item, "name") {
        Some(v) => if !v.is_empty() {
            return String::from_str(v);
        },
        None => {},
    }
    match get_str(item, "filename") {
        Some(v) => if !v.is_empty() {
            return String::from_str(v);
        },
        None => {},
    }
    match get_str(item, "file_name") {
        Some(v) => if !v.is_empty() {
            return String::from_str(v);
        },
        None => {},
    }
    match get_str(item, "path") {
        Some(v) => if !v.is_empty() {
            return String::from_str(v);
        },
        None => {},
    }
    let url_text: String = match item.get("image_url") {
        Some(u) => match u {
            JsonValue::Str(s) => s.clone(),
            JsonValue::Object(_) => match get_str(u, "url") {
                Some(x) => String::from_str(x),
                None => String::new(),
            },
            _ => String::new(),
        },
        None => String::new(),
    };
    assert(url_text@ == image_url_text(item@));
    if !url_text.as_str().is_empty() && !starts_with_str(url_text.as_str(), "data:") {
        let pieces = split_char_str(url_text.as_str(), '?');
        proof {
            crate::text::lemma_split_char_nonempty(url_text@, '?');
        }
        let without_query = pieces[0].clone();
        let segs = split_char_str(without_query.as_str(), '/');
        proof {
            crate::text::lemma_split_char_nonempty(without_query@, '/');
        }
        let base = segs[segs.len() - 1].clone();
        if !base.as_str().is_empty() {
            return base;
        }
    }
    let mut out = String::from_str("image_");
    let num = zero_padded_string(idx as u64, 3);
    push_str(&mut out, num.as_str());
    out
}

/// The text parts of a message's content; counts its images on `image_idx`.
pub fn message_parts(content: Option<&JsonValue>, image_idx: &mut usize, scrub_noise: bool) -> (r:
    Vec<String>)
    requires
        *old(image_idx) + content_items(opt_view(content)).len() <= usize::MAX,
    ensures
        (views(r@), *final(image_idx) as nat) == message_parts_spec(
            opt_view(content),
            *old(image_idx) as nat,
            scrub_noise,
        ),
{
    let mut parts: Vec<String> = Vec::new();
    let items = match content {
        Some(c) => match c.as_array() {
            Some(items) => items,
            None => {
                return parts;
            },
        },
        None => {
            return parts;
        },
    };
    let ghost js = json_views(items@);
    assert(content_items(opt_view(content)) == js);
    let ghost idx0 = *image_idx as nat;
    let mut i: usize = 0;
    while i < items.len()
        invariant
            js == json_views(items@),
            idx0 + js.len() <= usize::MAX,
            i <= items@.len(),
            (views(parts@), *image_idx as nat) == parts_from(js, i as int, idx0, scrub_noise),
        decreases items.len() - i,
    {
        proof {
            lemma_parts_from_count(js, i as int, idx0, scrub_noise);
        }
        let item = &items[i];
        let ghost old_parts = parts@;
        match get_str(item, "type") {
            None => {},
            Some(itype) => {
                if text_eq(itype, "input_text") || text_eq(itype, "output_text") {
                    match get_str(item, "text") {
                        Some(text) => {
                            let cleaned = if scrub_noise {
                                scrub_noise_lines(text)
                            } else {
                                String::from_str(text)
                            };
                            let t = trim_str(cleaned.as_str());
                            if !t.as_str().is_empty() {
                                let e = escape_heading_lines(cleaned.as_str());
                                parts.push(e);
                                assert(views(parts@) =~= views(old_parts).push(e@));
                            }
                        },
                        None => {},
                    }
                } else if text_eq(itype, "input_image") {
                    *image_idx = *image_idx + 1;
                    let n = image_name(item, *image_idx);
                    parts.push(n);
                    assert(views(parts@) =~= views(old_parts).push(n@));
                } else {
                    let p = json_pretty(item);
                    parts.push(p);
                    assert(views(parts@) =~= views(old_parts).push(p@));
                }
            },
        }
        i = i + 1;
    }
    parts
}

// ---------------------------------------------------------------------------
// Tool calls
// ---------------------------------------------------------------------------

/// A tool call waiting for its output.
pub struct MediumToolCall {
    pub name: String,
    pub call_markdown: String,
    pub timestamp: String,
}

/// The string items of the first `n` entries of an array.
pub open spec fn str_items(items: Seq<Json>, n: int) -> Seq<Seq<char>>
    decreases n,
{
    if n <= 0 || n > items.len() {
        seq![]
    } else {
        let prev = str_items(items, n - 1);
        match jstr(items[n - 1]) {
            Some(s) => prev.push(s),
            None => prev,
        }
    }
}

/// The words of a shell call's `command` array.
pub open spec fn shell_command(args: Json) -> Seq<Seq<char>> {
    match jget(args, "command"@) {
        Some(Json::Array(items)) => str_items(items, items.len() as int),
        _ => seq![],
    }
}

/// The script of `bash -lc <script>` or `sh -lc <script>`, else the words joined.
pub open spec fn command_text(cmd: Seq<Seq<char>>) -> Seq<char> {
    if cmd.len() >= 3 && (cmd[0] == "bash"@ || cmd[0] == "sh"@) && cmd[1] == "-lc"@ {
        cmd[2]
    } else {
        join(cmd, " "@)
    }
}

/// The suffix that tells a plan step's status when it is not done or pending.
pub open spec fn plan_status_suffix(status: Seq<char>) -> Seq<char> {
    if status == "in_progress"@ {
        " (in progress)"@
    } else if status != "completed"@ && status != "pending"@ {
        " (status: "@ + status + ")"@
    } else {
        Seq::empty()
    }
}

/// A plan step as a checklist line.
pub open spec fn plan_step_line(item: Json) -> Seq<char> {
    let status = jget_str_or(item, "status"@, "pending"@);
    let step = jget_str_or(item, "step"@, "(unnamed step)"@);
    let mark = if status == "completed"@ {
        "X"@
    } else {
        " "@
    };
    "- ["@ + mark + "] "@ + step + plan_status_suffix(status)
}

/// The checklist lines of the first `n` plan steps.
pub open spec fn plan_lines(items: Seq<Json>, n: int) -> Seq<Seq<char>>
    decreases n,
{
    if n <= 0 || n > items.len() {
        seq![]
    } else {
        plan_lines(items, n - 1).push(plan_step_line(items[n - 1]))
    }
}

/// The arguments printed compactly, or pretty when that fails.
pub open spec fn compact_json(j: Json) -> Seq<char> {
    match crate::json::spec_json_compact(j) {
        Some(s) => s,
        None => spec_json_pretty(j),
    }
}

/// The plan's name line, if it has a name.
pub open spec fn plan_head(args: Json) -> Seq<Seq<char>> {
    let name = jget_str(args, "name"@);
    if name is Some && name->0.len() > 0 {
        seq!["- plan: "@ + name->0]
    } else {
        seq![]
    }
}

/// The plan's step lines.
pub open spec fn plan_steps(args: Json) -> Seq<Seq<char>> {
    match jget(args, "plan"@) {
        Some(Json::Array(items)) => plan_lines(items, items.len() as int),
        _ => seq![],
    }
}

/// An `update_plan` call as a checklist.
pub open spec fn update_plan_spec(args: Json) -> Seq<char> {
    let lines = plan_head(args) + plan_steps(args);
    if lines.len() == 0 {
        "- call: update_plan "@ + crate::text::collapse_ws(compact_json(args))
    } else {
        join(lines, "\n"@)
    }
}

/// The lines of a detailed shell call: its working directory and its script.
pub open spec fn shell_detail_lines(args: Json, text: Seq<char>) -> Seq<Seq<char>> {
    let wd = jget_str(args, "workdir"@);
    let cwd: Seq<Seq<char>> = if wd is Some && wd->0.len() > 0 {
        seq!["- cwd: `"@ + inline_code_spec(wd->0) + "`"@]
    } else {
        seq![]
    };
    cwd + seq!["- call:"@, crate::text::trim_end(fence_spec("bash"@, text))]
}

/// A tool call summarized: plans as checklists, shell calls by their command
/// (abbreviated unless `detailed`), other tools by their compact arguments.
pub open spec fn tool_call_spec(name: Seq<char>, args: Json, max_len: nat, detailed: bool) -> Seq<
    char,
> {
    if name == "update_plan"@ {
        update_plan_spec(args)
    } else if name == "shell"@ {
        let text = command_text(shell_command(args));
        let collapsed = crate::text::collapse_ws(text);
        if contains(collapsed, "apply_patch"@) {
            "- call: `apply_patch <patch>`"@
        } else if !detailed {
            let limit: nat = if max_len >= 40 {
                max_len
            } else {
                40
            };
            "- call: `"@ + inline_code_spec(
                crate::exporter::markdown::truncate_spec(collapsed, limit),
            ) + "`"@
        } else {
            join(shell_detail_lines(args, text), "\n"@)
        }
    } else {
        "- call: "@ + name + " "@ + crate::text::collapse_ws(compact_json(args))
    }
}

/// The title of a tool's section.
pub open spec fn tool_title(name: Seq<char>) -> Seq<char> {
    "TOOL `"@ + inline_code_spec(name) + "`"@
}

/// The words of the `command` array of a shell call.
fn shell_command_exec(args: &JsonValue) -> (r: Vec<String>)
    ensures
        views(r@) == shell_command(args@),
{
    let mut out: Vec<String> = Vec::new();
    match args.get("command") {
        Some(c) => match c.as_array() {
            Some(items) => {
                let ghost js = json_views(items@);
                let mut i: usize = 0;
                while i < items.len()
                    invariant
                        js == json_views(items@),
                        i <= items@.len(),
                        views(out@) == str_items(js, i as int),
                    decreases items.len() - i,
                {
                    match items[i].as_str() {
                        Some(s) => {
                            let ghost old_o = out@;
                            let x = String::from_str(s);
                            out.push(x);
                            assert(views(out@) =~= views(old_o).push(x@));
                        },
                        None => {},
                    }
                    i = i + 1;
                }
                out
            },
            None => {
                assert(views(out@) =~= shell_command(args@));
                out
            },
        },
        None => {
            assert(views(out@) =~= shell_command(args@));
            out
        },
    }
}

/// The value printed compactly, or pretty when that fails.
fn compact_json_exec(args: &JsonValue) -> (r: String)
    ensures
        r@ == compact_json(args@),
{
    match crate::json::json_compact(args) {
        Some(s) => s,
        None => json_pretty(args),
    }
}

proof fn lemma_join_holds_part(parts: Seq<Seq<char>>, sep: Seq<char>, k: int)
    requires
        0 <= k < parts.len(),
    ensures
        exists|a: Seq<char>, b: Seq<char>| #[trigger] (a + parts[k] + b) == join(parts, sep),
    decreases parts.len(),
{
    let d = parts.drop_last();
    if parts.len() == 1 {
        assert(Seq::<char>::empty() + parts[k] + Seq::<char>::empty() =~= join(parts, sep));
    } else if k == parts.len() - 1 {
        assert(join(d, sep) + sep + parts[k] + Seq::<char>::empty() =~= join(parts, sep));
    } else {
        lemma_join_holds_part(d, sep, k);
        let (a, b) = choose|a: Seq<char>, b: Seq<char>| #[trigger] (a + d[k] + b) == join(d, sep);
        assert(d[k] == parts[k]);
        assert(a + parts[k] + (b + sep + parts.last()) =~= join(parts, sep));
    }
}

proof fn lemma_plan_lines_at(items: Seq<Json>, n: int, k: int)
    requires
        0 <= k < n <= items.len(),
    ensures
        plan_lines(items, n).len() == n,
        plan_lines(items, n)[k] == plan_step_line(items[k]),
    decreases n,
{
    if k < n - 1 {
        lemma_plan_lines_at(items, n - 1, k);
    } else if n > 1 {
        lemma_plan_lines_at(items, n - 1, 0);
    } else {
        assert(plan_lines(items, 0).len() == 0);
    }
}

/// An `update_plan` call lists every step of its plan as a checklist line: a
/// completed step as `- [X] <step>`, a step of any other status (pending when
/// it gives none) as `- [ ] <step>`; a step without a name reads
/// `(unnamed step)`.
pub proof fn law_plan_steps_checked_by_status(args: Json, items: Seq<Json>, k: int, max_len: nat, detailed: bool)
    requires
        jget(args, "plan"@) == Some(Json::Array(items)),
        0 <= k < items.len(),
    ensures
        ({
            let out = tool_call_spec("update_plan"@, args, max_len, detailed);
            let step = jget_str_or(items[k], "step"@, "(unnamed step)"@);
            let done = jget_str_or(items[k], "status"@, "pending"@) == "completed"@;
            &&& done ==> exists|a: Seq<char>, b: Seq<char>| #[trigger] (a + "- [X] "@ + step + b) == out
            &&& !done ==> exists|a: Seq<char>, b: Seq<char>| #[trigger] (a + "- [ ] "@ + step + b) == out
        }),
{
    reveal_strlit("- [X] ");
    reveal_strlit("- [ ] ");
    reveal_strlit("- [");
    reveal_strlit("X");
    reveal_strlit(" ");
    reveal_strlit("] ");
    let n = items.len() as int;
    lemma_plan_lines_at(items, n, k);
    let steps = plan_steps(args);
    assert(steps == plan_lines(items, n));
    let lines = plan_head(args) + steps;
    let h = plan_head(args).len() as int;
    assert(lines[h + k] == plan_step_line(items[k]));
    assert(lines.len() > 0);
    let out = tool_call_spec("update_plan"@, args, max_len, detailed);
    assert(out == join(lines, "\n"@));
    lemma_join_holds_part(lines, "\n"@, h + k);
    let (a, b) = choose|a: Seq<char>, b: Seq<char>| #[trigger] (a + lines[h + k] + b) == join(lines, "\n"@);
    let status = jget_str_or(items[k], "status"@, "pending"@);
    let step = jget_str_or(items[k], "step"@, "(unnamed step)"@);
    let rest = plan_status_suffix(status) + b;
    if status == "completed"@ {
        assert("- ["@ + "X"@ + "] "@ =~= "- [X] "@);
        assert(a + "- [X] "@ + step + rest =~= a + lines[h + k] + b);
    } else {
        assert("- ["@ + " "@ + "] "@ =~= "- [ ] "@);
        assert(a + "- [ ] "@ + step + rest =~= a + lines[h + k] + b);
    }
}

/// An `update_plan` call as a checklist of its steps.
pub fn format_update_plan_call(args: &JsonValue) -> (r: String)
    ensures
        r@ == update_plan_spec(args@),
{
    let mut lines: Vec<String> = Vec::new();
    match get_str(args, "name") {
        Some(name) => if !name.is_empty() {
            let mut l = String::from_str("- plan: ");
            push_str(&mut l, name);
            lines.push(l);
        },
        None => {},
    }
    let ghost head = views(lines@);
    assert(head =~= plan_head(args@));
    match args.get("plan") {
        Some(p) => match p.as_array() {
            Some(items) => {
                let ghost js = json_views(items@);
                let mut i: usize = 0;
                while i < items.len()
                    invariant
                        js == json_views(items@),
                        i <= items@.len(),
                        views(lines@) == head + plan_lines(js, i as int),
                    decreases items.len() - i,
                {
                    let item = &items[i];
                    let status = match get_str(item, "status") {
                        Some(s) => String::from_str(s),
                        None => String::from_str("pending"),
                    };
                    let step = match get_str(item, "step") {
                        Some(s) => String::from_str(s),
                        None => String::from_str("(unnamed step)"),
                    };
                    let mut suffix = String::new();
                    if text_eq(status.as_str(), "in_progress") {
                        push_str(&mut suffix, " (in progress)");
                    } else if !text_eq(status.as_str(), "completed") && !text_eq(
                        status.as_str(),
                        "pending",
                    ) {
                        push_str(&mut suffix, " (status: ");
                        push_str(&mut suffix, status.as_str());
                        push_str(&mut suffix, ")");
                    }
                    let mut l = String::from_str("- [");
                    if text_eq(status.as_str(), "completed") {
                        push_str(&mut l, "X");
                    } else {
                        push_str(&mut l, " ");
                    }
                    push_str(&mut l, "] ");
                    push_str(&mut l, step.as_str());
                    push_str(&mut l, suffix.as_str());
                    assert(l@ =~= plan_step_line(js[i as int]));
                    let ghost old_l = lines@;
                    lines.push(l);
                    assert(views(lines@) =~= views(old_l).push(l@));
                    i = i + 1;
                    assert(views(lines@) =~= head + plan_lines(js, i as int));
                }
            },
            None => {
                assert(views(lines@) =~= head + Seq::<Seq<char>>::empty());
            },
        },
        None => {
            assert(views(lines@) =~= head + Seq::<Seq<char>>::empty());
        },
    }
    assert(views(lines@) =~= plan_head(args@) + plan_steps(args@));
    if lines.len() == 0 {
        let compact = compact_json_exec(args);
        let collapsed = crate::exporter::markdown::collapse_ws(compact.as_str());
        let mut out = String::from_str("- call: update_plan ");
        push_str(&mut out, collapsed.as_str());
        return out;
    }
    join_strings(&lines, "\n")
}

/// A tool call summarized for the transcript.
pub fn summarize_tool_call(name: &str, args: &JsonValue, max_len: usize, detailed_calls: bool) -> (r:
    String)
    ensures
        r@ == tool_call_spec(name@, args@, max_len as nat, detailed_calls),
{
    if text_eq(name, "update_plan") {
        return format_update_plan_call(args);
    }
    if text_eq(name, "shell") {
        let command = shell_command_exec(args);
        let text = if command.len() >= 3 && (text_eq(command[0].as_str(), "bash") || text_eq(
            command[0].as_str(),
            "sh",
        )) && text_eq(command[1].as_str(), "-lc") {
            command[2].clone()
        } else {
            join_strings(&command, " ")
        };
        assert(text@ == command_text(shell_command(args@)));
        let collapsed = crate::exporter::markdown::collapse_ws(text.as_str());
        if crate::text::contains_str(collapsed.as_str(), "apply_patch") {
            return String::from_str("- call: `apply_patch <patch>`");
        }
        if !detailed_calls {
            let limit = if max_len >= 40 {
                max_len
            } else {
                40
            };
            let summary = crate::exporter::markdown::truncate_with_indicator(
                collapsed.as_str(),
                limit,
            );
            let code = inline_code(summary.as_str());
            let mut out = String::from_str("- call: `");
            push_str(&mut out, code.as_str());
            push_str(&mut out, "`");
            return out;
        }
        let mut lines: Vec<String> = Vec::new();
        match get_str(args, "workdir") {
            Some(wd) => if !wd.is_empty() {
                let mut l = String::from_str("- cwd: `");
                let c = inline_code(wd);
                push_str(&mut l, c.as_str());
                push_str(&mut l, "`");
                lines.push(l);
            },
            None => {},
        }
        let ghost cwd = views(lines@);
        let ghost wd = jget_str(args@, "workdir"@);
        assert(cwd =~= (if wd is Some && wd->0.len() > 0 {
            seq!["- cwd: `"@ + inline_code_spec(wd->0) + "`"@]
        } else {
            Seq::<Seq<char>>::empty()
        }));
        lines.push(String::from_str("- call:"));
        let fence = markdown_fence("bash", text.as_str());
        let fence_t = crate::text::trim_end_str(fence.as_str());
        lines.push(fence_t);
        assert(views(lines@) =~= shell_detail_lines(args@, text@));
        return join_strings(&lines, "\n");
    }
    let compact = compact_json_exec(args);
    let collapsed = crate::exporter::markdown::collapse_ws(compact.as_str());
    let mut out = String::from_str("- call: ");
    push_str(&mut out, name);
    push_str(&mut out, " ");
    push_str(&mut out, collapsed.as_str());
    out
}

} // verus!
