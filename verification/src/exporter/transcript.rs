//! The transcript as a sequence of sections, one record at a time.
//!
//! `ExportState::step` decides, for each record of a rollout, which section (if
//! any) the transcript gets next; `ExportState::finish` gives the sections that
//! close a medium or full transcript.
use vstd::prelude::*;

use crate::exporter::events::{event_details_spec, format_medium_event};
use crate::exporter::items::{content_items, opt_view, MediumToolCall};
use crate::exporter::markdown::{
    inline_code, inline_code_spec, is_medium_event_worthy, markdown_section, mentions_trouble,
    section_spec,
};
use crate::exporter::records::{
    call_view, capture_medium_tool_call, captured_call, compact_item_spec, full_item_spec,
    get_str_or, medium_item_spec, medium_reasoning_key, medium_tool_output_signature, opt_call,
    opt_text, output_signature_spec, reasoning_key_spec, render_compact_response_item,
    render_full_item, render_medium_response_item, render_medium_tool_output,
    render_pending_tool_call, render_unpaired_tool_call, tool_output_spec, unpaired_call_spec,
};
use crate::exporter::values::{event_label, event_label_spec};
use crate::exporter::ExportMode;
use crate::json::{jget, jget_str_or, parse_json, spec_parse_json, text_eq, Json, JsonValue};
use crate::text::{ascii_lower, push_str, text_le, text_le_exec, views};

verus! {

broadcast use vstd::std_specs::vec::group_vec_axioms;

// ---------------------------------------------------------------------------
// Association lists
// ---------------------------------------------------------------------------

/// The first position at or after `i` whose key is `k`, or `m.len()`.
pub open spec fn key_index<V>(m: Seq<(Seq<char>, V)>, k: Seq<char>, i: int) -> int
    decreases m.len() - i,
{
    if i < 0 || i >= m.len() {
        m.len() as int
    } else if m[i].0 == k {
        i
    } else {
        key_index(m, k, i + 1)
    }
}

/// The value under `k`.
pub open spec fn assoc_get<V>(m: Seq<(Seq<char>, V)>, k: Seq<char>) -> Option<V> {
    let i = key_index(m, k, 0);
    if 0 <= i < m.len() {
        Some(m[i].1)
    } else {
        None
    }
}

/// `m` with `v` under `k`: in place when `k` is there, else at the end.
pub open spec fn assoc_put<V>(m: Seq<(Seq<char>, V)>, k: Seq<char>, v: V) -> Seq<(Seq<char>, V)> {
    let i = key_index(m, k, 0);
    if 0 <= i < m.len() {
        m.update(i, (k, v))
    } else {
        m.push((k, v))
    }
}

/// `s` with `x` added when it is not there yet.
pub open spec fn set_add(s: Seq<Seq<char>>, x: Seq<char>) -> Seq<Seq<char>> {
    if s.contains(x) {
        s
    } else {
        s.push(x)
    }
}

proof fn lemma_key_index<V>(m: Seq<(Seq<char>, V)>, k: Seq<char>, i: int)
    requires
        0 <= i <= m.len(),
    ensures
        i <= key_index(m, k, i) <= m.len(),
        key_index(m, k, i) < m.len() ==> m[key_index(m, k, i)].0 == k,
        forall|j: int| i <= j < key_index(m, k, i) ==> m[j].0 != k,
    decreases m.len() - i,
{
    if i < m.len() && m[i].0 != k {
        lemma_key_index(m, k, i + 1);
    }
}

// ---------------------------------------------------------------------------
// The state and its transitions
// ---------------------------------------------------------------------------

/// A pending call: name, summary, timestamp.
pub type CallView = (Seq<char>, Seq<char>, Seq<char>);

/// The mathematical form of the export state.
pub struct ExportView {
    pub mode: ExportMode,
    pub image_idx: nat,
    pub last_block: Option<Seq<char>>,
    pub pending: Seq<(Seq<char>, CallView)>,
    pub sigs: Seq<(Seq<char>, Seq<char>)>,
    pub with_output: Seq<Seq<char>>,
    pub last_reasoning: Option<Seq<char>>,
}

/// What an export keeps between records.
pub struct ExportState {
    pub mode: ExportMode,
    pub image_idx: usize,
    pub last_written_block: Option<String>,
    pub pending_calls: Vec<(String, MediumToolCall)>,
    pub output_sigs: Vec<(String, String)>,
    pub calls_with_output: Vec<String>,
    pub last_reasoning_key: Option<String>,
}

/// The views of the pending calls.
pub open spec fn pending_views(p: Seq<(String, MediumToolCall)>) -> Seq<(Seq<char>, CallView)> {
    Seq::new(p.len(), |i: int| (p[i].0@, call_view(p[i].1)))
}

/// The views of the output signatures.
pub open spec fn sig_views(p: Seq<(String, String)>) -> Seq<(Seq<char>, Seq<char>)> {
    Seq::new(p.len(), |i: int| (p[i].0@, p[i].1@))
}

impl View for ExportState {
    type V = ExportView;

    open spec fn view(&self) -> ExportView {
        ExportView {
            mode: self.mode,
            image_idx: self.image_idx as nat,
            last_block: opt_text(self.last_written_block),
            pending: pending_views(self.pending_calls@),
            sigs: sig_views(self.output_sigs@),
            with_output: views(self.calls_with_output@),
            last_reasoning: opt_text(self.last_reasoning_key),
        }
    }
}

/// The state at the start of a transcript.
pub open spec fn initial_view(mode: ExportMode) -> ExportView {
    ExportView {
        mode,
        image_idx: 0,
        last_block: None,
        pending: seq![],
        sigs: seq![],
        with_output: seq![],
        last_reasoning: None,
    }
}

/// Writes `block` unless it repeats the last section written; a written block
/// sets the last reasoning key to `reasoning` when `set_reasoning` holds.
pub open spec fn emit(
    s: ExportView,
    block: Option<Seq<char>>,
    set_reasoning: bool,
    reasoning: Option<Seq<char>>,
) -> (ExportView, Option<Seq<char>>) {
    match block {
        None => (s, None),
        Some(b) => if s.last_block == Some(b) {
            (s, None)
        } else {
            (
                ExportView {
                    last_block: Some(b),
                    last_reasoning: if set_reasoning {
                        reasoning
                    } else {
                        s.last_reasoning
                    },
                    ..s
                },
                Some(b),
            )
        },
    }
}

/// The payload of a record.
pub open spec fn record_payload(rec: Json) -> Option<Json> {
    jget(rec, "payload"@)
}

/// How many content items the record's payload has; each may be an image.
pub open spec fn record_images(rec: Json) -> nat {
    match record_payload(rec) {
        Some(p) => content_items(jget(p, "content"@)).len(),
        None => 0,
    }
}

/// The section of a worthy event.
pub open spec fn event_block(ts: Seq<char>, label: Seq<char>, payload: Json, dur: Seq<char>) -> Seq<
    char,
> {
    let title = if label.len() == 0 {
        "EVENT"@
    } else {
        "EVENT `"@ + inline_code_spec(label) + "`"@
    };
    let body = if payload is Null {
        "(no details)"@
    } else {
        "- details: "@ + event_details_spec(payload, 240, dur)
    };
    section_spec(ts, title, body)
}

/// One step of a medium or full transcript on a record of type `response_item`.
pub open spec fn medium_response_step(s: ExportView, ts: Seq<char>, payload: Option<Json>) -> (
    ExportView,
    Option<Seq<char>>,
) {
    let detailed = s.mode == ExportMode::Full;
    let ptype = match payload {
        Some(p) => jget_str_or(p, "type"@, Seq::empty()),
        None => Seq::empty(),
    };
    if ptype == "function_call"@ {
        match captured_call(payload, 140, detailed, ts) {
            Some((id, call)) => (ExportView { pending: assoc_put(s.pending, id, call), ..s }, None),
            None => emit(s, unpaired_call_spec(ts, payload, 140, detailed), true, None),
        }
    } else if ptype == "function_call_output"@ {
        let id = jget_str_or(payload->0, "call_id"@, Seq::empty());
        let paired = assoc_get(s.pending, id);
        if id.len() > 0 {
            let sig = output_signature_spec(payload);
            if assoc_get(s.sigs, id) == Some(sig) {
                (s, None)
            } else {
                let s2 = ExportView {
                    sigs: assoc_put(s.sigs, id, sig),
                    with_output: set_add(s.with_output, id),
                    ..s
                };
                emit(s2, tool_output_spec(ts, payload, paired, 180), true, None)
            }
        } else {
            emit(s, tool_output_spec(ts, payload, paired, 180), true, None)
        }
    } else {
        let key = reasoning_key_spec(payload);
        if key is Some && s.last_reasoning == key {
            (s, None)
        } else {
            let (block, idx) = medium_item_spec(ts, payload, s.image_idx, 180);
            emit(ExportView { image_idx: idx, ..s }, block, true, key)
        }
    }
}

/// One step of a transcript: the next state and the section written, if any.
/// `dur` is the duration in seconds that an MCP tool call's end event shows.
pub open spec fn step_spec(s: ExportView, rec: Json, dur: Seq<char>) -> (
    ExportView,
    Option<Seq<char>>,
) {
    let ts = jget_str_or(rec, "timestamp"@, Seq::empty());
    let otype = jget_str_or(rec, "type"@, Seq::empty());
    let payload = record_payload(rec);
    match s.mode {
        ExportMode::Compact => if otype != "response_item"@ {
            (s, None)
        } else {
            let (block, idx) = compact_item_spec(ts, payload, s.image_idx);
            emit(ExportView { image_idx: idx, ..s }, block, false, None)
        },
        ExportMode::Json => {
            let (block, idx) = full_item_spec(ts, otype, payload, s.image_idx);
            emit(ExportView { image_idx: idx, ..s }, block, false, None)
        },
        _ => if otype == "response_item"@ {
            medium_response_step(s, ts, payload)
        } else if otype == "event"@ {
            let p = match payload {
                Some(p) => p,
                None => Json::Null,
            };
            let label = event_label_spec(p);
            if !(label.len() > 0 && mentions_trouble(ascii_lower(label))) {
                (s, None)
            } else {
                emit(s, Some(event_block(ts, label, p, dur)), true, None)
            }
        } else {
            (s, None)
        },
    }
}

// ---------------------------------------------------------------------------
// The closing sections
// ---------------------------------------------------------------------------

/// `x` placed into the timestamp-sorted `s` after every call with a timestamp
/// that is not later than its own.
pub open spec fn insert_by_ts(s: Seq<CallView>, x: CallView) -> Seq<CallView>
    decreases s.len(),
{
    if s.len() == 0 {
        seq![x]
    } else if text_le(s.last().2, x.2) {
        s.push(x)
    } else {
        insert_by_ts(s.drop_last(), x).push(s.last())
    }
}

/// The calls sorted by timestamp, calls with equal timestamps kept in order.
pub open spec fn sort_by_ts(s: Seq<CallView>) -> Seq<CallView>
    decreases s.len(),
{
    if s.len() == 0 {
        seq![]
    } else {
        insert_by_ts(sort_by_ts(s.drop_last()), s.last())
    }
}

/// The pending calls that never got an output.
pub open spec fn calls_without_output(s: ExportView) -> Seq<CallView> {
    s.pending.filter(|e: (Seq<char>, CallView)| !s.with_output.contains(e.0)).map_values(
        |e: (Seq<char>, CallView)| e.1,
    )
}

/// The section of a pending call.
pub open spec fn pending_block(c: CallView) -> Seq<char> {
    section_spec(c.2, crate::exporter::items::tool_title(c.0), c.1)
}

/// The sections of the first `n` calls, each skipped when it repeats the one
/// before it (starting from `last`).
pub open spec fn closing_blocks(calls: Seq<CallView>, n: int, last: Option<Seq<char>>) -> (
    Seq<Seq<char>>,
    Option<Seq<char>>,
)
    decreases n,
{
    if n <= 0 || n > calls.len() {
        (seq![], last)
    } else {
        let (prev, l) = closing_blocks(calls, n - 1, last);
        let b = pending_block(calls[n - 1]);
        if l == Some(b) {
            (prev, l)
        } else {
            (prev.push(b), Some(b))
        }
    }
}

/// The sections that close a medium or full transcript: the calls that never
/// got an output, by timestamp.
pub open spec fn finish_spec(s: ExportView) -> Seq<Seq<char>> {
    if s.mode == ExportMode::Medium || s.mode == ExportMode::Full {
        let calls = sort_by_ts(calls_without_output(s));
        closing_blocks(calls, calls.len() as int, s.last_block).0
    } else {
        seq![]
    }
}

// ---------------------------------------------------------------------------
// Executable functions
// ---------------------------------------------------------------------------

/// The position of key `k` in `m`.
fn find_key<V>(m: &Vec<(String, V)>, k: &str) -> (r: usize)
    ensures
        r as int == key_index(Seq::new(m@.len(), |i: int| (m@[i].0@, ())), k@, 0),
        r <= m@.len(),
{
    let ghost keys = Seq::new(m@.len(), |i: int| (m@[i].0@, ()));
    proof {
        lemma_key_index(keys, k@, 0);
    }
    let mut i: usize = 0;
    while i < m.len()
        invariant
            keys == Seq::new(m@.len(), |i: int| (m@[i].0@, ())),
            i <= m@.len(),
            key_index(keys, k@, i as int) == key_index(keys, k@, 0),
        decreases m.len() - i,
    {
        if text_eq(m[i].0.as_str(), k) {
            return i;
        }
        i = i + 1;
    }
    i
}

proof fn lemma_key_index_map<V, W>(
    m: Seq<(Seq<char>, V)>,
    n: Seq<(Seq<char>, W)>,
    k: Seq<char>,
    i: int,
)
    requires
        m.len() == n.len(),
        forall|j: int| 0 <= j < m.len() ==> m[j].0 == n[j].0,
    ensures
        key_index(m, k, i) == key_index(n, k, i),
    decreases m.len() - i,
{
    if 0 <= i < m.len() && m[i].0 != k {
        lemma_key_index_map(m, n, k, i + 1);
    }
}

/// Whether `s` holds `x`.
fn contains_text(s: &Vec<String>, x: &str) -> (r: bool)
    ensures
        r == views(s@).contains(x@),
{
    let mut i: usize = 0;
    while i < s.len()
        invariant
            i <= s@.len(),
            forall|j: int| 0 <= j < i ==> s@[j]@ != x@,
        decreases s.len() - i,
    {
        if text_eq(s[i].as_str(), x) {
            assert(views(s@)[i as int] == x@);
            return true;
        }
        i = i + 1;
    }
    assert(!views(s@).contains(x@)) by {
        if views(s@).contains(x@) {
            let j = choose|j: int| 0 <= j < views(s@).len() && views(s@)[j] == x@;
            assert(s@[j]@ == x@);
        }
    }
    false
}

/// Whether two optional texts are the same.
fn same_text(a: &Option<String>, b: &str) -> (r: bool)
    ensures
        r == (opt_text(*a) == Some(b@)),
{
    match a {
        Some(x) => text_eq(x.as_str(), b),
        None => false,
    }
}

// ---------------------------------------------------------------------------
// Rollout lines
// ---------------------------------------------------------------------------

/// The message with which a rollout line that is not JSON is refused.
pub open spec fn invalid_line_message(path: Seq<char>, err: Seq<char>) -> Seq<char> {
    "invalid jsonl in "@ + path + ": "@ + err
}

/// Reads one line of the rollout file at `path` as a record. A line that is
/// not JSON is refused with a message that names the file and the parse error.
pub fn parse_rollout_line(line: &str, path: &str) -> (r: Result<JsonValue, String>)
    ensures
        match spec_parse_json(line@) {
            Ok(j) => r matches Ok(v) && v@ == j,
            Err(e) => r matches Err(m) && m@ == invalid_line_message(path@, e),
        },
{
    match parse_json(line) {
        Ok(v) => Ok(v),
        Err(e) => {
            let mut m = String::from_str("invalid jsonl in ");
            push_str(&mut m, path);
            push_str(&mut m, ": ");
            push_str(&mut m, e.as_str());
            proof {
                reveal_strlit("invalid jsonl in ");
                reveal_strlit(": ");
            }
            Err(m)
        },
    }
}

impl ExportState {
    /// The state at the start of a transcript in `mode`.
    pub fn new(mode: ExportMode) -> (r: ExportState)
        ensures
            r@ == initial_view(mode),
    {
        let r = ExportState {
            mode,
            image_idx: 0,
            last_written_block: None,
            pending_calls: Vec::new(),
            output_sigs: Vec::new(),
            calls_with_output: Vec::new(),
            last_reasoning_key: None,
        };
        assert(r@.pending =~= Seq::<(Seq<char>, CallView)>::empty());
        assert(r@.sigs =~= Seq::<(Seq<char>, Seq<char>)>::empty());
        assert(r@.with_output =~= Seq::<Seq<char>>::empty());
        r
    }

    /// Whether the image count can take every content item of `record`, which
    /// `step` needs.
    pub fn has_room_for(&self, record: &JsonValue) -> (r: bool)
        ensures
            r == (self@.image_idx + record_images(record@) <= usize::MAX),
    {
        let n: usize = match record.get("payload") {
            Some(p) => match p.get("content") {
                Some(c) => match c.as_array() {
                    Some(items) => items.len(),
                    None => 0,
                },
                None => 0,
            },
            None => 0,
        };
        proof {
            if let Some(p) = record_payload(record@) {
                if let Some(Json::Array(items)) = jget(p, "content"@) {
                    assert(content_items(jget(p, "content"@)) == items);
                }
            }
        }
        self.image_idx <= usize::MAX - n
    }

    /// Writes `block` unless it repeats the last section written.
    fn emit_exec(&mut self, block: Option<String>, set_reasoning: bool, reasoning: Option<String>) -> (r:
        Option<String>)
        ensures
            (final(self)@, opt_text(r)) == emit(
                old(self)@,
                opt_text(block),
                set_reasoning,
                opt_text(reasoning),
            ),
    {
        match block {
            None => None,
            Some(b) => {
                if same_text(&self.last_written_block, b.as_str()) {
                    return None;
                }
                self.last_written_block = Some(b.clone());
                if set_reasoning {
                    self.last_reasoning_key = reasoning;
                }
                Some(b)
            },
        }
    }

    /// Puts `call` under `id` among the pending calls.
    fn put_pending(&mut self, id: String, call: MediumToolCall)
        ensures
            final(self)@ == (ExportView {
                pending: assoc_put(old(self)@.pending, id@, call_view(call)),
                ..old(self)@
            }),
    {
        let i = find_key(&self.pending_calls, id.as_str());
        proof {
            lemma_key_index_map(
                Seq::new(self.pending_calls@.len(), |j: int| (self.pending_calls@[j].0@, ())),
                pending_views(self.pending_calls@),
                id@,
                0,
            );
            lemma_key_index(pending_views(self.pending_calls@), id@, 0);
        }
        let ghost old_p = self.pending_calls@;
        if i < self.pending_calls.len() {
            self.pending_calls.set(i, (id, call));
        } else {
            self.pending_calls.push((id, call));
        }
        assert(pending_views(self.pending_calls@) =~= assoc_put(
            pending_views(old_p),
            id@,
            call_view(call),
        ));
    }

    /// Records the signature of the output for call `id`.
    fn put_sig(&mut self, id: String, sig: String)
        ensures
            final(self)@ == (ExportView {
                sigs: assoc_put(old(self)@.sigs, id@, sig@),
                ..old(self)@
            }),
    {
        let i = find_key(&self.output_sigs, id.as_str());
        proof {
            lemma_key_index_map(
                Seq::new(self.output_sigs@.len(), |j: int| (self.output_sigs@[j].0@, ())),
                sig_views(self.output_sigs@),
                id@,
                0,
            );
            lemma_key_index(sig_views(self.output_sigs@), id@, 0);
        }
        let ghost old_p = self.output_sigs@;
        if i < self.output_sigs.len() {
            self.output_sigs.set(i, (id, sig));
        } else {
            self.output_sigs.push((id, sig));
        }
        assert(sig_views(self.output_sigs@) =~= assoc_put(sig_views(old_p), id@, sig@));
    }

    /// The pending call under `id`.
    fn pending_call(&self, id: &str) -> (r: Option<&MediumToolCall>)
        ensures
            opt_call(r) == assoc_get(self@.pending, id@),
    {
        let i = find_key(&self.pending_calls, id);
        proof {
            lemma_key_index_map(
                Seq::new(self.pending_calls@.len(), |j: int| (self.pending_calls@[j].0@, ())),
                pending_views(self.pending_calls@),
                id@,
                0,
            );
        }
        if i < self.pending_calls.len() {
            Some(&self.pending_calls[i].1)
        } else {
            None
        }
    }

    /// The signature recorded for the output of call `id`.
    fn sig_of(&self, id: &str) -> (r: Option<&String>)
        ensures
            match r {
                Some(s) => assoc_get(self@.sigs, id@) == Some(s@),
                None => assoc_get(self@.sigs, id@) is None,
            },
    {
        let i = find_key(&self.output_sigs, id);
        proof {
            lemma_key_index_map(
                Seq::new(self.output_sigs@.len(), |j: int| (self.output_sigs@[j].0@, ())),
                sig_views(self.output_sigs@),
                id@,
                0,
            );
        }
        if i < self.output_sigs.len() {
            Some(&self.output_sigs[i].1)
        } else {
            None
        }
    }

    /// One step of a medium or full transcript on a `response_item` record.
    fn medium_response_step_exec(&mut self, ts: &str, payload: Option<&JsonValue>) -> (r: Option<String>)
        requires
            old(self).mode == ExportMode::Medium || old(self).mode == ExportMode::Full,
            payload is Some ==> old(self)@.image_idx + content_items(
                jget(payload->0@, "content"@),
            ).len() <= usize::MAX,
        ensures
            (final(self)@, opt_text(r)) == medium_response_step(old(self)@, ts@, opt_view(payload)),
    {
        proof {
            reveal_strlit("");
            reveal_strlit("function_call");
            reveal_strlit("function_call_output");
            assert(""@ =~= Seq::<char>::empty());
        }
        let ghost s0 = self@;
        let detailed = match self.mode {
            ExportMode::Full => true,
            _ => false,
        };
        let ptype = match payload {
            Some(p) => get_str_or(p, "type", ""),
            None => String::new(),
        };
        if text_eq(ptype.as_str(), "function_call") {
            match capture_medium_tool_call(payload, 140, detailed, ts) {
                Some((id, call)) => {
                    self.put_pending(id, call);
                    return None;
                },
                None => {
                    let rendered = render_unpaired_tool_call(ts, payload, 140, detailed);
                    return self.emit_exec(rendered, true, None);
                },
            }
        }
        if text_eq(ptype.as_str(), "function_call_output") {
            let p = payload.unwrap();
            let id = get_str_or(p, "call_id", "");
            let ghost paired = assoc_get(self@.pending, id@);
            if !id.as_str().is_empty() {
                let sig = medium_tool_output_signature(payload);
                let dup = match self.sig_of(id.as_str()) {
                    Some(prev) => text_eq(prev.as_str(), sig.as_str()),
                    None => false,
                };
                if dup {
                    return None;
                }
                let ghost sig_v = sig@;
                self.put_sig(id.clone(), sig);
                if !contains_text(&self.calls_with_output, id.as_str()) {
                    let ghost old_w = self.calls_with_output@;
                    self.calls_with_output.push(id.clone());
                    assert(views(self.calls_with_output@) =~= views(old_w).push(id@));
                }
                assert(self@ == (ExportView {
                    sigs: assoc_put(s0.sigs, id@, sig_v),
                    with_output: set_add(s0.with_output, id@),
                    ..s0
                }));
                let rendered = render_medium_tool_output(
                    ts,
                    payload,
                    self.pending_call(id.as_str()),
                    180,
                );
                return self.emit_exec(rendered, true, None);
            }
            let rendered = render_medium_tool_output(
                ts,
                payload,
                self.pending_call(id.as_str()),
                180,
            );
            return self.emit_exec(rendered, true, None);
        }
        let key = medium_reasoning_key(payload);
        let repeat = match &key {
            Some(k) => same_text(&self.last_reasoning_key, k.as_str()),
            None => false,
        };
        if repeat {
            return None;
        }
        let rendered = render_medium_response_item(ts, payload, &mut self.image_idx, 180);
        self.emit_exec(rendered, true, key)
    }

    /// The section the transcript gets for `record`, if any; updates the state.
    /// `duration_text` is the record's duration in seconds, shown when the
    /// record is the end of an MCP tool call worth showing.
    pub fn step(&mut self, record: &JsonValue, duration_text: &str) -> (r: Option<String>)
        requires
            old(self)@.image_idx + record_images(record@) <= usize::MAX,
        ensures
            (final(self)@, opt_text(r)) == step_spec(old(self)@, record@, duration_text@),
            r matches Some(b) ==> old(self)@.last_block != Some(b@) && final(self)@.last_block == Some(b@),
            r is None ==> final(self)@.last_block == old(self)@.last_block,
            final(self)@.mode == old(self)@.mode,
    {
        proof {
            reveal_strlit("");
            assert(""@ =~= Seq::<char>::empty());
        }
        let ts = get_str_or(record, "timestamp", "");
        let otype = get_str_or(record, "type", "");
        let payload = record.get("payload");
        match self.mode {
            ExportMode::Compact => {
                if !text_eq(otype.as_str(), "response_item") {
                    return None;
                }
                let rendered = render_compact_response_item(ts.as_str(), payload, &mut self.image_idx);
                self.emit_exec(rendered, false, None)
            },
            ExportMode::Json => {
                let rendered = render_full_item(ts.as_str(), otype.as_str(), payload, &mut self.image_idx);
                self.emit_exec(rendered, false, None)
            },
            _ => {
                if text_eq(otype.as_str(), "response_item") {
                    return self.medium_response_step_exec(ts.as_str(), payload);
                }
                if text_eq(otype.as_str(), "event") {
                    let null = JsonValue::Null;
                    let p: &JsonValue = match payload {
                        Some(p) => p,
                        None => &null,
                    };
                    let label = event_label(p);
                    if !is_medium_event_worthy(label.as_str()) {
                        return None;
                    }
                    let title = if label.as_str().is_empty() {
                        String::from_str("EVENT")
                    } else {
                        let mut t = String::from_str("EVENT `");
                        let c = inline_code(label.as_str());
                        push_str(&mut t, c.as_str());
                        push_str(&mut t, "`");
                        t
                    };
                    let body = if p.is_null() {
                        String::from_str("(no details)")
                    } else {
                        let mut b = String::from_str("- details: ");
                        let d = format_medium_event(p, 240, duration_text);
                        push_str(&mut b, d.as_str());
                        b
                    };
                    let rendered = markdown_section(ts.as_str(), title.as_str(), body.as_str());
                    return self.emit_exec(Some(rendered), true, None);
                }
                None
            },
        }
    }
}

// ---------------------------------------------------------------------------
// Closing sections
// ---------------------------------------------------------------------------

proof fn lemma_insert_by_ts(s: Seq<CallView>, x: CallView, p: int)
    requires
        0 <= p <= s.len(),
        forall|j: int| p <= j < s.len() ==> !text_le(#[trigger] s[j].2, x.2),
        p == 0 || text_le(s[p - 1].2, x.2),
    ensures
        insert_by_ts(s, x) == s.insert(p, x),
    decreases s.len(),
{
    if s.len() == 0 {
        assert(s.insert(p, x) =~= seq![x]);
    } else if p == s.len() {
        assert(s.insert(p, x) =~= s.push(x));
    } else {
        assert(!text_le(s.last().2, x.2));
        let t = s.drop_last();
        assert forall|j: int| p <= j < t.len() implies !text_le(#[trigger] t[j].2, x.2) by {
            assert(t[j] == s[j]);
        }
        lemma_insert_by_ts(t, x, p);
        assert(t.insert(p, x).push(s.last()) =~= s.insert(p, x));
    }
}

/// The views of a sequence of pending calls.
pub open spec fn call_views(v: Seq<&MediumToolCall>) -> Seq<CallView> {
    Seq::new(v.len(), |i: int| call_view(*v[i]))
}

/// The calls sorted by timestamp, equal timestamps kept in order.
fn sort_calls_by_ts<'a>(calls: Vec<&'a MediumToolCall>) -> (r: Vec<&'a MediumToolCall>)
    ensures
        call_views(r@) == sort_by_ts(call_views(calls@)),
{
    let mut sorted: Vec<&MediumToolCall> = Vec::new();
    let mut k: usize = 0;
    while k < calls.len()
        invariant
            k <= calls@.len(),
            call_views(sorted@) == sort_by_ts(call_views(calls@).take(k as int)),
        decreases calls.len() - k,
    {
        let x = calls[k];
        let mut p = sorted.len();
        while p > 0 && !text_le_exec(sorted[p - 1].timestamp.as_str(), x.timestamp.as_str())
            invariant
                p <= sorted@.len(),
                forall|j: int|
                    p <= j < sorted@.len() ==> !text_le(
                        #[trigger] call_views(sorted@)[j].2,
                        call_view(*x).2,
                    ),
            decreases p,
        {
            p = p - 1;
        }
        proof {
            lemma_insert_by_ts(call_views(sorted@), call_view(*x), p as int);
            assert(call_views(calls@).take(k + 1).drop_last() =~= call_views(calls@).take(k as int));
        }
        let ghost old_sorted = sorted@;
        sorted.insert(p, x);
        assert(call_views(sorted@) =~= call_views(old_sorted).insert(p as int, call_view(*x)));
        k = k + 1;
    }
    assert(call_views(calls@).take(k as int) =~= call_views(calls@));
    sorted
}

impl ExportState {
    /// The sections that close the transcript: in medium and full modes, the
    /// calls that never got an output, by timestamp.
    pub fn finish(&self) -> (r: Vec<String>)
        ensures
            views(r@) == finish_spec(self@),
    {
        let mut out: Vec<String> = Vec::new();
        match self.mode {
            ExportMode::Medium | ExportMode::Full => {},
            _ => {
                assert(views(out@) =~= finish_spec(self@));
                return out;
            },
        }
        let ghost pred = |e: (Seq<char>, CallView)| !self@.with_output.contains(e.0);
        let ghost getc = |e: (Seq<char>, CallView)| e.1;
        let mut pending_only: Vec<&MediumToolCall> = Vec::new();
        let mut i: usize = 0;
        while i < self.pending_calls.len()
            invariant
                i <= self.pending_calls@.len(),
                forall|e: (Seq<char>, CallView)| #[trigger] pred(e) == !self@.with_output.contains(e.0),
                forall|e: (Seq<char>, CallView)| #[trigger] getc(e) == e.1,
                call_views(pending_only@) == self@.pending.take(i as int).filter(pred).map_values(
                    getc,
                ),
            decreases self.pending_calls.len() - i,
        {
            proof {
                assert(self@.pending.take(i + 1) =~= self@.pending.take(i as int).push(
                    self@.pending[i as int],
                ));
                self@.pending.take(i as int).lemma_filter_push(self@.pending[i as int], pred);
            }
            let seen = contains_text(&self.calls_with_output, self.pending_calls[i].0.as_str());
            assert(self@.pending[i as int].0 == self.pending_calls@[i as int].0@);
            assert(seen == !pred(self@.pending[i as int]));
            if !seen {
                let ghost old_p = pending_only@;
                pending_only.push(&self.pending_calls[i].1);
                assert(call_views(pending_only@) =~= call_views(old_p).push(
                    call_view(self.pending_calls@[i as int].1),
                ));
                assert(self@.pending.take(i + 1).filter(pred) == self@.pending.take(
                    i as int,
                ).filter(pred).push(self@.pending[i as int]));
                assert(call_views(pending_only@) =~= self@.pending.take(i + 1).filter(
                    pred,
                ).map_values(getc));
            } else {
                assert(call_views(pending_only@) =~= self@.pending.take(i + 1).filter(
                    pred,
                ).map_values(getc));
            }
            i = i + 1;
        }
        assert(self@.pending.take(i as int) =~= self@.pending);
        assert(call_views(pending_only@) =~= calls_without_output(self@));
        let sorted = sort_calls_by_ts(pending_only);
        let ghost calls = call_views(sorted@);
        let mut last: Option<String> = match &self.last_written_block {
            Some(b) => Some(b.clone()),
            None => None,
        };
        let mut k: usize = 0;
        while k < sorted.len()
            invariant
                calls == call_views(sorted@),
                k <= sorted@.len(),
                (views(out@), opt_text(last)) == closing_blocks(calls, k as int, self@.last_block),
            decreases sorted.len() - k,
        {
            let rendered = render_pending_tool_call(sorted[k]);
            if !same_text(&last, rendered.as_str()) {
                let ghost old_o = out@;
                out.push(rendered.clone());
                assert(views(out@) =~= views(old_o).push(rendered@));
                last = Some(rendered);
            }
            k = k + 1;
        }
        out
    }
}

// ---------------------------------------------------------------------------
// Laws
// ---------------------------------------------------------------------------

/// Every call that has an output signature is known to have had an output.
pub open spec fn outputs_recorded(s: ExportView) -> bool {
    forall|i: int| 0 <= i < s.sigs.len() ==> s.with_output.contains(#[trigger] s.sigs[i].0)
}

/// Whether a pending call is not the one under `k`.
pub open spec fn other_call(k: Seq<char>) -> spec_fn((Seq<char>, CallView)) -> bool {
    |e: (Seq<char>, CallView)| e.0 != k
}

/// The state without the pending call under `k`.
pub open spec fn without_call(s: ExportView, k: Seq<char>) -> ExportView {
    ExportView { pending: s.pending.filter(other_call(k)), ..s }
}

proof fn lemma_assoc_put_keys<V>(m: Seq<(Seq<char>, V)>, k: Seq<char>, v: V)
    ensures
        forall|i: int|
            0 <= i < assoc_put(m, k, v).len() ==> #[trigger] assoc_put(m, k, v)[i].0 == k || (i < m.len()
                && assoc_put(m, k, v)[i].0 == m[i].0),
{
    lemma_key_index(m, k, 0);
}

proof fn lemma_filter_twice<A>(s: Seq<A>, f: spec_fn(A) -> bool, g: spec_fn(A) -> bool)
    requires
        forall|x: A| #[trigger] g(x) ==> f(x),
    ensures
        s.filter(f).filter(g) == s.filter(g),
    decreases s.len(),
{
    broadcast use Seq::lemma_filter_push;

    if s.len() > 0 {
        let d = s.drop_last();
        lemma_filter_twice(d, f, g);
        assert(s == d.push(s.last()));
        assert(s.filter(f) == if f(s.last()) {
            d.filter(f).push(s.last())
        } else {
            d.filter(f)
        });
    } else {
        reveal(Seq::filter);
        assert(s.filter(f) =~= s);
    }
}

proof fn lemma_emit_keeps(s: ExportView, block: Option<Seq<char>>, set_reasoning: bool, reasoning: Option<Seq<char>>)
    ensures
        emit(s, block, set_reasoning, reasoning).0.sigs == s.sigs,
        emit(s, block, set_reasoning, reasoning).0.with_output == s.with_output,
{
}

/// A step keeps every call it knew to have had an output, and keeps the
/// calls with an output signature among them; a fresh export starts so.
pub proof fn law_steps_keep_answered_calls(s: ExportView, rec: Json, dur: Seq<char>, mode: ExportMode)
    ensures
        outputs_recorded(initial_view(mode)),
        forall|x: Seq<char>| s.with_output.contains(x) ==> #[trigger] step_spec(s, rec, dur).0.with_output.contains(x),
        outputs_recorded(s) ==> outputs_recorded(step_spec(s, rec, dur).0),
{
    let s1 = step_spec(s, rec, dur).0;
    let payload = record_payload(rec);
    let ptype = match payload {
        Some(p) => jget_str_or(p, "type"@, Seq::empty()),
        None => Seq::empty(),
    };
    let otype = jget_str_or(rec, "type"@, Seq::empty());
    let is_output = s.mode != ExportMode::Compact && s.mode != ExportMode::Json && otype == "response_item"@
        && ptype == "function_call_output"@;
    let ts = jget_str_or(rec, "timestamp"@, Seq::empty());
    reveal_strlit("function_call");
    reveal_strlit("function_call_output");
    if is_output {
        assert(step_spec(s, rec, dur) == medium_response_step(s, ts, payload));
        let p = payload->0;
        let id = jget_str_or(p, "call_id"@, Seq::empty());
        let sig = output_signature_spec(payload);
        if id.len() > 0 && assoc_get(s.sigs, id) != Some(sig) {
            let s2 = ExportView {
                sigs: assoc_put(s.sigs, id, sig),
                with_output: set_add(s.with_output, id),
                ..s
            };
            lemma_emit_keeps(s2, tool_output_spec(ts, payload, assoc_get(s.pending, id), 180), true, None);
            assert(medium_response_step(s, ts, payload) == emit(s2, tool_output_spec(ts, payload, assoc_get(s.pending, id), 180), true, None));
            assert(s1.sigs == s2.sigs && s1.with_output == s2.with_output);
            lemma_assoc_put_keys(s.sigs, id, sig);
            assert forall|x: Seq<char>| s.with_output.contains(x) implies #[trigger] s1.with_output.contains(x) by {
                if !s.with_output.contains(id) {
                    let j = choose|j: int| 0 <= j < s.with_output.len() && s.with_output[j] == x;
                    assert(s1.with_output[j] == x);
                }
            }
            if outputs_recorded(s) {
                assert(s1.with_output.contains(id)) by {
                    if !s.with_output.contains(id) {
                        assert(s1.with_output[s.with_output.len() as int] == id);
                    }
                }
                assert forall|i: int| 0 <= i < s1.sigs.len() implies s1.with_output.contains(#[trigger] s1.sigs[i].0) by {
                    if s1.sigs[i].0 != id {
                        assert(s.with_output.contains(s.sigs[i].0));
                    }
                }
            }
        } else {
            lemma_emit_keeps(s, tool_output_spec(jget_str_or(rec, "timestamp"@, Seq::empty()), payload, assoc_get(s.pending, id), 180), true, None);
            assert(s1.sigs == s.sigs && s1.with_output == s.with_output);
        }
    } else {
        assert(s1.sigs == s.sigs && s1.with_output == s.with_output);
    }
}

/// Stepping the output of a call (a `function_call_output` with a non-empty
/// call id) in a medium or full transcript marks the call as answered.
pub proof fn law_output_marks_call_answered(s: ExportView, rec: Json, dur: Seq<char>)
    requires
        s.mode == ExportMode::Medium || s.mode == ExportMode::Full,
        outputs_recorded(s),
        jget_str_or(rec, "type"@, Seq::empty()) == "response_item"@,
        record_payload(rec) is Some,
        jget_str_or(record_payload(rec)->0, "type"@, Seq::empty()) == "function_call_output"@,
        jget_str_or(record_payload(rec)->0, "call_id"@, Seq::empty()).len() > 0,
    ensures
        step_spec(s, rec, dur).0.with_output.contains(
            jget_str_or(record_payload(rec)->0, "call_id"@, Seq::empty()),
        ),
{
    let p = record_payload(rec)->0;
    let id = jget_str_or(p, "call_id"@, Seq::empty());
    let payload = record_payload(rec);
    let sig = output_signature_spec(payload);
    let s1 = step_spec(s, rec, dur).0;
    let ts = jget_str_or(rec, "timestamp"@, Seq::empty());
    reveal_strlit("function_call");
    reveal_strlit("function_call_output");
    assert(step_spec(s, rec, dur) == medium_response_step(s, ts, payload));
    if assoc_get(s.sigs, id) == Some(sig) {
        assert(s1 == s);
        lemma_key_index(s.sigs, id, 0);
        let i = key_index(s.sigs, id, 0);
        assert(s.with_output.contains(s.sigs[i].0));
    } else {
        let s2 = ExportView {
            sigs: assoc_put(s.sigs, id, sig),
            with_output: set_add(s.with_output, id),
            ..s
        };
        lemma_emit_keeps(s2, tool_output_spec(ts, payload, assoc_get(s.pending, id), 180), true, None);
        assert(medium_response_step(s, ts, payload) == emit(s2, tool_output_spec(ts, payload, assoc_get(s.pending, id), 180), true, None));
        if !s.with_output.contains(id) {
            assert(s1.with_output[s.with_output.len() as int] == id);
        }
    }
}

/// The closing sections leave out every call known to have had an output:
/// they are those of the state without that call.
pub proof fn law_closing_skips_answered_calls(s: ExportView, k: Seq<char>)
    requires
        s.with_output.contains(k),
    ensures
        finish_spec(s) == finish_spec(without_call(s, k)),
{
    let t = without_call(s, k);
    let f = other_call(k);
    let g = |e: (Seq<char>, CallView)| !s.with_output.contains(e.0);
    let g2 = |e: (Seq<char>, CallView)| !t.with_output.contains(e.0);
    assert(g2 =~= g);
    assert(t.pending == s.pending.filter(f));
    assert forall|x: (Seq<char>, CallView)| #[trigger] g(x) implies f(x) by {}
    lemma_filter_twice(s.pending, f, g);
    assert(t.pending.filter(g2) == s.pending.filter(g));
    assert(calls_without_output(t) == calls_without_output(s));
}

/// A compact transcript keeps user and assistant messages only: every
/// section it writes is a `USER` or an `ASSISTANT` section.
pub proof fn law_compact_writes_only_messages(s: ExportView, rec: Json, dur: Seq<char>)
    requires
        s.mode == ExportMode::Compact,
    ensures
        step_spec(s, rec, dur).1 matches Some(b) ==> exists|ts: Seq<char>, text: Seq<char>|
            b == section_spec(ts, "USER"@, text) || b == section_spec(ts, "ASSISTANT"@, text),
{
    let ts = jget_str_or(rec, "timestamp"@, Seq::empty());
    let payload = record_payload(rec);
    let (block, idx) = compact_item_spec(ts, payload, s.image_idx);
    if let Some(b) = block {
        let p = payload->0;
        let role = jget_str_or(p, "role"@, "unknown"@);
        let (parts, idx2) = crate::exporter::items::message_parts_spec(jget(p, "content"@), s.image_idx, true);
        let text = crate::text::join(parts, "\n"@);
        if role == "user"@ {
            assert(b == section_spec(ts, "USER"@, text));
        } else {
            assert(b == section_spec(ts, "ASSISTANT"@, text));
        }
    }
}

/// Consecutive sections of a transcript differ: a step that writes a
/// section writes one other than the last, and the closing sections of a
/// medium or full transcript never repeat the one before them.
pub proof fn law_closing_sections_never_repeat(s: ExportView)
    ensures
        forall|i: int|
            0 <= i < finish_spec(s).len() ==> (if i == 0 {
                s.last_block != Some(#[trigger] finish_spec(s)[i])
            } else {
                finish_spec(s)[i - 1] != finish_spec(s)[i]
            }),
{
    if s.mode == ExportMode::Medium || s.mode == ExportMode::Full {
        let calls = sort_by_ts(calls_without_output(s));
        lemma_closing_blocks_distinct(calls, calls.len() as int, s.last_block);
    }
}

proof fn lemma_closing_blocks_distinct(calls: Seq<CallView>, n: int, last: Option<Seq<char>>)
    ensures
        ({
            let (out, l) = closing_blocks(calls, n, last);
            &&& (out.len() == 0 ==> l == last)
            &&& (out.len() > 0 ==> l == Some(out.last()))
            &&& forall|i: int|
                0 <= i < out.len() ==> (if i == 0 {
                    last != Some(#[trigger] out[i])
                } else {
                    out[i - 1] != out[i]
                })
        }),
    decreases n,
{
    if !(n <= 0 || n > calls.len()) {
        lemma_closing_blocks_distinct(calls, n - 1, last);
    }
}

} // verus!
