use b_revamp::exporter::lookup::{names_markdown_file, transcript_file_name};
use b_revamp::exporter::lookup::{catalog_locations, rollout_bases, rollout_from_catalog_lines, RolloutBase};
use b_revamp::exporter::items::summarize_tool_call;
use b_revamp::exporter::lookup::{
    catalog_entry, first_session_meta, is_rollout_file, is_rollout_match, render_header,
    rollout_path_for_session, rollout_path_from_scan, rollout_search_roots, rollout_sort_key,
    CatalogEntry,
};
use b_revamp::exporter::markdown::{
    collapse_ws, escape_heading_lines, inline_code, is_auto_system_status_message,
    is_medium_event_worthy, is_noise_line, markdown_blockquote, markdown_fence, markdown_section,
    rollout_rel_candidates, scrub_noise_lines, shorten, should_include_medium_output,
    truncate_with_indicator,
};
use b_revamp::exporter::records::render_medium_response_item;
use b_revamp::exporter::transcript::{parse_rollout_line, ExportState};
use b_revamp::exporter::outputs::nth_last_assistant_output;
use b_revamp::exporter::ExportMode;
use b_revamp::json::JsonValue;

fn json(text: &str) -> JsonValue {
    parse_rollout_line(text, "rollout.jsonl").expect("valid json")
}

fn transcript(mode: ExportMode, records: &[&str]) -> String {
    let mut state = ExportState::new(mode);
    let mut out = String::new();
    for text in records {
        let rec = json(text);
        assert!(state.has_room_for(&rec));
        if let Some(block) = state.step(&rec, "") {
            out.push_str(&block);
        }
    }
    for block in state.finish() {
        out.push_str(&block);
    }
    out
}

#[test]
fn reasoning_medium_uses_full_summary_and_skips_encrypted() {
    let payload = json(
        r#"{"type":"reasoning","summary":[{"type":"summary_text","text":"**Inspecting repo and test commands**"}],"content":null,"encrypted_content":"super-secret"}"#,
    );
    let mut img = 0usize;
    let rendered =
        render_medium_response_item("2026-03-06T15:17:06.776Z", Some(&payload), &mut img, 240)
            .expect("rendered");
    assert!(rendered.contains("### [2026-03-06T15:17:06.776Z] REASONING"));
    assert!(rendered.contains("> **Inspecting repo and test commands**"));
    assert!(!rendered.contains("encrypted_content"));
    assert!(!rendered.contains("content={}"));
}

#[test]
fn reasoning_medium_skips_empty_summary() {
    let payload =
        json(r#"{"type":"reasoning","summary":[],"content":null,"encrypted_content":"super-secret"}"#);
    let mut img = 0usize;
    let rendered =
        render_medium_response_item("2026-03-06T15:17:06.776Z", Some(&payload), &mut img, 240);
    assert!(rendered.is_none());
}

#[test]
fn medium_escapes_markdown_headings_inside_messages() {
    let payload = json(
        "{\"type\":\"message\",\"role\":\"user\",\"content\":[{\"type\":\"input_text\",\"text\":\"### heading\\nnormal line\"}]}",
    );
    let mut img = 0usize;
    let rendered =
        render_medium_response_item("2026-03-07T15:45:37.004Z", Some(&payload), &mut img, 180)
            .expect("rendered");
    assert!(rendered.contains("\\### heading"));
    assert!(!rendered.contains("\n### heading\n"));
    assert!(rendered.contains("normal line"));
}

fn shell_args() -> JsonValue {
    json(
        r#"{"command":["bash","-lc","set -euo pipefail base=\"evidence/2026-03-03/revision-matrix\" mkdir -p \"$base\" echo SENTINEL_END"],"workdir":"/tmp"}"#,
    )
}

#[test]
fn full_shell_call_summary_keeps_full_command() {
    let summary = summarize_tool_call("shell", &shell_args(), 40, true);
    assert!(summary.contains("SENTINEL_END"));
    assert!(summary.contains("```bash"));
}

#[test]
fn medium_shell_call_summary_is_abbreviated() {
    let summary = summarize_tool_call("shell", &shell_args(), 40, false);
    assert!(summary.contains("- call: `set -euo pipefail"));
    assert!(summary.contains("(+"));
    assert!(!summary.contains("```bash"));
}

#[test]
fn medium_update_plan_call_summary_has_no_ellipsis() {
    let args = json(
        r#"{"name":"Version Recon + Docs","plan":[{"step":"Run torsocks-only version probes","status":"in_progress"},{"step":"Extract verifiable version indicators","status":"pending"}]}"#,
    );
    let summary = summarize_tool_call("update_plan", &args, 40, false);
    assert!(summary.contains("- plan: Version Recon + Docs"));
    assert!(summary.contains("- [ ] Run torsocks-only version probes (in progress)"));
    assert!(summary.contains("torsocks-only version probes"));
    assert!(!summary.contains("..."));
}

#[test]
fn scrub_noise_lines_preserves_mentions() {
    let text = "Mention encrypted_content in docs\nshow \"encrypted_content\" example";
    assert_eq!(scrub_noise_lines(text), text);
}

#[test]
fn scrub_noise_lines_removes_only_noise_assignments() {
    let text = "keep this line\nencrypted_content=abc\ncontent={}\nkeep final";
    assert_eq!(scrub_noise_lines(text), "keep this line\nkeep final");
}

#[test]
fn scrub_noise_lines_removes_json_style_encrypted_content() {
    let text = "{\"type\":\"reasoning\",\"encrypted_content\":\"abc\"}";
    assert_eq!(scrub_noise_lines(text), "");
}

#[test]
fn scrub_noise_lines_removes_json_style_encrypted_content_with_spacing() {
    let text = "{\"type\":\"reasoning\", \"encrypted_content\" : \"abc\"}";
    assert_eq!(scrub_noise_lines(text), "");
}

#[test]
fn markdown_helpers_give_exact_text() {
    assert_eq!(markdown_section("T", "USER", "hi  \n"), "### [T] USER\n\nhi\n\n");
    assert_eq!(markdown_fence("bash", "a ``` b\n"), "```bash\na ``\\` b\n```\n");
    assert_eq!(markdown_blockquote("a\nb"), "> a\n> b");
    assert_eq!(inline_code("a`b`"), "a'b'");
    assert_eq!(collapse_ws("  a \t b\n c "), "a b c");
    assert_eq!(escape_heading_lines("# x\ny\n  ## z"), "\\# x\ny\n  \\## z");
}

#[test]
fn shorten_and_truncate_cut_at_the_limit() {
    assert_eq!(shorten("abc", 5), "abc");
    assert_eq!(truncate_with_indicator("abcdef", 10), "abcdef");
    assert_eq!(truncate_with_indicator("abc def", 4), "abc (+3 chars)");
    assert!(shorten("abcdefghij", 5).chars().count() <= 5);
}

#[test]
fn medium_output_and_events_are_filtered() {
    assert!(should_include_medium_output(Some(1), "fine"));
    assert!(should_include_medium_output(None, "an ERROR happened"));
    assert!(!should_include_medium_output(Some(0), "all good"));
    assert!(is_medium_event_worthy("exec_failed"));
    assert!(!is_medium_event_worthy("token_count"));
    assert!(!is_noise_line("plain text"));
    assert!(is_noise_line("content={}"));
    assert!(is_auto_system_status_message(&vec![
        "== System Status ==".to_string(),
        "[automatic message added by system]".to_string()
    ]));
}

#[test]
fn snapshot_catalog_path_also_tries_jsonl() {
    assert_eq!(
        rollout_rel_candidates("a/rollout-1.snapshot.json"),
        vec!["a/rollout-1.snapshot.json".to_string(), "a/rollout-1.jsonl".to_string()]
    );
    assert_eq!(rollout_rel_candidates("a/rollout-1.jsonl"), vec!["a/rollout-1.jsonl".to_string()]);
}

#[test]
fn catalog_lines_are_read_for_the_session() {
    let sid = "79fe0ea5-f15d-4b40-88fb-15e9b4dd2991";
    match catalog_entry(
        r#"{"session_id":"79fe0ea5-f15d-4b40-88fb-15e9b4dd2991","rollout_path":"sessions/x.jsonl","deleted":false}"#,
        sid,
    ) {
        CatalogEntry::Candidates(c) => assert_eq!(c, vec!["sessions/x.jsonl".to_string()]),
        _ => panic!("expected candidates"),
    }
    assert!(matches!(catalog_entry("   ", sid), CatalogEntry::Skip));
    assert!(matches!(catalog_entry("not json", sid), CatalogEntry::Skip));
    assert!(matches!(
        catalog_entry(r#"{"session_id":"other","rollout_path":"x"}"#, sid),
        CatalogEntry::Skip
    ));
    match catalog_entry(
        r#"{"session_id":"79fe0ea5-f15d-4b40-88fb-15e9b4dd2991","deleted":true}"#,
        sid,
    ) {
        CatalogEntry::Refused(m) => {
            assert_eq!(m, format!("Session {} is marked deleted in catalog", sid))
        }
        _ => panic!("expected refusal"),
    }
    match catalog_entry(r#"{"session_id":"79fe0ea5-f15d-4b40-88fb-15e9b4dd2991"}"#, sid) {
        CatalogEntry::Refused(m) => {
            assert_eq!(m, format!("Session {} missing rollout_path in catalog", sid))
        }
        _ => panic!("expected refusal"),
    }
}

#[test]
fn rollout_lookup_falls_back_to_scan_then_fails() {
    assert_eq!(
        rollout_path_for_session(Ok(Some("a".to_string())), Some("b".to_string()), "s", "/c"),
        Ok("a".to_string())
    );
    assert_eq!(rollout_path_for_session(Ok(None), Some("b".to_string()), "s", "/c"), Ok("b".to_string()));
    assert_eq!(
        rollout_path_for_session(Err("bad".to_string()), Some("b".to_string()), "s", "/c"),
        Err("bad".to_string())
    );
    assert_eq!(
        rollout_path_for_session(Ok(None), None, "s", "/c"),
        Err("Session not found: s (searched catalog and rollout files under /c)".to_string())
    );
}

#[test]
fn scan_picks_the_most_recent_rollout() {
    assert!(is_rollout_file("rollout-2026.jsonl"));
    assert!(!is_rollout_file("rollout-2026.json"));
    assert!(is_rollout_match("rollout-2026-AAAA.jsonl", "aaaa"));
    assert!(!is_rollout_match("rollout-2026-AAAA.jsonl", "bbbb"));
    let old = rollout_sort_key(Some(1_000), "/x/rollout-a.jsonl");
    let new = rollout_sort_key(Some(10), "/x/rollout-b.jsonl");
    let unknown = rollout_sort_key(None, "/x/rollout-c.jsonl");
    assert_eq!(new.0, u128::MAX - 10);
    assert_eq!(unknown.0, 0);
    assert_eq!(
        rollout_path_from_scan(&vec![old, new, unknown]),
        Some("/x/rollout-b.jsonl".to_string())
    );
    assert_eq!(rollout_path_from_scan(&Vec::new()), None);
}

#[test]
fn search_roots_follow_the_code_dir_name() {
    assert_eq!(
        rollout_search_roots("/h/.code", Some(".code"), Some("/h"), Some("/h/.code/sessions")),
        vec!["/h/.code/sessions".to_string()]
    );
    assert_eq!(
        rollout_search_roots("/h/.code/Sessions", Some("Sessions"), Some("/h/.code"), None),
        vec!["/h/.code/Sessions".to_string()]
    );
    assert_eq!(
        rollout_search_roots("/h/.code/sessions/index", Some("index"), Some("/h/.code/sessions"), None),
        vec!["/h/.code/sessions".to_string()]
    );
    assert_eq!(rollout_search_roots("/x", Some("x"), Some("/"), None), vec!["/x".to_string()]);
}

#[test]
fn header_lists_session_meta() {
    let meta = json(r#"{"timestamp":"T0","cwd":"/w","originator":"code_cli_rs","cli_version":"0.0.0","other":1}"#);
    let h = render_header("sid", ExportMode::Medium, "NOW", Some(&meta));
    assert_eq!(
        h,
        "# Chat Transcript\n\nSession ID: sid\n\nExport Mode: medium\nExported At (UTC): NOW\n\nSession Meta:\n- timestamp: T0\n- cwd: /w\n- originator: code_cli_rs\n- cli_version: 0.0.0\n\n---\n\n"
    );
    let bare = render_header("sid", ExportMode::Compact, "NOW", None);
    assert_eq!(bare, "# Chat Transcript\n\nSession ID: sid\n\nExport Mode: compact\nExported At (UTC): NOW\n\n---\n\n");
}

#[test]
fn first_session_meta_skips_bad_lines() {
    let lines = vec![
        "garbage".to_string(),
        r#"{"type":"response_item"}"#.to_string(),
        r#"{"type":"session_meta","payload":{"cwd":"/p"}}"#.to_string(),
    ];
    let meta = first_session_meta(&lines).expect("meta");
    assert_eq!(meta.get("cwd").and_then(|v| v.as_str()), Some("/p"));
    assert!(first_session_meta(&vec!["x".to_string()]).is_none());
}

#[test]
fn transcript_medium_coalesces_tool_call_and_output() {
    let body = transcript(
        ExportMode::Medium,
        &[
            r#"{"timestamp":"2026-03-07T15:00:01.000Z","type":"response_item","payload":{"type":"function_call","name":"shell","call_id":"call_abc","arguments":"{\"command\":[\"bash\",\"-lc\",\"cargo test\"],\"workdir\":\"/home/wavy/ai/b-revamp\"}"}}"#,
            r#"{"timestamp":"2026-03-07T15:00:02.000Z","type":"response_item","payload":{"type":"function_call_output","call_id":"call_abc","output":"{\"output\":\"this output is intentionally long to be omitted in medium mode because successful commands should stay concise and focused\",\"metadata\":{\"exit_code\":0,\"duration_seconds\":1.2}}"}}"#,
        ],
    );
    assert!(body.contains("TOOL `shell`"));
    assert!(body.contains("- call: `cargo test`"));
    assert!(body.contains("- exit_code: 0"));
    assert!(!body.contains("- output:"));
    assert!(!body.contains("TOOL_CALL `shell`"));
    assert!(!body.contains("```bash"));
}

#[test]
fn transcript_full_keeps_detailed_shell_call_and_output() {
    let body = transcript(
        ExportMode::Full,
        &[
            r#"{"timestamp":"2026-03-07T15:00:01.000Z","type":"response_item","payload":{"type":"function_call","name":"shell","call_id":"call_abc","arguments":"{\"command\":[\"bash\",\"-lc\",\"cargo test\"],\"workdir\":\"/home/wavy/ai/b-revamp\"}"}}"#,
            r#"{"timestamp":"2026-03-07T15:00:02.000Z","type":"response_item","payload":{"type":"function_call_output","call_id":"call_abc","output":"{\"output\":\"ok\",\"metadata\":{\"exit_code\":0,\"duration_seconds\":1.2}}"}}"#,
        ],
    );
    assert!(body.contains("TOOL `shell`"));
    assert!(body.contains("- cwd: `/home/wavy/ai/b-revamp`"));
    assert!(body.contains("```bash\ncargo test\n```"));
    assert!(body.contains("- exit_code: 0"));
}

#[test]
fn transcript_medium_keeps_call_without_output() {
    let body = transcript(
        ExportMode::Medium,
        &[r#"{"timestamp":"2026-03-07T15:00:01.000Z","type":"response_item","payload":{"type":"function_call","name":"shell","call_id":"call_missing","arguments":"{\"command\":[\"bash\",\"-lc\",\"echo hello\"],\"workdir\":\"/home/wavy/ai/b-revamp\"}"}}"#],
    );
    assert!(body.contains("TOOL `shell`"));
    assert!(body.contains("echo hello"));
}

#[test]
fn transcript_medium_keeps_call_without_call_id() {
    let body = transcript(
        ExportMode::Medium,
        &[r#"{"timestamp":"2026-03-07T15:00:01.000Z","type":"response_item","payload":{"type":"function_call","name":"shell","arguments":"{\"command\":[\"bash\",\"-lc\",\"echo missing-call-id\"]}"}}"#],
    );
    assert!(body.contains("TOOL `shell`"));
    assert!(body.contains("missing-call-id"));
}

#[test]
fn transcript_medium_dedupes_consecutive_reasoning() {
    let body = transcript(
        ExportMode::Medium,
        &[
            r#"{"timestamp":"2026-03-07T16:00:01.000Z","type":"response_item","payload":{"type":"reasoning","summary":[{"type":"summary_text","text":"**Duplicate summary**"}],"encrypted_content":"cipher-a"}}"#,
            r#"{"timestamp":"2026-03-07T16:00:01.200Z","type":"response_item","payload":{"type":"reasoning","summary":[{"type":"summary_text","text":"**Duplicate summary**"}],"encrypted_content":"cipher-b"}}"#,
        ],
    );
    assert_eq!(body.matches("### [2026-03-07T16:00:01.").count(), 1);
    assert_eq!(body.matches("**Duplicate summary**").count(), 1);
    assert!(!body.contains("cipher-"));
}

#[test]
fn transcript_compact_keeps_messages_only() {
    let body = transcript(
        ExportMode::Compact,
        &[
            r#"{"timestamp":"T1","type":"response_item","payload":{"type":"message","role":"user","content":[{"type":"input_text","text":"hello"}]}}"#,
            r#"{"timestamp":"T2","type":"response_item","payload":{"type":"reasoning","summary":[{"type":"summary_text","text":"thinking"}]}}"#,
            r#"{"timestamp":"T3","type":"response_item","payload":{"type":"message","role":"assistant","content":[{"type":"output_text","text":"hi there"}]}}"#,
            r#"{"timestamp":"T4","type":"event","payload":{"type":"exec_failed"}}"#,
        ],
    );
    assert_eq!(body, "### [T1] USER\n\nhello\n\n### [T3] ASSISTANT\n\nhi there\n\n");
}

#[test]
fn transcript_skips_a_repeated_section() {
    let rec = r#"{"timestamp":"T1","type":"response_item","payload":{"type":"message","role":"assistant","content":[{"type":"output_text","text":"same"}]}}"#;
    let body = transcript(ExportMode::Compact, &[rec, rec]);
    assert_eq!(body, "### [T1] ASSISTANT\n\nsame\n\n");
}

#[test]
fn transcript_closes_with_pending_calls_by_time() {
    let body = transcript(
        ExportMode::Medium,
        &[
            r#"{"timestamp":"T9","type":"response_item","payload":{"type":"function_call","name":"late","call_id":"b","arguments":"{}"}}"#,
            r#"{"timestamp":"T1","type":"response_item","payload":{"type":"function_call","name":"early","call_id":"a","arguments":"{}"}}"#,
        ],
    );
    let early = body.find("TOOL `early`").expect("early");
    let late = body.find("TOOL `late`").expect("late");
    assert!(early < late);
}

#[test]
fn json_mode_uppercases_roles_and_prints_pretty_json() {
    let body = transcript(
        ExportMode::Json,
        &[
            r#"{"timestamp":"T1","type":"response_item","payload":{"type":"message","role":"assistant","content":[{"type":"output_text","text":"hey"}]}}"#,
            r#"{"timestamp":"T2","type":"event","payload":{"a":1}}"#,
        ],
    );
    assert_eq!(
        body,
        "### [T1] ASSISTANT\n\nhey\n\n### [T2] EVENT\n\n```json\n{\n  \"a\": 1\n}\n```\n\n"
    );
}

#[test]
fn update_plan_without_steps_prints_compact_arguments() {
    let args = json(r#"{"x": 1}"#);
    assert_eq!(summarize_tool_call("update_plan", &args, 40, false), "- call: update_plan {\"x\":1}");
}

#[test]
fn rollout_line_that_is_not_json_names_the_file() {
    let err = match parse_rollout_line("{not json", "/tmp/r.jsonl") {
        Ok(_) => panic!("a line that is not JSON must be refused"),
        Err(e) => e,
    };
    assert!(err.starts_with("invalid jsonl in /tmp/r.jsonl: "));
    assert!(err.len() > "invalid jsonl in /tmp/r.jsonl: ".len());
}

fn assistant_line(text: &str) -> String {
    format!(
        r#"{{"timestamp":"t","type":"response_item","payload":{{"type":"message","role":"assistant","content":[{{"type":"output_text","text":"{}"}}]}}}}"#,
        text
    )
}

#[test]
fn nth_last_assistant_output_counts_from_the_end() {
    let lines = vec![
        assistant_line("first"),
        r#"{"type":"response_item","payload":{"type":"message","role":"user","content":[{"type":"input_text","text":"hi"}]}}"#.to_string(),
        "not json".to_string(),
        assistant_line("second"),
        assistant_line("   "),
        r#"{"type":"response_item","payload":{"type":"message","role":"assistant","content":[{"type":"output_text","text":"a"},{"type":"reasoning","text":"x"},{"type":"output_text","text":"b"}]}}"#.to_string(),
    ];
    assert_eq!(nth_last_assistant_output(&lines, 1).as_deref(), Some("a\n\nb"));
    assert_eq!(nth_last_assistant_output(&lines, 2).as_deref(), Some("second"));
    assert_eq!(nth_last_assistant_output(&lines, 3).as_deref(), Some("first"));
    assert_eq!(nth_last_assistant_output(&lines, 4), None);
    assert_eq!(nth_last_assistant_output(&lines, 0), None);
}

#[test]
fn collapsing_whitespace_twice_changes_nothing() {
    let once = collapse_ws(" a \t b\n\n c  ");
    assert_eq!(once, "a b c");
    assert_eq!(collapse_ws(&once), once);
    assert_eq!(collapse_ws("   "), "");
}

#[test]
fn catalog_lookup_stops_at_first_refusal_or_found_path() {
    assert_eq!(
        catalog_locations(),
        vec!["sessions/index/catalog.jsonl".to_string(), "index/catalog.jsonl".to_string(), "catalog.jsonl".to_string()]
    );
    assert_eq!(rollout_bases(true), vec![RolloutBase::AsGiven]);
    assert_eq!(
        rollout_bases(false),
        vec![RolloutBase::CodeDir, RolloutBase::CodeDirParent, RolloutBase::SessionsDir]
    );
    let lines = vec![
        r#"{"session_id":"other","rollout_path":"x.jsonl","deleted":false}"#.to_string(),
        "not json".to_string(),
        r#"{"session_id":"s1","rollout_path":"missing.jsonl","deleted":false}"#.to_string(),
        r#"{"session_id":"s1","rollout_path":"found.jsonl","deleted":false}"#.to_string(),
    ];
    let resolve = |rel: &String| if rel.contains("found") { Some(format!("/code/{}", rel)) } else { None };
    assert_eq!(rollout_from_catalog_lines(&lines, "s1", resolve), Ok(Some("/code/found.jsonl".to_string())));
    assert_eq!(rollout_from_catalog_lines(&lines, "nobody", resolve), Ok(None));
    let deleted = vec![r#"{"session_id":"s1","rollout_path":"found.jsonl","deleted":true}"#.to_string()];
    assert!(rollout_from_catalog_lines(&deleted, "s1", resolve).is_err());
}

#[test]
fn output_path_is_markdown_file_or_directory() {
    assert!(names_markdown_file(Some("md")));
    assert!(names_markdown_file(Some("MD")));
    assert!(!names_markdown_file(Some("txt")));
    assert!(!names_markdown_file(None));
    assert_eq!(transcript_file_name("abc-1"), "abc-1.md");
}

#[test]
fn collapsed_text_is_single_spaced() {
    for text in ["  a\t\tb \n c  ", "\u{a0}x\u{2003}y", "", " \t "] {
        let r = collapse_ws(text);
        assert!(!r.starts_with(char::is_whitespace));
        assert!(!r.ends_with(char::is_whitespace));
        assert!(!r.contains("  "));
        assert!(r.chars().all(|c| c == ' ' || !c.is_whitespace()));
    }
}
