use b_revamp::panes::cwd_catalog_entries_newest_first;
use b_revamp::panes::find_coder_session_id;
use b_revamp::layout::{
    age_band, ago_text, centered_rect, delete_last_word, desired_sessions_panel_width, ellipsize,
    list_columns, modal_size, sessions_column_width, AgeBand, Area,
};
use b_revamp::panes::{
    pane_paths_in_order, pane_ttys_in_order, parse_pids, plan_session_preview,
    rollout_search_roots, session_id_from_fd_target, session_ids_from_cwd_scan_rollouts,
    session_ids_matching_cwd, session_meta_cwd, session_preview_data, tty_short, PreviewPlan,
    cwd_catalog_entry,
};
use b_revamp::sessions::{
    extract_session_id_from_path, filter_and_sort, fuzzy_score, is_subsequence, list_sessions,
    normalize_path_for_compare_on, normalize_session_name, parse_i64, parse_tmux_session_line,
    paths_match, paths_match_on, SessionInfo,
};

#[test]
fn normalize_name_basic() {
    assert_eq!(normalize_session_name("test"), "test");
    assert_eq!(normalize_session_name(" bad/name "), "bad_name");
    assert_eq!(normalize_session_name("..."), "...");
}

#[test]
fn normalize_name_invalid() {
    assert_eq!(normalize_session_name("   "), "");
    assert_eq!(normalize_session_name("!!!"), "");
}

#[test]
fn normalize_name_collapses_and_strips_underscores() {
    assert_eq!(normalize_session_name("__a  //  b__"), "a_b");
    assert_eq!(normalize_session_name("héllo wörld"), "h_llo_w_rld");
    let once = normalize_session_name("  my feature/branch!! ");
    assert_eq!(once, "my_feature_branch");
    assert_eq!(normalize_session_name(&once), once);
}

#[test]
fn fuzzy_ranking_prefers_exact_and_prefix() {
    let exact = fuzzy_score("abc", "abc");
    let prefix = fuzzy_score("abc", "abcdef");
    let contains = fuzzy_score("abc", "xabcx");
    assert!(exact > prefix);
    assert!(prefix > contains);
}

#[test]
fn fuzzy_scores_are_exact() {
    assert_eq!(fuzzy_score("", "anything"), 0);
    assert_eq!(fuzzy_score("abc", "abc"), 1_000_000);
    assert_eq!(fuzzy_score("abc", "abcdef"), 500_000 - 6);
    assert_eq!(fuzzy_score("abc", "xabcx"), 400_000 - 100 - 5);
    assert_eq!(is_subsequence("ac", "abc"), (true, 1));
    assert_eq!(fuzzy_score("ac", "abc"), 300_000 - 10 - 3);
    assert_eq!(fuzzy_score("zz", "abc"), -1_000_000_000);
    assert_eq!(is_subsequence("zz", "abc"), (false, 1_000_000_000));
    assert_eq!(is_subsequence("éb", "aébc"), (true, 1));
    assert_eq!(is_subsequence("ab", "aéb"), (true, 2));
}

#[test]
fn desired_session_width_grows_for_longer_names() {
    let short = vec![SessionInfo::new("abc".to_string(), 0, 0, 0)];
    let long = vec![SessionInfo::new("a-very-long-session-name".to_string(), 0, 0, 0)];
    assert!(desired_sessions_panel_width(&long) > desired_sessions_panel_width(&short));
}

#[test]
fn desired_session_width_is_clamped() {
    let extreme = vec![SessionInfo::new("x".repeat(500), 0, 0, 0)];
    assert_eq!(desired_sessions_panel_width(&extreme), 60);
}

#[test]
fn desired_session_width_of_no_sessions() {
    assert_eq!(desired_sessions_panel_width(&[]), 28);
}

#[test]
fn extracts_session_id_from_rollout_path() {
    let path = "/home/wavy/.code/sessions/2026/03/06/rollout-2026-03-06T15-08-26-5567a4cb-9214-4a08-a377-28bb71eb5b44.jsonl";
    assert_eq!(
        extract_session_id_from_path(path).as_deref(),
        Some("5567a4cb-9214-4a08-a377-28bb71eb5b44")
    );
}

#[test]
fn session_id_needs_a_full_uuid() {
    assert_eq!(extract_session_id_from_path("/x/rollout-2026-03-06.jsonl"), None);
    assert_eq!(
        extract_session_id_from_path("A-5567A4CB-9214-4A08-A377-28BB71EB5B44-b").as_deref(),
        Some("5567A4CB-9214-4A08-A377-28BB71EB5B44")
    );
}

#[test]
fn path_compare_ignores_trailing_slash() {
    assert!(paths_match("/home/wavy/project/", "/home/wavy/project"));
}

#[test]
fn path_compare_normalizes_separator() {
    assert!(paths_match("C:/Users/test/.code", "C:\\Users\\test\\.code"));
}

#[test]
fn path_compare_folds_case_on_windows_only() {
    assert!(paths_match_on("C:/Users/Test", "c:\\users\\test\\", true));
    assert!(!paths_match_on("C:/Users/Test", "c:\\users\\test\\", false));
    assert_eq!(normalize_path_for_compare_on("/", false), "/");
    assert_eq!(normalize_path_for_compare_on("a\\b//", false), "a/b");
}

#[test]
fn parse_tmux_session_line_prefers_formatted_fields() {
    let parsed = parse_tmux_session_line("alpha\t10\t20\t30").expect("parsed");
    assert_eq!(parsed.name, "alpha");
    assert_eq!(parsed.last_attached, 10);
    assert_eq!(parsed.activity, 20);
    assert_eq!(parsed.created, 30);
}

#[test]
fn parse_tmux_session_line_falls_back_for_default_output() {
    let parsed =
        parse_tmux_session_line("test-thing: 1 windows (created Wed Mar 18 12:51:39 2026)").expect("parsed");
    assert_eq!(parsed.name, "test-thing");
    assert_eq!(parsed.last_attached, 0);
    assert_eq!(parsed.activity, 0);
    assert_eq!(parsed.created, 0);
}

#[test]
fn parse_tmux_session_line_edge_cases() {
    assert!(parse_tmux_session_line("   ").is_none());
    let t = parse_tmux_session_line("\t1\t2").expect("parsed");
    assert_eq!((t.name.as_str(), t.last_attached), ("1", 2));
    let p = parse_tmux_session_line("Name\tx\t-5").expect("parsed");
    assert_eq!((p.name.as_str(), p.name_lc.as_str(), p.last_attached, p.activity, p.created), ("Name", "name", 0, -5, 0));
    let q = parse_tmux_session_line("odd: thing").expect("parsed");
    assert_eq!(q.name, "odd: thing");
}

#[test]
fn parse_i64_follows_str_parse() {
    assert_eq!(parse_i64(" 42 "), 42);
    assert_eq!(parse_i64("+7"), 7);
    assert_eq!(parse_i64("-9223372036854775808"), i64::MIN);
    assert_eq!(parse_i64("9223372036854775807"), i64::MAX);
    assert_eq!(parse_i64("9223372036854775808"), 0);
    assert_eq!(parse_i64("-"), 0);
    assert_eq!(parse_i64("1a"), 0);
    assert_eq!(parse_i64(""), 0);
}

#[test]
fn sessions_sort_by_recency_then_name() {
    let sessions = vec![
        SessionInfo::new("beta".to_string(), 5, 0, 0),
        SessionInfo::new("Alpha".to_string(), 0, 5, 0),
        SessionInfo::new("gamma".to_string(), 0, 0, 9),
    ];
    assert_eq!(list_sessions(&sessions), vec!["gamma".to_string(), "Alpha".to_string(), "beta".to_string()]);
    let sorted = filter_and_sort(&sessions, "");
    assert_eq!(sorted.len(), 3);
    assert_eq!(sorted[0].name, "gamma");
    assert_eq!(sessions[0].sort_ts(), 5);
}

#[test]
fn fuzzy_filter_ranks_by_match_then_recency() {
    let sessions = vec![
        SessionInfo::new("xabc".to_string(), 100, 0, 0),
        SessionInfo::new("ABC".to_string(), 0, 0, 0),
        SessionInfo::new("abcd".to_string(), 0, 0, 0),
        SessionInfo::new("zzz".to_string(), 999, 0, 0),
        SessionInfo::new("a_b_c".to_string(), 0, 0, 0),
    ];
    let names: Vec<String> = filter_and_sort(&sessions, "Abc").into_iter().map(|s| s.name).collect();
    assert_eq!(names, vec!["ABC", "abcd", "xabc", "a_b_c"]);
}

#[test]
fn ellipsize_cuts_with_an_ellipsis() {
    assert_eq!(ellipsize("abcdef", 0), "");
    assert_eq!(ellipsize("abc", 3), "abc");
    assert_eq!(ellipsize("abcdef", 1), "…");
    assert_eq!(ellipsize("abcdef", 4), "abc…");
}

#[test]
fn delete_last_word_drops_trailing_word() {
    let mut s = "feature branch".to_string();
    delete_last_word(&mut s);
    assert_eq!(s, "feature ");
    let mut t = "one two   ".to_string();
    delete_last_word(&mut t);
    assert_eq!(t, "one ");
    let mut u = "   ".to_string();
    delete_last_word(&mut u);
    assert_eq!(u, "");
}

#[test]
fn layout_sizes() {
    assert_eq!(sessions_column_width(100, 40), 40);
    assert_eq!(sessions_column_width(60, 40), 24);
    assert_eq!(sessions_column_width(10, 40), 9);
    assert_eq!(list_columns(40), (24, 10));
    assert_eq!(list_columns(12), (8, 0));
    let r = centered_rect(Area { x: 0, y: 0, width: 100, height: 40 }, 50, 10);
    assert_eq!(r, Area { x: 25, y: 15, width: 50, height: 10 });
    assert_eq!(modal_size(&vec!["short".to_string()]), (40, 7));
    assert_eq!(modal_size(&vec!["x".repeat(100)]), (72, 7));
}

#[test]
fn ages_read_as_units() {
    assert_eq!(ago_text(0, 100).as_deref(), Some("—"));
    assert_eq!(ago_text(100, 130).as_deref(), Some("30s"));
    assert_eq!(ago_text(100, 100 + 120).as_deref(), Some("2m"));
    assert_eq!(ago_text(100, 100 + 3 * 3600).as_deref(), Some("3h"));
    assert_eq!(ago_text(100, 100 + 3 * 86400).as_deref(), Some("3d"));
    assert_eq!(ago_text(100, 100 + 21 * 86400).as_deref(), Some("3w"));
    assert_eq!(ago_text(100, 100 + 70 * 86400), None);
    assert_eq!(ago_text(500, 100).as_deref(), Some("0s"));
    assert_eq!(age_band(0, 10), AgeBand::Stale);
    assert_eq!(age_band(10, 20), AgeBand::Fresh);
    assert_eq!(age_band(10, 10 + 7200), AgeBand::Today);
    assert_eq!(age_band(10, 10 + 2 * 86400), AgeBand::ThisWeek);
    assert_eq!(age_band(10, 10 + 8 * 86400), AgeBand::Stale);
}

#[test]
fn pane_rows_put_the_active_pane_first() {
    let out = "/a\t0\n/b/\t1\n/a/\t1\n\t1\n/c\n";
    assert_eq!(pane_paths_in_order(out, false), vec!["/b/".to_string(), "/a".to_string(), "/c".to_string()]);
    assert_eq!(
        pane_ttys_in_order("/dev/pts/1\t0\n/dev/pts/2\t1\n/dev/pts/1\t1\n"),
        vec!["/dev/pts/2".to_string(), "/dev/pts/1".to_string()]
    );
}

#[test]
fn preview_plans_and_tails() {
    match plan_session_preview(1, "", None) {
        PreviewPlan::Ready(p) => assert_eq!(p.lines, vec!["(pane preview unavailable)".to_string()]),
        _ => panic!("expected ready"),
    }
    match plan_session_preview(0, "\n", None) {
        PreviewPlan::Ready(p) => assert_eq!(p.lines, vec!["(no panes)".to_string()]),
        _ => panic!("expected ready"),
    }
    match plan_session_preview(0, "0.0\t0\n0.1\t1\n1.0\t0\n", None) {
        PreviewPlan::Capture { pane_ids, selected_idx } => {
            assert_eq!(pane_ids, vec!["0.0".to_string(), "0.1".to_string(), "1.0".to_string()]);
            assert_eq!(selected_idx, 1);
        }
        _ => panic!("expected capture"),
    }
    match plan_session_preview(0, "0.0\t0\n0.1\t1\n1.0\t0\n", Some("1.0")) {
        PreviewPlan::Capture { selected_idx, .. } => assert_eq!(selected_idx, 2),
        _ => panic!("expected capture"),
    }
    let lines: String = (0..30).map(|i| format!("line {}\n", i)).collect();
    let p = session_preview_data(vec!["0.0".to_string()], 0, 0, &lines);
    assert_eq!(p.lines.len(), 24);
    assert_eq!(p.lines[0], "line 6");
    let empty = session_preview_data(Vec::new(), 0, 0, "");
    assert_eq!(empty.lines, vec!["(pane is empty)".to_string()]);
}

#[test]
fn processes_and_open_files() {
    assert_eq!(tty_short("/dev/pts/3"), "pts/3");
    assert_eq!(tty_short("pts/3"), "pts/3");
    assert_eq!(parse_pids(" 12\nabc\n 99999999999\n-3\n"), vec![12, -3]);
    assert_eq!(
        session_id_from_fd_target("/home/u/.code/sessions/rollout-x-5567a4cb-9214-4a08-a377-28bb71eb5b44.jsonl").as_deref(),
        Some("5567a4cb-9214-4a08-a377-28bb71eb5b44")
    );
    assert_eq!(session_id_from_fd_target("/tmp/5567a4cb-9214-4a08-a377-28bb71eb5b44"), None);
}

#[test]
fn sessions_by_working_directory() {
    let lines = vec![r#"{"type":"session_meta","payload":{"cwd":"C:/Users/test/project"}}"#.to_string()];
    assert_eq!(session_meta_cwd(&lines).as_deref(), Some("C:/Users/test/project"));
    assert_eq!(
        cwd_catalog_entry(r#"{"session_id":"s1","rollout_path":"r1","deleted":false}"#),
        Some(("s1".to_string(), "r1".to_string()))
    );
    assert_eq!(cwd_catalog_entry(r#"{"session_id":"s1","rollout_path":"r1","deleted":true}"#), None);
    let cands = vec![
        (Some("a".to_string()), Some("/shared/repo/".to_string())),
        (Some("b".to_string()), Some("/other".to_string())),
        (Some("a".to_string()), Some("/shared/repo".to_string())),
        (None, Some("/shared/repo".to_string())),
        (Some("c".to_string()), Some("\\shared\\repo".to_string())),
    ];
    assert_eq!(session_ids_matching_cwd("/shared/repo", &cands, false), vec!["a".to_string(), "c".to_string()]);
    let rollouts = vec![(
        "/c/sessions/rollout-2026-03-18T12-00-00-dddddddd-eeee-ffff-1111-222222222222.jsonl".to_string(),
        Some("C:/Users/test/project".to_string()),
    )];
    assert_eq!(
        session_ids_from_cwd_scan_rollouts("C:\\Users\\test\\project", &rollouts, false),
        vec!["dddddddd-eeee-ffff-1111-222222222222".to_string()]
    );
    assert_eq!(
        rollout_search_roots("/h/.code", Some(".code"), Some("/h"), Some("/h/.code/sessions"), false),
        vec!["/h/.code/sessions".to_string()]
    );
}

#[test]
fn session_id_comes_from_tty_first_then_unique_pane_path() {
    let ttys = vec!["pts/1".to_string(), "pts/2".to_string()];
    let by_tty = |t: &String| if t == "pts/2" { Some("from-tty".to_string()) } else { None };
    let asked = std::cell::Cell::new(false);
    let paths = || {
        asked.set(true);
        vec!["/a".to_string(), "/b".to_string()]
    };
    let by_cwd = |p: &String| {
        if p == "/a" {
            vec!["x".to_string(), "y".to_string()]
        } else {
            vec!["only".to_string()]
        }
    };
    assert_eq!(find_coder_session_id(&ttys, by_tty, paths, by_cwd).as_deref(), Some("from-tty"));
    assert!(!asked.get());
    let none_tty = |_: &String| None;
    assert_eq!(find_coder_session_id(&ttys, none_tty, paths, by_cwd).as_deref(), Some("only"));
    assert!(asked.get());
    let none_cwd = |_: &String| Vec::new();
    assert_eq!(find_coder_session_id(&ttys, none_tty, paths, none_cwd), None);
}

#[test]
fn normalizing_twice_changes_nothing() {
    for raw in [" bad/name ", "__a__b__", "a//b", "x.y:z-1", "!!!", "  "] {
        let once = normalize_session_name(raw);
        assert_eq!(normalize_session_name(&once), once);
        assert!(!once.contains("__"));
    }
    assert_eq!(normalize_session_name("_/_"), "");
    assert_eq!(normalize_session_name("a__b"), "a_b");
}

#[test]
fn path_key_twice_changes_nothing() {
    for (p, w) in [("C:\\Users\\X\\", true), ("/home/x///", false), ("///", false), ("A\\B", false)] {
        let once = normalize_path_for_compare_on(p, w);
        assert_eq!(normalize_path_for_compare_on(&once, w), once);
    }
    assert_eq!(normalize_path_for_compare_on("/home/x/", false), "/home/x");
    assert_eq!(normalize_path_for_compare_on("///", false), "/");
}

#[test]
fn path_key_has_no_backslash_and_no_trailing_slash() {
    for (p, w) in [("C:\\Users\\X\\", true), ("/home/x///", false), ("///", false), ("a\\b\\", false)] {
        let k = normalize_path_for_compare_on(p, w);
        assert!(!k.contains('\\'));
        assert!(k == "/" || !k.ends_with('/'));
    }
}

#[test]
fn catalog_entries_come_newest_first() {
    let lines = vec![
        r#"{"session_id":"a","rollout_path":"ra.jsonl","deleted":false}"#.to_string(),
        r#"{"session_id":"b","rollout_path":"rb.jsonl","deleted":true}"#.to_string(),
        "".to_string(),
        r#"{"session_id":"c","rollout_path":"rc.jsonl"}"#.to_string(),
    ];
    assert_eq!(
        cwd_catalog_entries_newest_first(&lines),
        vec![("c".to_string(), "rc.jsonl".to_string()), ("a".to_string(), "ra.jsonl".to_string())]
    );
}
