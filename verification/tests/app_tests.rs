use b_revamp::app::{
    handle_filter_mode, handle_key, handle_new_session_mode, modal_content, Action, App,
    CopyOutcome, ExportDepth, ExportOutcome, InputMode, Key, KeyCode, KeyMods, TmuxOutcome,
};
use b_revamp::panes::SessionPreview;
use b_revamp::sessions::SessionInfo;

const NOW: u64 = 1_000_000;

fn test_app() -> App {
    let mut app = App {
        all_sessions: vec![
            SessionInfo::new("alpha".to_string(), 0, 0, 0),
            SessionInfo::new("beta".to_string(), 0, 0, 0),
        ],
        items: vec![],
        filter: String::new(),
        selected: 0,
        input_mode: InputMode::Filter,
        new_session_name: String::new(),
        status_line: None,
        pending_open: None,
        pending_delete: None,
        pending_pane_delete: None,
        pending_export: None,
        show_help: true,
        show_preview: false,
        pending_g_until: None,
        preview_for: None,
        preview_lines: Vec::new(),
        preview_pane_ids: Vec::new(),
        preview_selected_idx: 0,
        preview_updated_at: None,
        rename_from: None,
        rename_input: String::new(),
        copy_preview: None,
    };
    app.refresh_items();
    app
}

fn status(app: &App) -> String {
    app.status_line.as_ref().map(|(m, _)| m.clone()).unwrap_or_default()
}

#[test]
fn ctrl_u_clears_filter() {
    let mut app = test_app();
    app.filter = "alpha".to_string();
    app.refresh_items();
    let _ = handle_filter_mode(&mut app, Key::ctrl(KeyCode::Char('u')), NOW);
    assert_eq!(app.filter, "");
}

#[test]
fn tab_moves_selection_down() {
    let mut app = test_app();
    assert_eq!(app.selected, 0);
    let _ = handle_filter_mode(&mut app, Key::plain(KeyCode::Tab), NOW);
    assert_eq!(app.selected, 1);
}

#[test]
fn ctrl_w_deletes_word_in_new_session_mode() {
    let mut app = test_app();
    app.input_mode = InputMode::NewSession;
    app.new_session_name = "feature branch".to_string();
    let _ = handle_new_session_mode(&mut app, Key::ctrl(KeyCode::Char('w')), NOW);
    assert_eq!(app.new_session_name, "feature ");
}

#[test]
fn slash_starts_fuzzy_search_without_literal_prefix() {
    let mut app = test_app();
    app.filter = "alpha".to_string();
    app.refresh_items();
    let _ = handle_filter_mode(&mut app, Key::plain(KeyCode::Char('/')), NOW);
    assert_eq!(app.filter, "");
    let _ = handle_filter_mode(&mut app, Key::plain(KeyCode::Char('b')), NOW);
    assert_eq!(app.filter, "b");
    assert_eq!(app.items.len(), 1);
    assert_eq!(app.items[0].name, "beta");
}

#[test]
fn backspace_then_n_cancels_delete_prompt() {
    let mut app = test_app();
    app.filter.clear();
    let _ = handle_filter_mode(&mut app, Key::plain(KeyCode::Backspace), NOW);
    assert!(app.pending_delete.is_some());
    let _ = handle_filter_mode(&mut app, Key::plain(KeyCode::Char('n')), NOW);
    assert!(app.pending_delete.is_none());
}

#[test]
fn ctrl_s_opens_export_prompt_and_esc_cancels() {
    let mut app = test_app();
    let _ = handle_filter_mode(&mut app, Key::ctrl(KeyCode::Char('s')), NOW);
    assert!(app.pending_export.is_some());
    let _ = handle_filter_mode(&mut app, Key::plain(KeyCode::Esc), NOW);
    assert!(app.pending_export.is_none());
}

#[test]
fn export_prompt_enter_defaults_to_medium() {
    let mut app = test_app();
    let _ = handle_filter_mode(&mut app, Key::ctrl(KeyCode::Char('s')), NOW);
    assert!(app.pending_export.is_some());
    let action = handle_filter_mode(&mut app, Key::plain(KeyCode::Enter), NOW);
    assert!(matches!(action, Action::Export(ref n, ExportDepth::Medium) if n == "alpha"));
    assert!(app.pending_export.is_none());
    assert!(app.status_line.is_some());
    app.export_done("alpha", ExportOutcome::Wrote("/out/x.md".to_string()), NOW);
    assert_eq!(status(&app), "Wrote: /out/x.md");
}

#[test]
fn typing_an_exact_name_opens_it() {
    let mut app = test_app();
    for c in "alph".chars() {
        let a = handle_filter_mode(&mut app, Key::plain(KeyCode::Char(c)), NOW);
        if c == 'a' {
            assert!(matches!(a, Action::Stay));
        }
    }
    assert_eq!(app.items.len(), 1);
    let a = handle_filter_mode(&mut app, Key::plain(KeyCode::Char('a')), NOW);
    assert!(matches!(a, Action::Exit(Some(ref n)) if n == "alpha"));
}

#[test]
fn kill_asks_before_killing() {
    let mut app = test_app();
    let a = handle_filter_mode(&mut app, Key::ctrl(KeyCode::Char('x')), NOW);
    assert!(matches!(a, Action::Stay));
    assert_eq!(status(&app), "Press Ctrl+X again to kill session 'alpha'.");
    let again = handle_filter_mode(&mut app, Key::ctrl(KeyCode::Char('x')), NOW + 500);
    assert!(matches!(again, Action::Stay));
    assert_eq!(status(&app), "Press y to delete, n/Esc to cancel.");
    let b = handle_filter_mode(&mut app, Key::plain(KeyCode::Char('y')), NOW + 600);
    assert!(matches!(b, Action::KillSession(ref n) if n == "alpha"));
    assert!(app.pending_delete.is_none());
    let c = app.session_killed("alpha", TmuxOutcome::Done, NOW + 600);
    assert!(matches!(c, Action::RefreshSessions));
    assert_eq!(status(&app), "Killed session 'alpha'.");
    app.refresh_sessions(vec![SessionInfo::new("beta".to_string(), 0, 0, 0)]);
    assert_eq!(app.items.len(), 1);
    assert_eq!(app.selected, 0);
    let late = handle_filter_mode(&mut app, Key::ctrl(KeyCode::Char('x')), NOW + 700);
    assert!(matches!(late, Action::Stay));
    let d = app.session_killed("beta", TmuxOutcome::Error("no server\n".to_string()), NOW);
    assert!(matches!(d, Action::Stay));
    assert_eq!(status(&app), "Kill failed: no server");
}

#[test]
fn gg_jumps_to_top_within_the_window() {
    let mut app = test_app();
    app.selected = 1;
    let _ = handle_filter_mode(&mut app, Key::plain(KeyCode::Char('g')), NOW);
    assert_eq!(app.selected, 1);
    let _ = handle_filter_mode(&mut app, Key::plain(KeyCode::Char('g')), NOW + 100);
    assert_eq!(app.selected, 0);
    app.selected = 1;
    let _ = handle_filter_mode(&mut app, Key::plain(KeyCode::Char('g')), NOW);
    let _ = handle_filter_mode(&mut app, Key::plain(KeyCode::Char('g')), NOW + 800);
    assert_eq!(app.selected, 1);
}

#[test]
fn new_session_name_is_normalized_before_opening() {
    let mut app = test_app();
    let _ = handle_filter_mode(&mut app, Key::plain(KeyCode::F(2)), NOW);
    assert_eq!(app.input_mode, InputMode::NewSession);
    for c in "my name".chars() {
        let _ = handle_key(&mut app, Key::plain(KeyCode::Char(c)), NOW);
    }
    let a = handle_key(&mut app, Key::plain(KeyCode::Enter), NOW);
    assert!(matches!(a, Action::Stay));
    assert_eq!(app.input_mode, InputMode::Filter);
    assert_eq!(status(&app), "Using session name: my_name");
    assert_eq!(app.open_due(NOW + 100), None);
    assert_eq!(app.open_due(NOW + 900).as_deref(), Some("my_name"));
}

#[test]
fn alt_backspace_deletes_a_word() {
    let mut app = test_app();
    app.filter = "al ph".to_string();
    app.refresh_items();
    let key = Key { code: KeyCode::Backspace, mods: KeyMods { control: false, alt: true, super_key: false, other: false } };
    let _ = handle_filter_mode(&mut app, key, NOW);
    assert_eq!(app.filter, "al ");
}

#[test]
fn preview_is_fetched_and_pane_kill_reported() {
    let mut app = test_app();
    app.show_preview = true;
    let req = app.refresh_preview_if_needed(false, NOW).expect("request");
    assert_eq!(req.session, "alpha");
    assert_eq!(req.pane, None);
    app.apply_preview(
        req.session,
        Ok(SessionPreview { lines: vec!["x".to_string()], pane_ids: vec!["0.0".to_string(), "0.1".to_string()], selected_idx: 7 }),
        NOW,
    );
    assert_eq!(app.preview_selected_idx, 1);
    assert!(app.refresh_preview_if_needed(false, NOW + 1000).is_none());
    assert!(app.refresh_preview_if_needed(false, NOW + 3000).is_some());
    let step = app.step_preview_pane(1, NOW);
    assert!(matches!(step, Action::RefreshPreview));
    assert_eq!(app.preview_selected_idx, 0);
    let a = handle_filter_mode(&mut app, Key::ctrl(KeyCode::Char('y')), NOW);
    assert!(matches!(a, Action::Stay));
    assert_eq!(status(&app), "Press Ctrl+Y again to kill pane 'alpha:0.0'");
    let b = handle_filter_mode(&mut app, Key::ctrl(KeyCode::Char('y')), NOW + 10);
    assert!(matches!(b, Action::KillPane(ref s, ref p) if s == "alpha" && p == "0.0"));
    let c = app.pane_killed("alpha", "0.0", TmuxOutcome::Failed, NOW);
    assert!(matches!(c, Action::Stay));
    assert_eq!(status(&app), "Failed to kill pane 'alpha:0.0'");
    app.apply_preview("alpha".to_string(), Err("boom  ".to_string()), NOW);
    assert_eq!(app.preview_lines, vec!["Preview unavailable: boom".to_string(), "(tmux info could not be fetched)".to_string()]);
}

#[test]
fn modal_shows_the_pending_question() {
    let mut app = test_app();
    assert!(modal_content(&app, NOW).is_none());
    let _ = handle_filter_mode(&mut app, Key::plain(KeyCode::Backspace), NOW);
    let (title, lines) = modal_content(&app, NOW).expect("modal");
    assert_eq!(title, "Confirm Delete");
    assert_eq!(lines[0], "Delete session 'alpha' ?");
    assert!(modal_content(&app, NOW + 3000).is_none());
    app.prune_timers(NOW + 3000);
    assert!(app.pending_delete.is_none());
    assert!(app.status_line.is_none());
}

#[test]
fn quit_and_open_keys() {
    let mut app = test_app();
    assert!(matches!(handle_filter_mode(&mut app, Key::plain(KeyCode::Char('q')), NOW), Action::Exit(None)));
    assert!(matches!(handle_filter_mode(&mut app, Key::ctrl(KeyCode::Char('c')), NOW), Action::Exit(None)));
    let open = handle_filter_mode(&mut app, Key::plain(KeyCode::Enter), NOW);
    assert!(matches!(open, Action::Exit(Some(ref n)) if n == "alpha"));
    assert!(matches!(handle_filter_mode(&mut app, Key::plain(KeyCode::F(5)), NOW), Action::RefreshSessions));
}

fn ctrl_char(c: char) -> Key {
    Key::ctrl(KeyCode::Char(c))
}

fn type_text(app: &mut App, text: &str) {
    for c in text.chars() {
        let _ = handle_key(app, Key::plain(KeyCode::Char(c)), NOW);
    }
}

#[test]
fn f4_opens_rename_line_with_selected_name() {
    let mut app = test_app();
    let a = handle_key(&mut app, Key::plain(KeyCode::F(4)), NOW);
    assert!(matches!(a, Action::Stay));
    assert_eq!(app.input_mode, InputMode::Rename);
    assert_eq!(app.rename_from.as_deref(), Some("alpha"));
    assert_eq!(app.rename_input, "alpha");
}

#[test]
fn rename_line_hands_back_normalized_new_name() {
    let mut app = test_app();
    let _ = handle_key(&mut app, Key::plain(KeyCode::F(4)), NOW);
    let _ = handle_key(&mut app, Key::ctrl(KeyCode::Char('u')), NOW);
    type_text(&mut app, " new name ");
    let a = handle_key(&mut app, Key::plain(KeyCode::Enter), NOW);
    match a {
        Action::Rename(from, to) => {
            assert_eq!(from, "alpha");
            assert_eq!(to, "new_name");
        }
        _ => panic!("expected a rename"),
    }
    assert_eq!(app.input_mode, InputMode::Filter);
    assert_eq!(app.rename_from, None);
}

#[test]
fn rename_to_same_name_is_noted() {
    let mut app = test_app();
    let _ = handle_key(&mut app, Key::plain(KeyCode::F(4)), NOW);
    let a = handle_key(&mut app, Key::plain(KeyCode::Enter), NOW);
    assert!(matches!(a, Action::Stay));
    assert_eq!(status(&app), "Name unchanged.");
    assert_eq!(app.input_mode, InputMode::Filter);
}

#[test]
fn rename_to_invalid_name_is_refused() {
    let mut app = test_app();
    let _ = handle_key(&mut app, Key::plain(KeyCode::F(4)), NOW);
    let _ = handle_key(&mut app, Key::ctrl(KeyCode::Char('u')), NOW);
    type_text(&mut app, "!!!");
    let a = handle_key(&mut app, Key::plain(KeyCode::Enter), NOW);
    assert!(matches!(a, Action::Stay));
    assert_eq!(status(&app), "Invalid name. Allowed: letters, digits, . _ : -");
}

#[test]
fn rename_esc_cancels_and_alt_backspace_deletes_word() {
    let mut app = test_app();
    let _ = handle_key(&mut app, Key::plain(KeyCode::F(4)), NOW);
    type_text(&mut app, " two");
    let alt = Key { code: KeyCode::Backspace, mods: KeyMods { control: false, alt: true, super_key: false, other: false } };
    let _ = handle_key(&mut app, alt, NOW);
    assert_eq!(app.rename_input, "alpha ");
    let _ = handle_key(&mut app, Key::plain(KeyCode::Esc), NOW);
    assert_eq!(app.input_mode, InputMode::Filter);
    assert_eq!(status(&app), "Rename canceled.");
}

#[test]
fn session_renamed_reports_and_reloads() {
    let mut app = test_app();
    let a = app.session_renamed("alpha", "omega", TmuxOutcome::Done, NOW);
    assert!(matches!(a, Action::RefreshSessions));
    assert_eq!(status(&app), "Renamed session 'alpha' to 'omega'.");
    let b = app.session_renamed("alpha", "omega", TmuxOutcome::Failed, NOW);
    assert!(matches!(b, Action::Stay));
    assert_eq!(status(&app), "Failed to rename session 'alpha'.");
}

#[test]
fn copy_keys_ask_for_nth_last_output() {
    let cases = [
        (Key::plain(KeyCode::F(10)), 1usize),
        (ctrl_char('p'), 1),
        (ctrl_char('['), 2),
        (ctrl_char(']'), 3),
        (ctrl_char('\\'), 4),
    ];
    for (key, n) in cases {
        let mut app = test_app();
        match handle_key(&mut app, key, NOW) {
            Action::Copy(name, k) => {
                assert_eq!(name, "alpha");
                assert_eq!(k, n);
            }
            _ => panic!("expected a copy"),
        }
        assert_eq!(app.selected, 0);
    }
}

#[test]
fn copy_without_selection_is_noted() {
    let mut app = test_app();
    app.filter = "zzz".to_string();
    app.refresh_items();
    let a = handle_key(&mut app, Key::plain(KeyCode::F(10)), NOW);
    assert!(matches!(a, Action::Stay));
    assert_eq!(status(&app), "No session selected");
}

#[test]
fn copied_output_opens_preview_that_scrolls_and_closes() {
    let mut app = test_app();
    app.copy_done("alpha", 2, CopyOutcome::Copied("one\ntwo\nthree".to_string()), NOW);
    assert_eq!(status(&app), "Copied to clipboard.");
    {
        let p = app.copy_preview.as_ref().expect("preview open");
        assert_eq!(p.title, "Copied second-to-last assistant output of 'alpha'");
        assert_eq!(p.lines, vec!["one".to_string(), "two".to_string(), "three".to_string()]);
        assert_eq!(p.scroll, 0);
    }
    let _ = handle_key(&mut app, Key::plain(KeyCode::Char('j')), NOW);
    let _ = handle_key(&mut app, Key::plain(KeyCode::Down), NOW);
    let _ = handle_key(&mut app, Key::plain(KeyCode::Down), NOW);
    assert_eq!(app.copy_preview.as_ref().unwrap().scroll, 2);
    let _ = handle_key(&mut app, Key::plain(KeyCode::Up), NOW);
    assert_eq!(app.copy_preview.as_ref().unwrap().scroll, 1);
    // Keys go to the preview, not the filter.
    let _ = handle_key(&mut app, Key::plain(KeyCode::Char('x')), NOW);
    assert_eq!(app.filter, "");
    let a = handle_key(&mut app, Key::plain(KeyCode::Esc), NOW);
    assert!(matches!(a, Action::Stay));
    assert!(app.copy_preview.is_none());
}

#[test]
fn copy_outcomes_are_reported() {
    let mut app = test_app();
    app.copy_done("alpha", 1, CopyOutcome::NoOutput, NOW);
    assert_eq!(status(&app), "No last assistant output in 'alpha'");
    app.copy_done("alpha", 1, CopyOutcome::NoSessionId, NOW);
    assert_eq!(status(&app), "No coder session id found for 'alpha'");
    app.copy_done("alpha", 1, CopyOutcome::Failed("no tool".to_string()), NOW);
    assert_eq!(status(&app), "Copy failed: no tool");
    assert!(app.copy_preview.is_none());
}

#[test]
fn picker_is_built_only_for_rankable_names() {
    let app = App::try_new(vec![SessionInfo::new("alpha".to_string(), 0, 0, 0)]).expect("rankable");
    assert_eq!(app.items.len(), 1);
    let mut app = app;
    assert!(app.try_refresh_sessions(vec![SessionInfo::new("beta".to_string(), 0, 0, 0)]));
    assert_eq!(app.items[0].name, "beta");
}
