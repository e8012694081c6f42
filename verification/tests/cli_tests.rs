use b_revamp::cli::{worktrees_dir_choice, WorktreesDir};
use b_revamp::cli::{worktree_plan, WorktreePlan};
use b_revamp::app::ExportDepth;
use b_revamp::cli::{
    detect_mode, expand_tilde, git_ok_output, normalize_or_exit, parse_command, parse_cx_args,
    render_start_cmd, sessions_from_listing, worktree_add_args, worktree_branch, worktree_dir_name,
    Command, CxCommand, Mode,
};
use b_revamp::exporter::ExportMode;

fn args(v: &[&str]) -> Vec<String> {
    v.iter().map(|s| s.to_string()).collect()
}

#[test]
fn mode_follows_env_then_program_name() {
    assert_eq!(detect_mode(Some("cwd"), Some("br")), Mode::Cwd);
    assert_eq!(detect_mode(Some("worktree"), Some("b")), Mode::Worktree);
    assert_eq!(detect_mode(Some("other"), Some("b")), Mode::Cwd);
    assert_eq!(detect_mode(None, Some("br")), Mode::Worktree);
    assert_eq!(detect_mode(None, None), Mode::Worktree);
}

#[test]
fn br_arguments() {
    assert!(matches!(parse_command(&args(&["br"])), Command::Picker));
    assert!(matches!(parse_command(&args(&["br", "--help"])), Command::Help));
    assert!(matches!(parse_command(&args(&["br", "--list", "x"])), Command::List));
    assert!(matches!(parse_command(&args(&["br", "my name"])), Command::Open(ref n) if n == "my name"));
}

#[test]
fn names_from_the_command_line() {
    assert_eq!(normalize_or_exit(" bad/name ").ok(), Some("bad_name".to_string()));
    let err = normalize_or_exit("!!!").err().expect("error");
    assert_eq!(err.code, 2);
    assert_eq!(err.msg, "Invalid session name: !!!\nAllowed: letters, digits, . _ : -\n");
}

#[test]
fn cx_arguments() {
    match parse_cx_args(&args(&["sid", "--out", "/o", "--full", "-c", "/c"])) {
        CxCommand::Export { session_id, out, code_dir, mode } => {
            assert_eq!(session_id, "sid");
            assert_eq!(out.as_deref(), Some("/o"));
            assert_eq!(code_dir.as_deref(), Some("/c"));
            assert_eq!(mode, ExportMode::Full);
        }
        _ => panic!("expected export"),
    }
    match parse_cx_args(&args(&["sid"])) {
        CxCommand::Export { mode, out, .. } => {
            assert_eq!(mode, ExportMode::Compact);
            assert!(out.is_none());
        }
        _ => panic!("expected export"),
    }
    assert!(matches!(parse_cx_args(&args(&[])), CxCommand::Usage));
    assert!(matches!(parse_cx_args(&args(&["sid", "-h"])), CxCommand::Help));
    assert!(matches!(parse_cx_args(&args(&["sid", "--out"])), CxCommand::Fail(ref m) if m == "Missing value for --out"));
    assert!(matches!(parse_cx_args(&args(&["--bogus"])), CxCommand::Fail(ref m) if m == "Unknown flag: --bogus"));
    assert!(matches!(parse_cx_args(&args(&["a", "b"])), CxCommand::Fail(ref m) if m == "Unexpected argument: b"));
}

#[test]
fn start_command_template() {
    assert_eq!(render_start_cmd("coder", "x"), "coder");
    assert_eq!(render_start_cmd("coder --session {name}", "feat"), "coder --session feat");
    assert_eq!(render_start_cmd("bad {unknown}", "feat"), "bad {unknown}");
}

#[test]
fn git_and_worktree_helpers() {
    assert!(git_ok_output(0, "true\n"));
    assert!(!git_ok_output(1, "true\n"));
    assert!(!git_ok_output(0, "false\n"));
    assert_eq!(worktree_branch("w/", "feat"), "w/feat");
    assert_eq!(worktree_dir_name("feat"), "w-feat");
    assert_eq!(worktree_add_args("w/feat", "/p", "origin/main", false), args(&["worktree", "add", "-b", "w/feat", "/p", "origin/main"]));
    assert_eq!(worktree_add_args("w/feat", "/p", "origin/main", true), args(&["worktree", "add", "/p", "w/feat"]));
}

#[test]
fn tilde_paths() {
    assert_eq!(expand_tilde("~", Some("/home/u")), "/home/u");
    assert_eq!(expand_tilde("~/x", Some("/home/u")), "/home/u/x");
    assert_eq!(expand_tilde("~\\x", Some("C:\\Users\\u")), "C:\\Users\\u/x");
    assert_eq!(expand_tilde("~x", Some("/home/u")), "~x");
    assert_eq!(expand_tilde("~/x", None), "~/x");
}

#[test]
fn session_listing_is_parsed() {
    let s = sessions_from_listing(0, "a\t1\t2\t3\n\nb: 2 windows (created x)\n");
    assert_eq!(s.len(), 2);
    assert_eq!(s[1].name, "b");
    assert!(sessions_from_listing(1, "a\t1\t2\t3\n").is_empty());
    assert!(sessions_from_listing(0, "").is_empty());
}

#[test]
fn export_depths_map_to_modes() {
    assert_eq!(ExportDepth::Compact.export_mode(), ExportMode::Compact);
    assert_eq!(ExportDepth::Json.export_mode(), ExportMode::Json);
    assert_eq!(ExportMode::Medium.as_str(), "medium");
}

#[test]
fn worktree_target_is_reused_created_or_refused() {
    assert!(matches!(worktree_plan("/w/w-a", true, true, false), WorktreePlan::Reuse));
    assert!(matches!(worktree_plan("/w/w-a", false, false, false), WorktreePlan::Create));
    assert!(matches!(worktree_plan("/w/w-a", false, true, true), WorktreePlan::Create));
    match worktree_plan("/w/w-a", false, true, false) {
        WorktreePlan::Refuse(e) => {
            assert_eq!(e.code, 2);
            assert_eq!(e.msg, "[br] Worktree target exists and is not empty: /w/w-a\n");
        }
        _ => panic!("expected a refusal"),
    }
}

#[test]
fn worktrees_dir_follows_setting() {
    assert!(matches!(worktrees_dir_choice(None), WorktreesDir::Expand(p) if p == "~/.br"));
    assert!(matches!(worktrees_dir_choice(Some("")), WorktreesDir::RepoParent));
    assert!(matches!(worktrees_dir_choice(Some("/srv/wt")), WorktreesDir::Expand(p) if p == "/srv/wt"));
}
