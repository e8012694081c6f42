//! The command lines of the tool: which mode `br`/`b` runs in, what their
//! arguments ask for, what `cx` is asked to export, and the commands and
//! names built for tmux and git.
use vstd::prelude::*;

use crate::app::ExitError;
use crate::exporter::ExportMode;
use crate::json::text_eq;
use crate::patterns::{opt_string, spec_strfmt_one, strfmt_one};
use crate::sessions::{normalized_name, normalize_session_name, parse_tmux_session_line, session_line_spec, session_views, SessionInfo, SessionView};
use crate::text::{chars_vec, lines, lines_of, push_str, starts_with, starts_with_str, string_of_range, trim, trim_str, views};

verus! {

broadcast use vstd::std_specs::vec::group_vec_axioms;

// ---------------------------------------------------------------------------
// `br` and `b`
// ---------------------------------------------------------------------------

/// Where new sessions start: in a git worktree of their own, or in the
/// current directory.
#[derive(Clone, Copy, Debug, PartialEq, Eq, Structural)]
pub enum Mode {
    Worktree,
    Cwd,
}

/// The mode: `BR_MODE` when it says `worktree` or `cwd`; else worktree mode
/// for a program named `br` (the default name), current-directory mode
/// otherwise.
pub open spec fn mode_spec(br_mode: Option<Seq<char>>, program_name: Option<Seq<char>>) -> Mode {
    if br_mode == Some("worktree"@) {
        Mode::Worktree
    } else if br_mode == Some("cwd"@) {
        Mode::Cwd
    } else {
        let name = match program_name {
            Some(n) => n,
            None => "br"@,
        };
        if name == "br"@ {
            Mode::Worktree
        } else {
            Mode::Cwd
        }
    }
}

/// The mode, from `BR_MODE` and the program's file name.
pub fn detect_mode(br_mode: Option<&str>, program_name: Option<&str>) -> (r: Mode)
    ensures
        r == mode_spec(opt_str_view(br_mode), opt_str_view(program_name)),
{
    let (w, c) = match br_mode {
        Some(m) => (text_eq(m, "worktree"), text_eq(m, "cwd")),
        None => (false, false),
    };
    if w {
        return Mode::Worktree;
    }
    if c {
        return Mode::Cwd;
    }
    let name = match program_name {
        Some(n) => n,
        None => "br",
    };
    if text_eq(name, "br") {
        Mode::Worktree
    } else {
        Mode::Cwd
    }
}

/// The view of an optional text slice.
pub open spec fn opt_str_view(o: Option<&str>) -> Option<Seq<char>> {
    match o {
        Some(s) => Some(s@),
        None => None,
    }
}

/// What `br` or `b` is asked to do.
pub enum Command {
    /// Print the usage.
    Help,
    /// Print the session names, most recent first.
    List,
    /// Create (if needed) and open the session with this name, as given.
    Open(String),
    /// Run the picker.
    Picker,
}

/// The mathematical form of a command.
pub enum CommandView {
    Help,
    List,
    Open(Seq<char>),
    Picker,
}

impl View for Command {
    type V = CommandView;

    open spec fn view(&self) -> CommandView {
        match self {
            Command::Help => CommandView::Help,
            Command::List => CommandView::List,
            Command::Open(n) => CommandView::Open(n@),
            Command::Picker => CommandView::Picker,
        }
    }
}

/// The command that the arguments (program name first) ask for: only the
/// first argument after the program counts.
pub open spec fn command_spec(args: Seq<Seq<char>>) -> CommandView {
    if args.len() <= 1 {
        CommandView::Picker
    } else if args[1] == "-h"@ || args[1] == "--help"@ {
        CommandView::Help
    } else if args[1] == "--list"@ {
        CommandView::List
    } else {
        CommandView::Open(args[1])
    }
}

/// The command that the arguments ask for.
pub fn parse_command(args: &Vec<String>) -> (r: Command)
    ensures
        r@ == command_spec(views(args@)),
{
    if args.len() <= 1 {
        return Command::Picker;
    }
    let a = args[1].as_str();
    if text_eq(a, "-h") || text_eq(a, "--help") {
        Command::Help
    } else if text_eq(a, "--list") {
        Command::List
    } else {
        Command::Open(args[1].clone())
    }
}

/// The normalized name of a session asked for on the command line, or the
/// error (exit code 2) that it holds no name.
pub fn normalize_or_exit(raw: &str) -> (r: Result<String, ExitError>)
    ensures
        match r {
            Ok(n) => n@ == normalized_name(raw@) && n@.len() > 0,
            Err(e) => normalized_name(raw@).len() == 0 && e.code == 2 && e.msg@ == "Invalid session name: "@
                + raw@ + "\nAllowed: letters, digits, . _ : -\n"@,
        },
{
    let name = normalize_session_name(raw);
    if name.as_str().is_empty() {
        let mut msg = String::from_str("Invalid session name: ");
        push_str(&mut msg, raw);
        push_str(&mut msg, "\nAllowed: letters, digits, . _ : -\n");
        return Err(ExitError::new(2, msg));
    }
    Ok(name)
}

/// The sessions in the output of `tmux list-sessions`: none when tmux
/// failed or printed nothing; else one for each line that describes one.
pub open spec fn listing_spec(code: i32, out: Seq<char>) -> Seq<SessionView> {
    if code != 0 || out.len() == 0 {
        seq![]
    } else {
        listed(lines(out))
    }
}

/// The sessions that the lines describe, in order.
pub open spec fn listed(ls: Seq<Seq<char>>) -> Seq<SessionView>
    decreases ls.len(),
{
    if ls.len() == 0 {
        seq![]
    } else {
        match session_line_spec(ls.last()) {
            Some(s) => listed(ls.drop_last()).push(s),
            None => listed(ls.drop_last()),
        }
    }
}

/// The sessions that `tmux list-sessions` printed.
pub fn sessions_from_listing(code: i32, out: &str) -> (r: Vec<SessionInfo>)
    ensures
        session_views(r@) == listing_spec(code, out@),
{
    let mut sessions: Vec<SessionInfo> = Vec::new();
    if code != 0 || out.is_empty() {
        assert(session_views(sessions@) =~= Seq::<SessionView>::empty());
        return sessions;
    }
    let ls = lines_of(out);
    let mut i: usize = 0;
    while i < ls.len()
        invariant
            i <= ls@.len(),
            session_views(sessions@) == listed(views(ls@).take(i as int)),
        decreases ls.len() - i,
    {
        assert(views(ls@).take(i + 1).drop_last() =~= views(ls@).take(i as int));
        match parse_tmux_session_line(ls[i].as_str()) {
            Some(s) => {
                let ghost old_s = sessions@;
                let ghost sv = s@;
                sessions.push(s);
                assert(session_views(sessions@) =~= session_views(old_s).push(sv));
            },
            None => {},
        }
        i = i + 1;
    }
    assert(views(ls@).take(i as int) =~= views(ls@));
    sessions
}

/// The command sent to a new session: the template with `{name}` filled by
/// `strfmt`, or the template itself when that fails.
pub open spec fn start_cmd_spec(template: Seq<char>, name: Seq<char>) -> Seq<char> {
    match spec_strfmt_one(template, "name"@, name) {
        Some(c) => c,
        None => template,
    }
}

/// The command sent to a new session once the template was filled (or not).
pub fn start_command(template: &str, filled: Option<String>) -> (r: String)
    ensures
        r@ == match opt_string(filled) {
            Some(c) => c,
            None => template@,
        },
{
    match filled {
        Some(c) => c,
        None => String::from_str(template),
    }
}

/// The command sent to the new session `name`, from the template of
/// `BR_RUN_CMD`.
pub fn render_start_cmd(template: &str, name: &str) -> (r: String)
    ensures
        r@ == start_cmd_spec(template@, name@),
{
    let filled = strfmt_one(template, "name", name);
    start_command(template, filled)
}

/// Whether `git rev-parse --is-inside-work-tree` says the directory is in a
/// work tree: it exited with 0 and printed `true`.
pub fn git_ok_output(code: i32, out: &str) -> (r: bool)
    ensures
        r == (code == 0 && trim(out@) == "true"@),
{
    let t = trim_str(out);
    code == 0 && text_eq(t.as_str(), "true")
}

/// The directory that holds the worktrees.
pub enum WorktreesDir {
    /// The repository's parent directory.
    RepoParent,
    /// This path, with `~` and variables expanded.
    Expand(String),
}

/// The directory that holds the worktrees, from the `BR_WORKTREES_DIR`
/// setting: `~/.br` when it is not set, the repository's parent when it is
/// empty, and the setting itself otherwise.
pub fn worktrees_dir_choice(setting: Option<&str>) -> (r: WorktreesDir)
    ensures
        match setting {
            None => r matches WorktreesDir::Expand(p) && p@ == "~/.br"@,
            Some(v) => if v@.len() == 0 {
                r is RepoParent
            } else {
                r matches WorktreesDir::Expand(p) && p@ == v@
            },
        },
{
    match setting {
        None => WorktreesDir::Expand(String::from_str("~/.br")),
        Some(v) => {
            if v.is_empty() {
                WorktreesDir::RepoParent
            } else {
                WorktreesDir::Expand(String::from_str(v))
            }
        },
    }
}

/// What to do with the place where a session's worktree goes.
pub enum WorktreePlan {
    /// A worktree is there already: use it.
    Reuse,
    /// Nothing is there, or an empty directory: add the worktree there.
    Create,
    /// Something else is there: stop with this error.
    Refuse(ExitError),
}

/// The error for a worktree target that holds something else.
pub open spec fn target_not_empty_message(path: Seq<char>) -> Seq<char> {
    "[br] Worktree target exists and is not empty: "@ + path + "\n"@
}

/// Decides what to do with the worktree target `path`: reuse it when it holds
/// a `.git` entry; add the worktree when nothing or an empty directory is
/// there (`present` says whether anything is); otherwise refuse with exit
/// code 2.
pub fn worktree_plan(path: &str, has_git: bool, present: bool, empty_dir: bool) -> (r: WorktreePlan)
    ensures
        has_git ==> r is Reuse,
        !has_git && (!present || empty_dir) ==> r is Create,
        !has_git && present && !empty_dir ==> (r matches WorktreePlan::Refuse(e) && e.code == 2
            && e.msg@ == target_not_empty_message(path@)),
{
    if has_git {
        WorktreePlan::Reuse
    } else if !present || empty_dir {
        WorktreePlan::Create
    } else {
        let mut msg = String::from_str("[br] Worktree target exists and is not empty: ");
        push_str(&mut msg, path);
        push_str(&mut msg, "\n");
        WorktreePlan::Refuse(ExitError::new(2, msg))
    }
}

/// The branch of a session's worktree: the prefix, then the name.
pub fn worktree_branch(prefix: &str, name: &str) -> (r: String)
    ensures
        r@ == prefix@ + name@,
{
    let mut b = String::from_str(prefix);
    push_str(&mut b, name);
    b
}

/// The directory name of a session's worktree: `w-` and the name.
pub fn worktree_dir_name(name: &str) -> (r: String)
    ensures
        r@ == "w-"@ + name@,
{
    let mut d = String::from_str("w-");
    push_str(&mut d, name);
    d
}

/// The arguments of `git worktree add`: a new branch from the base ref when
/// the branch does not exist yet, else the existing branch.
pub open spec fn worktree_add_spec(branch: Seq<char>, path: Seq<char>, base_ref: Seq<char>, exists: bool) -> Seq<Seq<char>> {
    if !exists {
        seq!["worktree"@, "add"@, "-b"@, branch, path, base_ref]
    } else {
        seq!["worktree"@, "add"@, path, branch]
    }
}

/// The arguments of `git worktree add` for a session's worktree.
pub fn worktree_add_args(branch: &str, path: &str, base_ref: &str, exists: bool) -> (r: Vec<String>)
    ensures
        views(r@) == worktree_add_spec(branch@, path@, base_ref@, exists),
{
    let mut v: Vec<String> = Vec::new();
    v.push(String::from_str("worktree"));
    v.push(String::from_str("add"));
    if !exists {
        v.push(String::from_str("-b"));
        v.push(String::from_str(branch));
        v.push(String::from_str(path));
        v.push(String::from_str(base_ref));
    } else {
        v.push(String::from_str(path));
        v.push(String::from_str(branch));
    }
    assert(views(v@) =~= worktree_add_spec(branch@, path@, base_ref@, exists));
    v
}

/// A path with a leading `~` taken as the home directory, when it is known:
/// `~` alone, or `~/` or `~\` before the rest.
pub open spec fn tilde_spec(path: Seq<char>, home: Option<Seq<char>>) -> Seq<char> {
    match home {
        Some(h) => if path == "~"@ {
            h
        } else if starts_with(path, "~/"@) || starts_with(path, "~\\"@) {
            h + "/"@ + path.skip(2)
        } else {
            path
        },
        None => path,
    }
}

/// A path with its leading `~` expanded to `home`.
pub fn expand_tilde(path: &str, home: Option<&str>) -> (r: String)
    ensures
        r@ == tilde_spec(path@, opt_str_view(home)),
{
    proof {
        reveal_strlit("~/");
        reveal_strlit("~\\");
    }
    match home {
        Some(h) => {
            if text_eq(path, "~") {
                return String::from_str(h);
            }
            if starts_with_str(path, "~/") || starts_with_str(path, "~\\") {
                let cs = chars_vec(path);
                let rest = string_of_range(cs.as_slice(), 2, cs.len());
                let mut r = String::from_str(h);
                push_str(&mut r, "/");
                push_str(&mut r, rest.as_str());
                assert(rest@ =~= path@.skip(2));
                return r;
            }
            String::from_str(path)
        },
        None => String::from_str(path),
    }
}

// ---------------------------------------------------------------------------
// `cx`
// ---------------------------------------------------------------------------

/// What `cx` is asked to do.
pub enum CxCommand {
    /// Print the usage and exit with 0.
    Help,
    /// Export a session: its id, the output path and code directory when
    /// given, and the mode.
    Export { session_id: String, out: Option<String>, code_dir: Option<String>, mode: ExportMode },
    /// Print the usage and exit with 2: no session id was given.
    Usage,
    /// Print the message and exit with 2.
    Fail(String),
}

/// The mathematical form of a `cx` command.
pub enum CxView {
    Help,
    Export(Seq<char>, Option<Seq<char>>, Option<Seq<char>>, ExportMode),
    Usage,
    Fail(Seq<char>),
}

impl View for CxCommand {
    type V = CxView;

    open spec fn view(&self) -> CxView {
        match self {
            CxCommand::Help => CxView::Help,
            CxCommand::Export { session_id, out, code_dir, mode } => CxView::Export(
                session_id@,
                opt_string(*out),
                opt_string(*code_dir),
                *mode,
            ),
            CxCommand::Usage => CxView::Usage,
            CxCommand::Fail(m) => CxView::Fail(m@),
        }
    }
}

/// What `cx`'s arguments (after the program) ask for, read from position
/// `i` on with the session id, paths and mode read so far.
pub open spec fn cx_from(
    args: Seq<Seq<char>>,
    i: int,
    sid: Option<Seq<char>>,
    out: Option<Seq<char>>,
    code_dir: Option<Seq<char>>,
    mode: ExportMode,
) -> CxView
    decreases args.len() - i,
{
    if i < 0 || i >= args.len() {
        match sid {
            Some(s) => CxView::Export(s, out, code_dir, mode),
            None => CxView::Usage,
        }
    } else {
        let a = args[i];
        if a == "-h"@ || a == "--help"@ {
            CxView::Help
        } else if a == "-o"@ || a == "--out"@ {
            if i + 1 < args.len() {
                cx_from(args, i + 2, sid, Some(args[i + 1]), code_dir, mode)
            } else {
                CxView::Fail("Missing value for --out"@)
            }
        } else if a == "-c"@ || a == "--code-dir"@ {
            if i + 1 < args.len() {
                cx_from(args, i + 2, sid, out, Some(args[i + 1]), mode)
            } else {
                CxView::Fail("Missing value for --code-dir"@)
            }
        } else if a == "--compact"@ {
            cx_from(args, i + 1, sid, out, code_dir, ExportMode::Compact)
        } else if a == "--medium"@ {
            cx_from(args, i + 1, sid, out, code_dir, ExportMode::Medium)
        } else if a == "--full"@ {
            cx_from(args, i + 1, sid, out, code_dir, ExportMode::Full)
        } else if a == "--json"@ {
            cx_from(args, i + 1, sid, out, code_dir, ExportMode::Json)
        } else if starts_with(a, "-"@) {
            CxView::Fail("Unknown flag: "@ + a)
        } else if sid is Some {
            CxView::Fail("Unexpected argument: "@ + a)
        } else {
            cx_from(args, i + 1, Some(a), out, code_dir, mode)
        }
    }
}

proof fn lemma_cx_append(
    args: Seq<Seq<char>>,
    x: Seq<char>,
    i: int,
    sid: Option<Seq<char>>,
    out: Option<Seq<char>>,
    code_dir: Option<Seq<char>>,
    mode: ExportMode,
)
    requires
        0 <= i <= args.len(),
        cx_from(args, i, sid, out, code_dir, mode) is Export,
    ensures
        ({
            let r = cx_from(args, i, sid, out, code_dir, mode);
            cx_from(args.push(x), i, sid, out, code_dir, mode) == cx_from(
                args.push(x),
                args.len() as int,
                Some(r->Export_0),
                r->Export_1,
                r->Export_2,
                r->Export_3,
            )
        }),
    decreases args.len() - i,
{
    let p = args.push(x);
    if i < args.len() {
        let a = args[i];
        assert(p[i] == a);
        if a == "-o"@ || a == "--out"@ {
            if i + 1 < args.len() {
                assert(p[i + 1] == args[i + 1]);
                lemma_cx_append(args, x, i + 2, sid, Some(args[i + 1]), code_dir, mode);
            }
        } else if a == "-c"@ || a == "--code-dir"@ {
            if i + 1 < args.len() {
                assert(p[i + 1] == args[i + 1]);
                lemma_cx_append(args, x, i + 2, sid, out, Some(args[i + 1]), mode);
            }
        } else if a == "--compact"@ {
            lemma_cx_append(args, x, i + 1, sid, out, code_dir, ExportMode::Compact);
        } else if a == "--medium"@ {
            lemma_cx_append(args, x, i + 1, sid, out, code_dir, ExportMode::Medium);
        } else if a == "--full"@ {
            lemma_cx_append(args, x, i + 1, sid, out, code_dir, ExportMode::Full);
        } else if a == "--json"@ {
            lemma_cx_append(args, x, i + 1, sid, out, code_dir, ExportMode::Json);
        } else if !starts_with(a, "-"@) && sid is None {
            lemma_cx_append(args, x, i + 1, Some(a), out, code_dir, mode);
        }
    }
}

/// The last mode flag decides the mode: appending `--compact`, `--medium`,
/// `--full` or `--json` to arguments that ask for an export asks for the same
/// export (session, output path, code directory) in that flag's mode.
pub proof fn law_last_mode_flag_wins(args: Seq<Seq<char>>, flag: Seq<char>, mode: ExportMode)
    requires
        (flag == "--compact"@ && mode == ExportMode::Compact) || (flag == "--medium"@ && mode
            == ExportMode::Medium) || (flag == "--full"@ && mode == ExportMode::Full) || (flag
            == "--json"@ && mode == ExportMode::Json),
        cx_from(args, 0, None, None, None, ExportMode::Compact) is Export,
    ensures
        ({
            let r = cx_from(args, 0, None, None, None, ExportMode::Compact);
            cx_from(args.push(flag), 0, None, None, None, ExportMode::Compact) == CxView::Export(
                r->Export_0,
                r->Export_1,
                r->Export_2,
                mode,
            )
        }),
{
    reveal_strlit("-h");
    reveal_strlit("--help");
    reveal_strlit("-o");
    reveal_strlit("--out");
    reveal_strlit("-c");
    reveal_strlit("--code-dir");
    reveal_strlit("--compact");
    reveal_strlit("--medium");
    reveal_strlit("--full");
    reveal_strlit("--json");
    let r = cx_from(args, 0, None, None, None, ExportMode::Compact);
    lemma_cx_append(args, flag, 0, None, None, None, ExportMode::Compact);
    let p = args.push(flag);
    assert(p[args.len() as int] == flag);
    assert(flag != "-h"@ && flag != "--help"@ && flag != "-o"@ && flag != "--out"@ && flag != "-c"@
        && flag != "--code-dir"@) by {
        assert("--help"@[2] == 'h');
        assert("--code-dir"@.len() == 10);
        assert("--out"@.len() == 5);
        assert("-h"@.len() == 2 && "-o"@.len() == 2 && "-c"@.len() == 2);
        if flag == "--full"@ {
            assert(flag[2] == 'f');
        } else if flag == "--json"@ {
            assert(flag[2] == 'j');
        }
    }
    let n = args.len() as int;
    assert("--compact"@.len() == 9 && "--medium"@.len() == 8 && "--full"@.len() == 6 && "--json"@.len() == 6);
    assert("--full"@[2] == 'f' && "--json"@[2] == 'j');
    assert(p[n] == flag);
    assert(cx_from(p, n + 1, Some(r->Export_0), r->Export_1, r->Export_2, mode) == CxView::Export(
        r->Export_0,
        r->Export_1,
        r->Export_2,
        mode,
    ));
    assert(cx_from(p, n, Some(r->Export_0), r->Export_1, r->Export_2, r->Export_3) == cx_from(
        p,
        n + 1,
        Some(r->Export_0),
        r->Export_1,
        r->Export_2,
        mode,
    ));
}

/// What `cx`'s arguments (after the program) ask for; the mode is compact
/// unless a flag says otherwise, the last flag winning.
pub fn parse_cx_args(args: &Vec<String>) -> (r: CxCommand)
    ensures
        r@ == cx_from(views(args@), 0, None, None, None, ExportMode::Compact),
{
    let ghost a = views(args@);
    let mut sid: Option<String> = None;
    let mut out: Option<String> = None;
    let mut code_dir: Option<String> = None;
    let mut mode = ExportMode::Compact;
    let mut i: usize = 0;
    while i < args.len()
        invariant
            i <= args@.len(),
            a == views(args@),
            cx_from(a, 0, None, None, None, ExportMode::Compact) == cx_from(
                a,
                i as int,
                opt_string(sid),
                opt_string(out),
                opt_string(code_dir),
                mode,
            ),
        decreases args.len() - i,
    {
        let x = args[i].as_str();
        if text_eq(x, "-h") || text_eq(x, "--help") {
            return CxCommand::Help;
        } else if text_eq(x, "-o") || text_eq(x, "--out") {
            if i + 1 < args.len() {
                out = Some(args[i + 1].clone());
                i = i + 2;
            } else {
                return CxCommand::Fail(String::from_str("Missing value for --out"));
            }
        } else if text_eq(x, "-c") || text_eq(x, "--code-dir") {
            if i + 1 < args.len() {
                code_dir = Some(args[i + 1].clone());
                i = i + 2;
            } else {
                return CxCommand::Fail(String::from_str("Missing value for --code-dir"));
            }
        } else if text_eq(x, "--compact") {
            mode = ExportMode::Compact;
            i = i + 1;
        } else if text_eq(x, "--medium") {
            mode = ExportMode::Medium;
            i = i + 1;
        } else if text_eq(x, "--full") {
            mode = ExportMode::Full;
            i = i + 1;
        } else if text_eq(x, "--json") {
            mode = ExportMode::Json;
            i = i + 1;
        } else if starts_with_str(x, "-") {
            let mut m = String::from_str("Unknown flag: ");
            push_str(&mut m, x);
            return CxCommand::Fail(m);
        } else if sid.is_some() {
            let mut m = String::from_str("Unexpected argument: ");
            push_str(&mut m, x);
            return CxCommand::Fail(m);
        } else {
            sid = Some(args[i].clone());
            i = i + 1;
        }
    }
    match sid {
        Some(s) => CxCommand::Export { session_id: s, out, code_dir, mode },
        None => CxCommand::Usage,
    }
}

} // verus!
