//! The session picker as a state machine: its state, the keys it takes, and
//! the work it hands back to the caller (tmux, the exporter, the clock).
//!
//! Every handler takes the time as milliseconds on a monotonic clock and
//! returns an `Action`; the caller performs it and reports back through
//! `refresh_sessions`, `apply_preview`, `session_killed`, `pane_killed` or
//! `export_done`.
use vstd::prelude::*;

use crate::exporter::ExportMode;
use crate::layout::{delete_last_word, pop_char, without_last_word};
use crate::panes::{PreviewView, SessionPreview};
use crate::sessions::{
    filter_and_sort, names_within_limit, normalize_session_name, normalized_name, ranked,
    ranked_sessions, session_views, sessions_within_limit, SessionInfo, SessionView,
};
use crate::text::{lines, lines_of, push_str, spec_to_lowercase, to_lowercase_str, trim, trim_end, trim_end_str, trim_str, views};
use crate::json::text_eq;

verus! {

broadcast use vstd::std_specs::vec::group_vec_axioms;

// ---------------------------------------------------------------------------
// Keys
// ---------------------------------------------------------------------------

/// A key, as the picker tells keys apart.
#[derive(Clone, Copy, Debug, PartialEq, Eq, Structural)]
pub enum KeyCode {
    Char(char),
    F(u8),
    Enter,
    Esc,
    Tab,
    BackTab,
    Backspace,
    Delete,
    Up,
    Down,
    PageUp,
    PageDown,
    Home,
    End,
    /// Any other key.
    Other,
}

/// The modifiers held with a key; `other` is Shift, Hyper or Meta.
#[derive(Clone, Copy, Debug, PartialEq, Eq, Structural)]
pub struct KeyMods {
    pub control: bool,
    pub alt: bool,
    pub super_key: bool,
    pub other: bool,
}

/// A key press.
#[derive(Clone, Copy, Debug, PartialEq, Eq, Structural)]
pub struct Key {
    pub code: KeyCode,
    pub mods: KeyMods,
}

/// No modifier at all.
pub open spec fn no_mods(m: KeyMods) -> bool {
    !m.control && !m.alt && !m.super_key && !m.other
}

/// A character the input lines take: a printable ASCII character or a space.
pub open spec fn typable(c: char) -> bool {
    ('!' <= c && c <= '~') || c == ' '
}

impl Key {
    /// A key with no modifier.
    pub fn plain(code: KeyCode) -> (r: Key)
        ensures
            r.code == code,
            no_mods(r.mods),
    {
        Key { code, mods: KeyMods { control: false, alt: false, super_key: false, other: false } }
    }

    /// A key held with Control.
    pub fn ctrl(code: KeyCode) -> (r: Key)
        ensures
            r.code == code,
            r.mods == (KeyMods { control: true, alt: false, super_key: false, other: false }),
    {
        Key { code, mods: KeyMods { control: true, alt: false, super_key: false, other: false } }
    }
}

// ---------------------------------------------------------------------------
// State
// ---------------------------------------------------------------------------

/// Which line the keys edit.
#[derive(Clone, Copy, Debug, PartialEq, Eq, Structural)]
pub enum InputMode {
    Filter,
    NewSession,
    Rename,
}

/// How much of a session an export keeps.
#[derive(Clone, Copy, Debug, PartialEq, Eq, Structural)]
pub enum ExportDepth {
    Compact,
    Medium,
    Full,
    Json,
}

/// The export mode of a depth.
pub open spec fn depth_mode(d: ExportDepth) -> ExportMode {
    match d {
        ExportDepth::Compact => ExportMode::Compact,
        ExportDepth::Medium => ExportMode::Medium,
        ExportDepth::Full => ExportMode::Full,
        ExportDepth::Json => ExportMode::Json,
    }
}

impl ExportDepth {
    /// The export mode of this depth.
    pub fn export_mode(self) -> (r: ExportMode)
        ensures
            r == depth_mode(self),
    {
        match self {
            ExportDepth::Compact => ExportMode::Compact,
            ExportDepth::Medium => ExportMode::Medium,
            ExportDepth::Full => ExportMode::Full,
            ExportDepth::Json => ExportMode::Json,
        }
    }
}

/// A question about a session that waits for an answer until `when`.
pub struct Pending {
    pub name: String,
    pub when: u64,
}

/// A question about a pane that waits for an answer until `when`.
pub struct PendingPane {
    pub session: String,
    pub pane_id: String,
    pub when: u64,
}

/// An error of the tool: the exit code and the message printed before exiting.
pub struct ExitError {
    pub code: i32,
    pub msg: String,
}

impl ExitError {
    /// An error with `code` and `msg`.
    pub fn new(code: i32, msg: String) -> (r: ExitError)
        ensures
            r.code == code,
            r.msg@ == msg@,
    {
        ExitError { code, msg }
    }
}

/// The picker.
pub struct App {
    pub all_sessions: Vec<SessionInfo>,
    pub items: Vec<SessionInfo>,
    pub filter: String,
    pub selected: usize,
    pub input_mode: InputMode,
    pub new_session_name: String,
    pub status_line: Option<(String, u64)>,
    pub pending_open: Option<Pending>,
    pub pending_delete: Option<Pending>,
    pub pending_pane_delete: Option<PendingPane>,
    pub pending_export: Option<Pending>,
    pub show_help: bool,
    pub show_preview: bool,
    pub pending_g_until: Option<u64>,
    pub preview_for: Option<String>,
    pub preview_lines: Vec<String>,
    pub preview_pane_ids: Vec<String>,
    pub preview_selected_idx: usize,
    pub preview_updated_at: Option<u64>,
    /// The session being renamed, while the rename line is open.
    pub rename_from: Option<String>,
    pub rename_input: String,
    /// The full-screen view of a copied output, while it is open.
    pub copy_preview: Option<CopyPreview>,
}

/// A copied output shown full screen: its title, its lines, and the first
/// line shown.
pub struct CopyPreview {
    pub title: String,
    pub lines: Vec<String>,
    pub scroll: usize,
}

/// The mathematical form of a copied output's view.
pub struct CopyPreviewView {
    pub title: Seq<char>,
    pub lines: Seq<Seq<char>>,
    pub scroll: nat,
}

/// The view of an optional copied output.
pub open spec fn copy_preview_view(p: Option<CopyPreview>) -> Option<CopyPreviewView> {
    match p {
        Some(p) => Some(CopyPreviewView { title: p.title@, lines: views(p.lines@), scroll: p.scroll as nat }),
        None => None,
    }
}

/// The mathematical form of the picker.
pub struct AppView {
    pub all_sessions: Seq<SessionView>,
    pub items: Seq<SessionView>,
    pub filter: Seq<char>,
    pub selected: nat,
    pub input_mode: InputMode,
    pub new_session_name: Seq<char>,
    pub status_line: Option<(Seq<char>, u64)>,
    pub pending_open: Option<(Seq<char>, u64)>,
    pub pending_delete: Option<(Seq<char>, u64)>,
    pub pending_pane_delete: Option<(Seq<char>, Seq<char>, u64)>,
    pub pending_export: Option<(Seq<char>, u64)>,
    pub show_help: bool,
    pub show_preview: bool,
    pub pending_g_until: Option<u64>,
    pub preview_for: Option<Seq<char>>,
    pub preview_lines: Seq<Seq<char>>,
    pub preview_pane_ids: Seq<Seq<char>>,
    pub preview_selected_idx: nat,
    pub preview_updated_at: Option<u64>,
    pub rename_from: Option<Seq<char>>,
    pub rename_input: Seq<char>,
    pub copy_preview: Option<CopyPreviewView>,
}

/// The view of an optional question.
pub open spec fn pending_view(p: Option<Pending>) -> Option<(Seq<char>, u64)> {
    match p {
        Some(p) => Some((p.name@, p.when)),
        None => None,
    }
}

/// The view of an optional question about a pane.
pub open spec fn pending_pane_view(p: Option<PendingPane>) -> Option<(Seq<char>, Seq<char>, u64)> {
    match p {
        Some(p) => Some((p.session@, p.pane_id@, p.when)),
        None => None,
    }
}

/// The view of the status line.
pub open spec fn status_view(p: Option<(String, u64)>) -> Option<(Seq<char>, u64)> {
    match p {
        Some((m, u)) => Some((m@, u)),
        None => None,
    }
}

impl View for App {
    type V = AppView;

    open spec fn view(&self) -> AppView {
        AppView {
            all_sessions: session_views(self.all_sessions@),
            items: session_views(self.items@),
            filter: self.filter@,
            selected: self.selected as nat,
            input_mode: self.input_mode,
            new_session_name: self.new_session_name@,
            status_line: status_view(self.status_line),
            pending_open: pending_view(self.pending_open),
            pending_delete: pending_view(self.pending_delete),
            pending_pane_delete: pending_pane_view(self.pending_pane_delete),
            pending_export: pending_view(self.pending_export),
            show_help: self.show_help,
            show_preview: self.show_preview,
            pending_g_until: self.pending_g_until,
            preview_for: crate::patterns::opt_string(self.preview_for),
            preview_lines: views(self.preview_lines@),
            preview_pane_ids: views(self.preview_pane_ids@),
            preview_selected_idx: self.preview_selected_idx as nat,
            preview_updated_at: self.preview_updated_at,
            rename_from: crate::patterns::opt_string(self.rename_from),
            rename_input: self.rename_input@,
            copy_preview: copy_preview_view(self.copy_preview),
        }
    }
}

/// The picker is well formed: every session's name can be scored, and the
/// selection is on an item (0 when there is none).
pub open spec fn app_wf(s: AppView) -> bool {
    &&& names_within_limit(s.all_sessions)
    &&& (s.items.len() == 0 ==> s.selected == 0)
    &&& (s.items.len() > 0 ==> s.selected < s.items.len())
}

/// `ms` milliseconds after `now`, saturating.
pub open spec fn later(now: u64, ms: u64) -> u64 {
    if now + ms <= u64::MAX {
        (now + ms) as u64
    } else {
        u64::MAX
    }
}

/// `ms` milliseconds after `now`, saturating.
fn later_exec(now: u64, ms: u64) -> (r: u64)
    ensures
        r == later(now, ms),
{
    now.saturating_add(ms)
}

/// The state with `msg` on the status line for `ms` milliseconds.
pub open spec fn with_status(s: AppView, msg: Seq<char>, now: u64, ms: u64) -> AppView {
    AppView { status_line: Some((msg, later(now, ms))), ..s }
}

/// The items for the filter, the selection kept on them.
pub open spec fn with_items(s: AppView) -> AppView {
    let items = ranked_sessions(ranked(s.all_sessions, s.filter));
    AppView {
        items,
        selected: if items.len() == 0 {
            0
        } else if s.selected < items.len() - 1 {
            s.selected
        } else {
            (items.len() - 1) as nat
        },
        ..s
    }
}

/// The state with a new list of sessions: selection at the top, items
/// refreshed, and the preview marked for refetching.
pub open spec fn with_sessions(s: AppView, sessions: Seq<SessionView>) -> AppView {
    with_items(
        AppView {
            all_sessions: sessions,
            selected: 0,
            preview_for: None,
            preview_pane_ids: seq![],
            preview_selected_idx: 0,
            preview_updated_at: None,
            ..s
        },
    )
}

/// The name of the selected item.
pub open spec fn selected_name_spec(s: AppView) -> Option<Seq<char>> {
    if s.selected < s.items.len() {
        Some(s.items[s.selected as int].name)
    } else {
        None
    }
}

/// The selection moved up by `amount`, stopping at the top.
pub open spec fn moved_up(s: AppView, amount: nat) -> AppView {
    if s.items.len() == 0 {
        s
    } else {
        AppView { selected: if s.selected > amount { (s.selected - amount) as nat } else { 0 }, ..s }
    }
}

/// The selection moved down by `amount`, stopping at the last item.
pub open spec fn moved_down(s: AppView, amount: nat) -> AppView {
    if s.items.len() == 0 {
        s
    } else {
        let t = s.selected + amount;
        AppView {
            selected: if t < s.items.len() - 1 { t } else { (s.items.len() - 1) as nat },
            ..s
        }
    }
}

/// The filter cleared, when it was not empty.
pub open spec fn filter_cleared(s: AppView) -> AppView {
    if s.filter.len() == 0 {
        s
    } else {
        with_items(AppView { filter: Seq::empty(), selected: 0, ..s })
    }
}

/// The timers that ran out at `now` cleared: the status line and the questions.
pub open spec fn pruned(s: AppView, now: u64) -> AppView {
    AppView {
        status_line: match s.status_line {
            Some((m, u)) => if now >= u { None } else { Some((m, u)) },
            None => None,
        },
        pending_delete: match s.pending_delete {
            Some((n, w)) => if now >= w { None } else { Some((n, w)) },
            None => None,
        },
        pending_pane_delete: match s.pending_pane_delete {
            Some((a, b, w)) => if now >= w { None } else { Some((a, b, w)) },
            None => None,
        },
        pending_export: match s.pending_export {
            Some((n, w)) => if now >= w { None } else { Some((n, w)) },
            None => None,
        },
        pending_g_until: match s.pending_g_until {
            Some(u) => if now >= u { None } else { Some(u) },
            None => None,
        },
        ..s
    }
}

/// `g` pressed: a second `g` within 700 ms jumps to the top.
pub open spec fn gg_spec(s: AppView, now: u64) -> AppView {
    match s.pending_g_until {
        Some(u) => if now < u {
            AppView { selected: 0, pending_g_until: None, ..s }
        } else {
            AppView { pending_g_until: Some(later(now, 700)), ..s }
        },
        None => AppView { pending_g_until: Some(later(now, 700)), ..s },
    }
}

impl App {
    /// The picker that `App::new` makes over sessions `all`: all of them
    /// listed, most recent first, with help and preview shown.
    pub open spec fn new_spec(all: Seq<SessionView>) -> AppView {
        AppView {
            all_sessions: all,
            items: ranked_sessions(ranked(all, Seq::empty())),
            filter: Seq::empty(),
            selected: 0,
            input_mode: InputMode::Filter,
            new_session_name: Seq::empty(),
            status_line: None,
            pending_open: None,
            pending_delete: None,
            pending_pane_delete: None,
            pending_export: None,
            show_help: true,
            show_preview: true,
            pending_g_until: None,
            preview_for: None,
            preview_lines: seq![],
            preview_pane_ids: seq![],
            preview_selected_idx: 0,
            preview_updated_at: None,
            rename_from: None,
            rename_input: Seq::empty(),
            copy_preview: None,
        }
    }

    /// The picker over `sessions` (see `new_spec`).
    pub fn new(sessions: Vec<SessionInfo>) -> (r: App)
        requires
            names_within_limit(session_views(sessions@)),
        ensures
            r@ == App::new_spec(session_views(sessions@)),
            app_wf(r@),
    {
        let items = filter_and_sort(sessions.as_slice(), "");
        proof {
            reveal_strlit("");
            assert(""@ =~= Seq::<char>::empty());
        }
        let r = App {
            all_sessions: sessions,
            items,
            filter: String::new(),
            selected: 0,
            input_mode: InputMode::Filter,
            new_session_name: String::new(),
            status_line: None,
            pending_open: None,
            pending_delete: None,
            pending_pane_delete: None,
            pending_export: None,
            show_help: true,
            show_preview: true,
            pending_g_until: None,
            preview_for: None,
            preview_lines: Vec::new(),
            preview_pane_ids: Vec::new(),
            preview_selected_idx: 0,
            preview_updated_at: None,
            rename_from: None,
            rename_input: String::new(),
            copy_preview: None,
        };
        assert(r@.preview_lines =~= Seq::<Seq<char>>::empty());
        assert(r@.preview_pane_ids =~= Seq::<Seq<char>>::empty());
        r
    }

    /// The picker over `sessions` (see `App::new`), when every name can be
    /// scored; nothing otherwise.
    pub fn try_new(sessions: Vec<SessionInfo>) -> (r: Option<App>)
        ensures
            match r {
                Some(a) => names_within_limit(session_views(sessions@)) && a@ == App::new_spec(session_views(sessions@)),
                None => !names_within_limit(session_views(sessions@)),
            },
    {
        if sessions_within_limit(&sessions) {
            Some(App::new(sessions))
        } else {
            None
        }
    }

    /// Takes a new list of sessions (see `App::refresh_sessions`) when every
    /// name can be scored, and says whether it did; the picker is unchanged
    /// otherwise.
    pub fn try_refresh_sessions(&mut self, sessions: Vec<SessionInfo>) -> (r: bool)
        ensures
            r == names_within_limit(session_views(sessions@)),
            r ==> final(self)@ == with_sessions(old(self)@, session_views(sessions@)),
            !r ==> final(self)@ == old(self)@,
    {
        if sessions_within_limit(&sessions) {
            self.refresh_sessions(sessions);
            true
        } else {
            false
        }
    }

    /// Recomputes the items for the filter and keeps the selection on them.
    pub fn refresh_items(&mut self)
        requires
            names_within_limit(old(self)@.all_sessions),
        ensures
            final(self)@ == with_items(old(self)@),
    {
        self.items = filter_and_sort(self.all_sessions.as_slice(), self.filter.as_str());
        if self.items.len() == 0 {
            self.selected = 0;
        } else if self.selected >= self.items.len() - 1 {
            self.selected = self.items.len() - 1;
        }
    }

    /// Takes a new list of sessions from tmux.
    pub fn refresh_sessions(&mut self, sessions: Vec<SessionInfo>)
        requires
            names_within_limit(session_views(sessions@)),
        ensures
            final(self)@ == with_sessions(old(self)@, session_views(sessions@)),
    {
        self.all_sessions = sessions;
        self.selected = 0;
        self.preview_for = None;
        self.preview_pane_ids = Vec::new();
        self.preview_selected_idx = 0;
        self.preview_updated_at = None;
        assert(self@.preview_pane_ids =~= Seq::<Seq<char>>::empty());
        self.refresh_items();
    }

    /// The name of the selected item, if any.
    pub fn selected_name(&self) -> (r: Option<String>)
        ensures
            crate::patterns::opt_string(r) == selected_name_spec(self@),
    {
        if self.selected < self.items.len() {
            Some(self.items[self.selected].name.clone())
        } else {
            None
        }
    }

    /// Shows `msg` on the status line for `ms` milliseconds.
    pub fn set_status_for(&mut self, msg: String, ms: u64, now: u64)
        ensures
            final(self)@ == with_status(old(self)@, msg@, now, ms),
    {
        self.status_line = Some((msg, later_exec(now, ms)));
    }

    /// Clears the status line and the questions whose time ran out.
    pub fn prune_timers(&mut self, now: u64)
        ensures
            final(self)@ == pruned(old(self)@, now),
    {
        let drop_status = match &self.status_line {
            Some((_, until)) => now >= *until,
            None => false,
        };
        if drop_status {
            self.status_line = None;
        }
        let drop_delete = match &self.pending_delete {
            Some(p) => now >= p.when,
            None => false,
        };
        if drop_delete {
            self.pending_delete = None;
        }
        let drop_pane = match &self.pending_pane_delete {
            Some(p) => now >= p.when,
            None => false,
        };
        if drop_pane {
            self.pending_pane_delete = None;
        }
        let drop_export = match &self.pending_export {
            Some(p) => now >= p.when,
            None => false,
        };
        if drop_export {
            self.pending_export = None;
        }
        if let Some(until) = self.pending_g_until {
            if now >= until {
                self.pending_g_until = None;
            }
        }
    }

    /// The session to open now, when a normalized name was shown long enough.
    pub fn open_due(&self, now: u64) -> (r: Option<String>)
        ensures
            crate::patterns::opt_string(r) == match self@.pending_open {
                Some((n, w)) => if now >= w { Some(n) } else { None },
                None => None,
            },
    {
        match &self.pending_open {
            Some(p) => if now >= p.when {
                Some(p.name.clone())
            } else {
                None
            },
            None => None,
        }
    }
}

/// Moves the selection up by `amount`.
pub fn move_selection_up(app: &mut App, amount: usize)
    ensures
        final(app)@ == moved_up(old(app)@, amount as nat),
{
    if app.items.len() > 0 {
        app.selected = if app.selected > amount {
            app.selected - amount
        } else {
            0
        };
    }
}

/// Moves the selection down by `amount`.
pub fn move_selection_down(app: &mut App, amount: usize)
    ensures
        final(app)@ == moved_down(old(app)@, amount as nat),
{
    if app.items.len() > 0 {
        let last = app.items.len() - 1;
        app.selected = if app.selected < last && amount < last - app.selected {
            app.selected + amount
        } else {
            last
        };
    }
}

/// Clears the filter, when it is not empty.
pub fn clear_filter(app: &mut App)
    requires
        names_within_limit(old(app)@.all_sessions),
    ensures
        final(app)@ == filter_cleared(old(app)@),
{
    if !app.filter.as_str().is_empty() {
        app.filter = String::new();
        app.selected = 0;
        app.refresh_items();
    }
}

/// `g` pressed.
pub fn handle_gg(app: &mut App, now: u64)
    ensures
        final(app)@ == gg_spec(old(app)@, now),
{
    let again = match app.pending_g_until {
        Some(until) => now < until,
        None => false,
    };
    if again {
        app.selected = 0;
        app.pending_g_until = None;
        return;
    }
    app.pending_g_until = Some(later_exec(now, 700));
}

// ---------------------------------------------------------------------------
// Work handed back to the caller
// ---------------------------------------------------------------------------

/// What the caller does after a key.
pub enum Action {
    /// Nothing.
    Stay,
    /// Leave the picker, opening the named session or none.
    Exit(Option<String>),
    /// Export the named session; report with `App::export_done`.
    Export(String, ExportDepth),
    /// Kill the named session; report with `App::session_killed`.
    KillSession(String),
    /// Kill a pane (session, pane id); report with `App::pane_killed`.
    KillPane(String, String),
    /// Reload the sessions from tmux and hand them to `App::refresh_sessions`.
    RefreshSessions,
    /// Refresh the preview now (`App::refresh_preview_if_needed` with `force`).
    RefreshPreview,
    /// Rename a session (old name, new name); report with `App::session_renamed`.
    Rename(String, String),
    /// Copy the `n`-th last assistant output of the named session's chat to
    /// the clipboard (1 for the last); report with `App::copy_done`.
    Copy(String, usize),
}

/// The mathematical form of an action.
pub enum ActionView {
    Stay,
    Exit(Option<Seq<char>>),
    Export(Seq<char>, ExportDepth),
    KillSession(Seq<char>),
    KillPane(Seq<char>, Seq<char>),
    RefreshSessions,
    RefreshPreview,
    Rename(Seq<char>, Seq<char>),
    Copy(Seq<char>, usize),
}

impl View for Action {
    type V = ActionView;

    open spec fn view(&self) -> ActionView {
        match self {
            Action::Stay => ActionView::Stay,
            Action::Exit(n) => ActionView::Exit(crate::patterns::opt_string(*n)),
            Action::Export(n, d) => ActionView::Export(n@, *d),
            Action::KillSession(n) => ActionView::KillSession(n@),
            Action::KillPane(a, b) => ActionView::KillPane(a@, b@),
            Action::RefreshSessions => ActionView::RefreshSessions,
            Action::RefreshPreview => ActionView::RefreshPreview,
            Action::Rename(a, b) => ActionView::Rename(a@, b@),
            Action::Copy(n, k) => ActionView::Copy(n@, *k),
        }
    }
}

/// How a tmux command on a session or a pane (kill, rename) went.
pub enum TmuxOutcome {
    /// tmux did it.
    Done,
    /// tmux exited with an error.
    Failed,
    /// tmux could not be run; the message says why.
    Error(String),
}

/// How an export went.
pub enum ExportOutcome {
    /// No coder session runs in the tmux session.
    NoSessionId,
    /// The transcript was written to this path.
    Wrote(String),
    /// The export failed with this message.
    Failed(String),
}

/// How copying an assistant output went.
pub enum CopyOutcome {
    /// No coder session runs in the tmux session.
    NoSessionId,
    /// The chat holds fewer assistant outputs than asked for.
    NoOutput,
    /// This text was copied to the clipboard.
    Copied(String),
    /// The copy failed with this message.
    Failed(String),
}

/// A preview to fetch: the session and the pane asked for, if any.
pub struct PreviewRequest {
    pub session: String,
    pub pane: Option<String>,
}

// ---------------------------------------------------------------------------
// Questions and their answers
// ---------------------------------------------------------------------------

/// Opening a typed name: blank does nothing; a name that normalizes to
/// nothing is refused; a name that changes is shown for 900 ms and opened
/// then; a valid name is opened at once.
pub open spec fn open_raw_spec(s: AppView, raw: Seq<char>, now: u64) -> (AppView, ActionView) {
    let t = trim(raw);
    if t.len() == 0 {
        (s, ActionView::Stay)
    } else {
        let n = normalized_name(t);
        if n.len() == 0 {
            (with_status(s, "Invalid name. Allowed: letters, digits, . _ : -"@, now, 1100), ActionView::Stay)
        } else if n != t {
            (
                AppView {
                    pending_open: Some((n, later(now, 900))),
                    ..with_status(s, "Using session name: "@ + n, now, 900)
                },
                ActionView::Stay,
            )
        } else {
            (s, ActionView::Exit(Some(n)))
        }
    }
}

/// Opens a typed name (see `open_raw_spec`).
pub fn request_open_from_raw(app: &mut App, raw: &str, now: u64) -> (r: Action)
    ensures
        (final(app)@, r@) == open_raw_spec(old(app)@, raw@, now),
{
    let t = trim_str(raw);
    if t.as_str().is_empty() {
        return Action::Stay;
    }
    let n = normalize_session_name(t.as_str());
    if n.as_str().is_empty() {
        app.set_status_for(String::from_str("Invalid name. Allowed: letters, digits, . _ : -"), 1100, now);
        return Action::Stay;
    }
    if !text_eq(n.as_str(), t.as_str()) {
        let mut msg = String::from_str("Using session name: ");
        push_str(&mut msg, n.as_str());
        app.set_status_for(msg, 900, now);
        app.pending_open = Some(Pending { name: n, when: later_exec(now, 900) });
        return Action::Stay;
    }
    Action::Exit(Some(n))
}

/// Asking to delete the selected session, for 3 s.
pub open spec fn prompt_delete_spec(s: AppView, now: u64) -> AppView {
    match selected_name_spec(s) {
        None => with_status(s, "No session selected"@, now, 1000),
        Some(n) => with_status(
            AppView { pending_delete: Some((n, later(now, 3000))), ..s },
            "Delete session '"@ + n + "' ? [y/N]"@,
            now,
            3000,
        ),
    }
}

/// Asks whether to delete the selected session.
pub fn prompt_delete_selected_session(app: &mut App, now: u64)
    ensures
        final(app)@ == prompt_delete_spec(old(app)@, now),
{
    match app.selected_name() {
        None => {
            app.set_status_for(String::from_str("No session selected"), 1000, now);
        },
        Some(name) => {
            let mut msg = String::from_str("Delete session '");
            push_str(&mut msg, name.as_str());
            push_str(&mut msg, "' ? [y/N]");
            app.pending_delete = Some(Pending { name, when: later_exec(now, 3000) });
            app.set_status_for(msg, 3000, now);
        },
    }
}

/// Asking how to export the selected session, for 8 s.
pub open spec fn export_prompt_spec(s: AppView, now: u64) -> AppView {
    match selected_name_spec(s) {
        None => with_status(s, "No session selected"@, now, 1000),
        Some(n) => with_status(
            AppView { pending_export: Some((n, later(now, 8000))), ..s },
            "Export '"@ + n + "' as [1]compact [2]medium [3]full [4]json (Enter=medium, Esc cancel)"@,
            now,
            8000,
        ),
    }
}

/// Asks how to export the selected session.
pub fn start_export_prompt(app: &mut App, now: u64)
    ensures
        final(app)@ == export_prompt_spec(old(app)@, now),
{
    match app.selected_name() {
        None => {
            app.set_status_for(String::from_str("No session selected"), 1000, now);
        },
        Some(name) => {
            let mut msg = String::from_str("Export '");
            push_str(&mut msg, name.as_str());
            push_str(&mut msg, "' as [1]compact [2]medium [3]full [4]json (Enter=medium, Esc cancel)");
            app.pending_export = Some(Pending { name, when: later_exec(now, 8000) });
            app.set_status_for(msg, 8000, now);
        },
    }
}

/// Killing the selected session: at once when `immediate`, else on the
/// second request within 2 s for the same session.
pub open spec fn kill_session_spec(s: AppView, immediate: bool, now: u64) -> (AppView, ActionView) {
    match selected_name_spec(s) {
        None => (with_status(s, "No session selected"@, now, 1000), ActionView::Stay),
        Some(n) => {
            let confirmed = match s.pending_delete {
                Some((p, w)) => p == n && now < w,
                None => false,
            };
            if !immediate && !confirmed {
                (
                    with_status(
                        AppView { pending_delete: Some((n, later(now, 2000))), ..s },
                        "Press Ctrl+X again to kill session '"@ + n + "'."@,
                        now,
                        2000,
                    ),
                    ActionView::Stay,
                )
            } else {
                (AppView { pending_delete: None, ..s }, ActionView::KillSession(n))
            }
        },
    }
}

/// Kills the selected session, or asks first (see `kill_session_spec`).
pub fn maybe_kill_selected_session(app: &mut App, immediate: bool, now: u64) -> (r: Action)
    ensures
        (final(app)@, r@) == kill_session_spec(old(app)@, immediate, now),
{
    let name = match app.selected_name() {
        None => {
            app.set_status_for(String::from_str("No session selected"), 1000, now);
            return Action::Stay;
        },
        Some(n) => n,
    };
    let confirmed = match &app.pending_delete {
        Some(p) => text_eq(p.name.as_str(), name.as_str()) && now < p.when,
        None => false,
    };
    if !immediate && !confirmed {
        let mut msg = String::from_str("Press Ctrl+X again to kill session '");
        push_str(&mut msg, name.as_str());
        push_str(&mut msg, "'.");
        app.pending_delete = Some(Pending { name, when: later_exec(now, 2000) });
        app.set_status_for(msg, 2000, now);
        return Action::Stay;
    }
    kill_session_by_name(app, name)
}

/// Kills the named session: the question is dropped and the kill handed back.
pub fn kill_session_by_name(app: &mut App, name: String) -> (r: Action)
    ensures
        final(app)@ == (AppView { pending_delete: None, ..old(app)@ }),
        r@ == ActionView::KillSession(name@),
{
    app.pending_delete = None;
    Action::KillSession(name)
}

/// The pane selected in the preview.
pub open spec fn selected_pane_spec(s: AppView) -> Option<Seq<char>> {
    if s.preview_selected_idx < s.preview_pane_ids.len() {
        Some(s.preview_pane_ids[s.preview_selected_idx as int])
    } else {
        None
    }
}

/// The target of a pane: `session:pane`.
pub open spec fn pane_target(session: Seq<char>, pane: Seq<char>) -> Seq<char> {
    session + ":"@ + pane
}

/// Killing the pane selected in the preview: at once when `immediate`, else
/// on the second request within 2 s for the same pane.
pub open spec fn kill_pane_spec(s: AppView, immediate: bool, now: u64) -> (AppView, ActionView) {
    match selected_name_spec(s) {
        None => (with_status(s, "No session selected"@, now, 1000), ActionView::Stay),
        Some(n) => match selected_pane_spec(s) {
            None => (
                with_status(s, "No pane selected (open preview with F3)."@, now, 1200),
                ActionView::Stay,
            ),
            Some(p) => {
                let confirmed = match s.pending_pane_delete {
                    Some((a, b, w)) => a == n && b == p && now < w,
                    None => false,
                };
                if !immediate && !confirmed {
                    (
                        with_status(
                            AppView { pending_pane_delete: Some((n, p, later(now, 2000))), ..s },
                            "Press Ctrl+Y again to kill pane '"@ + pane_target(n, p) + "'"@,
                            now,
                            2000,
                        ),
                        ActionView::Stay,
                    )
                } else {
                    (AppView { pending_pane_delete: None, ..s }, ActionView::KillPane(n, p))
                }
            },
        },
    }
}

/// Appends `session:pane` to `out`.
fn push_target(out: &mut String, session: &str, pane: &str)
    ensures
        final(out)@ == old(out)@ + pane_target(session@, pane@),
{
    push_str(out, session);
    push_str(out, ":");
    push_str(out, pane);
    proof {
        reveal_strlit(":");
    }
    assert(out@ =~= old(out)@ + pane_target(session@, pane@));
}

/// Kills the pane selected in the preview, or asks first (see `kill_pane_spec`).
pub fn maybe_kill_selected_pane(app: &mut App, immediate: bool, now: u64) -> (r: Action)
    ensures
        (final(app)@, r@) == kill_pane_spec(old(app)@, immediate, now),
{
    let session = match app.selected_name() {
        None => {
            app.set_status_for(String::from_str("No session selected"), 1000, now);
            return Action::Stay;
        },
        Some(n) => n,
    };
    let pane = if app.preview_selected_idx < app.preview_pane_ids.len() {
        app.preview_pane_ids[app.preview_selected_idx].clone()
    } else {
        app.set_status_for(String::from_str("No pane selected (open preview with F3)."), 1200, now);
        return Action::Stay;
    };
    let confirmed = match &app.pending_pane_delete {
        Some(p) => text_eq(p.session.as_str(), session.as_str()) && text_eq(
            p.pane_id.as_str(),
            pane.as_str(),
        ) && now < p.when,
        None => false,
    };
    if !immediate && !confirmed {
        let mut msg = String::from_str("Press Ctrl+Y again to kill pane '");
        push_target(&mut msg, session.as_str(), pane.as_str());
        push_str(&mut msg, "'");
        app.pending_pane_delete = Some(PendingPane { session: session.clone(), pane_id: pane.clone(), when: later_exec(now, 2000) });
        app.set_status_for(msg, 2000, now);
        return Action::Stay;
    }
    app.pending_pane_delete = None;
    Action::KillPane(session, pane)
}

/// The status after killing a session, and whether the sessions are reloaded.
pub open spec fn session_killed_spec(s: AppView, name: Seq<char>, outcome: Option<Option<Seq<char>>>, now: u64) -> (AppView, ActionView) {
    match outcome {
        Some(None) => (with_status(s, "Killed session '"@ + name + "'."@, now, 1200), ActionView::RefreshSessions),
        None => (with_status(s, "Failed to kill session '"@ + name + "'."@, now, 1400), ActionView::Stay),
        Some(Some(m)) => (with_status(s, "Kill failed: "@ + trim_end(m), now, 1600), ActionView::Stay),
    }
}

/// The view of a tmux outcome: done is `Some(None)`, failed `None`, an
/// error `Some(Some(message))`.
pub open spec fn outcome_view(o: TmuxOutcome) -> Option<Option<Seq<char>>> {
    match o {
        TmuxOutcome::Done => Some(None),
        TmuxOutcome::Failed => None,
        TmuxOutcome::Error(m) => Some(Some(m@)),
    }
}

/// The status after killing a pane, and whether the preview is refreshed.
pub open spec fn pane_killed_spec(s: AppView, session: Seq<char>, pane: Seq<char>, outcome: Option<Option<Seq<char>>>, now: u64) -> (AppView, ActionView) {
    match outcome {
        Some(None) => (with_status(s, "Killed pane '"@ + pane_target(session, pane) + "'"@, now, 1200), ActionView::RefreshPreview),
        None => (with_status(s, "Failed to kill pane '"@ + pane_target(session, pane) + "'"@, now, 1500), ActionView::Stay),
        Some(Some(m)) => (with_status(s, "Pane kill failed: "@ + trim_end(m), now, 1700), ActionView::Stay),
    }
}

/// The status after an export.
pub open spec fn export_done_spec(s: AppView, name: Seq<char>, outcome: ExportOutcome, now: u64) -> AppView {
    match outcome {
        ExportOutcome::NoSessionId => with_status(s, "No coder session id found for '"@ + name + "'"@, now, 1800),
        ExportOutcome::Wrote(p) => with_status(s, "Wrote: "@ + p@, now, 3000),
        ExportOutcome::Failed(e) => with_status(s, "Export failed: "@ + e@, now, 3000),
    }
}

impl App {
    /// Reports how killing session `name` went; hands back a reload when it
    /// was killed.
    pub fn session_killed(&mut self, name: &str, outcome: TmuxOutcome, now: u64) -> (r: Action)
        ensures
            (final(self)@, r@) == session_killed_spec(old(self)@, name@, outcome_view(outcome), now),
    {
        match outcome {
            TmuxOutcome::Done => {
                let mut msg = String::from_str("Killed session '");
                push_str(&mut msg, name);
                push_str(&mut msg, "'.");
                self.set_status_for(msg, 1200, now);
                Action::RefreshSessions
            },
            TmuxOutcome::Failed => {
                let mut msg = String::from_str("Failed to kill session '");
                push_str(&mut msg, name);
                push_str(&mut msg, "'.");
                self.set_status_for(msg, 1400, now);
                Action::Stay
            },
            TmuxOutcome::Error(m) => {
                let mut msg = String::from_str("Kill failed: ");
                let t = trim_end_str(m.as_str());
                push_str(&mut msg, t.as_str());
                self.set_status_for(msg, 1600, now);
                Action::Stay
            },
        }
    }

    /// Reports how killing a pane went; hands back a preview refresh when it
    /// was killed.
    pub fn pane_killed(&mut self, session: &str, pane: &str, outcome: TmuxOutcome, now: u64) -> (r: Action)
        ensures
            (final(self)@, r@) == pane_killed_spec(old(self)@, session@, pane@, outcome_view(outcome), now),
    {
        match outcome {
            TmuxOutcome::Done => {
                let mut msg = String::from_str("Killed pane '");
                push_target(&mut msg, session, pane);
                push_str(&mut msg, "'");
                self.set_status_for(msg, 1200, now);
                Action::RefreshPreview
            },
            TmuxOutcome::Failed => {
                let mut msg = String::from_str("Failed to kill pane '");
                push_target(&mut msg, session, pane);
                push_str(&mut msg, "'");
                self.set_status_for(msg, 1500, now);
                Action::Stay
            },
            TmuxOutcome::Error(m) => {
                let mut msg = String::from_str("Pane kill failed: ");
                let t = trim_end_str(m.as_str());
                push_str(&mut msg, t.as_str());
                self.set_status_for(msg, 1700, now);
                Action::Stay
            },
        }
    }

    /// Reports how exporting session `name` went.
    pub fn export_done(&mut self, name: &str, outcome: ExportOutcome, now: u64)
        ensures
            final(self)@ == export_done_spec(old(self)@, name@, outcome, now),
    {
        match outcome {
            ExportOutcome::NoSessionId => {
                let mut msg = String::from_str("No coder session id found for '");
                push_str(&mut msg, name);
                push_str(&mut msg, "'");
                self.set_status_for(msg, 1800, now);
            },
            ExportOutcome::Wrote(p) => {
                let mut msg = String::from_str("Wrote: ");
                push_str(&mut msg, p.as_str());
                self.set_status_for(msg, 3000, now);
            },
            ExportOutcome::Failed(e) => {
                let mut msg = String::from_str("Export failed: ");
                push_str(&mut msg, e.as_str());
                self.set_status_for(msg, 3000, now);
            },
        }
    }
}

// ---------------------------------------------------------------------------
// The preview
// ---------------------------------------------------------------------------

/// The preview after a refresh check: cleared when hidden; a note when no
/// session is selected; else unchanged, and the fetch to make (session and
/// pane) when `force` holds, the preview is older than 2 s, or it shows
/// another session.
pub open spec fn preview_check_spec(s: AppView, force: bool, now: u64) -> (AppView, Option<(Seq<char>, Option<Seq<char>>)>) {
    if !s.show_preview {
        (
            AppView {
                preview_for: None,
                preview_lines: seq![],
                preview_pane_ids: seq![],
                preview_selected_idx: 0,
                preview_updated_at: None,
                ..s
            },
            None,
        )
    } else {
        match selected_name_spec(s) {
            None => (
                AppView {
                    preview_for: None,
                    preview_lines: seq!["No session selected"@],
                    preview_pane_ids: seq![],
                    preview_selected_idx: 0,
                    preview_updated_at: Some(now),
                    ..s
                },
                None,
            ),
            Some(n) => {
                let stale = match s.preview_updated_at {
                    Some(t) => now > t && now - t > 2000,
                    None => true,
                };
                let changed = s.preview_for != Some(n);
                if !force && !stale && !changed {
                    (s, None)
                } else {
                    (s, Some((n, selected_pane_spec(s))))
                }
            },
        }
    }
}

/// The preview shown once fetched for `session`: the fetched one, or a note
/// with the error; the selection kept within the panes.
pub open spec fn preview_applied_spec(s: AppView, session: Seq<char>, fetched: Result<PreviewView, Seq<char>>, now: u64) -> AppView {
    let p = match fetched {
        Ok(p) => p,
        Err(e) => PreviewView {
            lines: seq!["Preview unavailable: "@ + trim_end(e), "(tmux info could not be fetched)"@],
            pane_ids: seq![],
            selected_idx: 0,
        },
    };
    let last = if p.pane_ids.len() > 0 { p.pane_ids.len() - 1 } else { 0 };
    AppView {
        preview_lines: p.lines,
        preview_pane_ids: p.pane_ids,
        preview_selected_idx: if p.selected_idx < last { p.selected_idx } else { last as nat },
        preview_for: Some(session),
        preview_updated_at: Some(now),
        ..s
    }
}

/// The view of a fetched preview.
pub open spec fn fetched_view(r: Result<SessionPreview, String>) -> Result<PreviewView, Seq<char>> {
    match r {
        Ok(p) => Ok(p@),
        Err(e) => Err(e@),
    }
}

/// Stepping the selected pane of the preview by `delta`, around the ends.
pub open spec fn step_pane_spec(s: AppView, delta: int, now: u64) -> (AppView, ActionView) {
    if s.preview_pane_ids.len() == 0 {
        (with_status(s, "No pane selected"@, now, 900), ActionView::Stay)
    } else {
        (
            AppView {
                preview_selected_idx: ((s.preview_selected_idx + delta) % (s.preview_pane_ids.len() as int)) as nat,
                ..s
            },
            ActionView::RefreshPreview,
        )
    }
}

impl App {
    /// Checks whether the preview needs fetching; hands back the fetch to make.
    pub fn refresh_preview_if_needed(&mut self, force: bool, now: u64) -> (r: Option<PreviewRequest>)
        ensures
            (final(self)@, match r {
                Some(q) => Some((q.session@, crate::patterns::opt_string(q.pane))),
                None => None,
            }) == preview_check_spec(old(self)@, force, now),
    {
        if !self.show_preview {
            self.preview_for = None;
            self.preview_lines = Vec::new();
            self.preview_pane_ids = Vec::new();
            self.preview_selected_idx = 0;
            self.preview_updated_at = None;
            assert(self@.preview_lines =~= Seq::<Seq<char>>::empty());
            assert(self@.preview_pane_ids =~= Seq::<Seq<char>>::empty());
            return None;
        }
        let selected = match self.selected_name() {
            Some(n) => n,
            None => {
                self.preview_for = None;
                let mut lines: Vec<String> = Vec::new();
                lines.push(String::from_str("No session selected"));
                self.preview_lines = lines;
                self.preview_pane_ids = Vec::new();
                self.preview_selected_idx = 0;
                self.preview_updated_at = Some(now);
                assert(self@.preview_lines =~= seq!["No session selected"@]);
                assert(self@.preview_pane_ids =~= Seq::<Seq<char>>::empty());
                return None;
            },
        };
        let stale = match self.preview_updated_at {
            Some(t) => now > t && now - t > 2000,
            None => true,
        };
        let changed = match &self.preview_for {
            Some(f) => !text_eq(f.as_str(), selected.as_str()),
            None => true,
        };
        if !force && !stale && !changed {
            return None;
        }
        let pane = if self.preview_selected_idx < self.preview_pane_ids.len() {
            Some(self.preview_pane_ids[self.preview_selected_idx].clone())
        } else {
            None
        };
        Some(PreviewRequest { session: selected, pane })
    }

    /// Shows the preview fetched for `session` (or the error fetching it).
    pub fn apply_preview(&mut self, session: String, fetched: Result<SessionPreview, String>, now: u64)
        ensures
            final(self)@ == preview_applied_spec(old(self)@, session@, fetched_view(fetched), now),
    {
        let p = match fetched {
            Ok(p) => p,
            Err(e) => {
                let mut first = String::from_str("Preview unavailable: ");
                let t = trim_end_str(e.as_str());
                push_str(&mut first, t.as_str());
                let mut lines: Vec<String> = Vec::new();
                lines.push(first);
                lines.push(String::from_str("(tmux info could not be fetched)"));
                let p = SessionPreview { lines, pane_ids: Vec::new(), selected_idx: 0 };
                assert(p@.lines =~= seq!["Preview unavailable: "@ + trim_end(e@), "(tmux info could not be fetched)"@]);
                assert(p@.pane_ids =~= Seq::<Seq<char>>::empty());
                p
            },
        };
        let last: usize = if p.pane_ids.len() > 0 {
            p.pane_ids.len() - 1
        } else {
            0
        };
        self.preview_selected_idx = if p.selected_idx < last {
            p.selected_idx
        } else {
            last
        };
        self.preview_lines = p.lines;
        self.preview_pane_ids = p.pane_ids;
        self.preview_for = Some(session);
        self.preview_updated_at = Some(now);
    }

    /// Selects the pane `delta` steps away in the preview, around the ends.
    pub fn step_preview_pane(&mut self, delta: isize, now: u64) -> (r: Action)
        ensures
            (final(self)@, r@) == step_pane_spec(old(self)@, delta as int, now),
    {
        if self.preview_pane_ids.len() == 0 {
            self.set_status_for(String::from_str("No pane selected"), 900, now);
            return Action::Stay;
        }
        let len = self.preview_pane_ids.len() as i128;
        let x = self.preview_selected_idx as i128 + delta as i128;
        let next = match x.checked_rem_euclid(len) {
            Some(v) => v,
            None => 0,
        };
        self.preview_selected_idx = next as usize;
        Action::RefreshPreview
    }
}

// ---------------------------------------------------------------------------
// The modal
// ---------------------------------------------------------------------------

/// The modal shown at `now`: the export chooser while it waits, else the
/// delete question while it waits.
pub open spec fn modal_spec(s: AppView, now: u64) -> Option<(Seq<char>, Seq<Seq<char>>)> {
    match s.pending_export {
        Some((n, w)) if now < w => Some(
            (
                "Export Markdown"@,
                seq![
                    "Session: "@ + n,
                    Seq::empty(),
                    "Enter / 2 / m  -> medium"@,
                    "1 / c          -> compact"@,
                    "3 / f          -> full"@,
                    "4 / j          -> json"@,
                    "Esc / n / q    -> cancel"@,
                ],
            ),
        ),
        _ => match s.pending_delete {
            Some((n, w)) if now < w => Some(
                (
                    "Confirm Delete"@,
                    seq![
                        "Delete session '"@ + n + "' ?"@,
                        Seq::empty(),
                        "y -> delete"@,
                        "n / Esc -> cancel"@,
                    ],
                ),
            ),
            _ => None,
        },
    }
}

/// The title and lines of the modal shown at `now`, if any.
pub fn modal_content(app: &App, now: u64) -> (r: Option<(String, Vec<String>)>)
    ensures
        match r {
            Some((t, ls)) => modal_spec(app@, now) == Some((t@, views(ls@))),
            None => modal_spec(app@, now) is None,
        },
{
    proof {
        reveal_strlit("");
    }
    if let Some(p) = &app.pending_export {
        if now < p.when {
            let mut first = String::from_str("Session: ");
            push_str(&mut first, p.name.as_str());
            let mut ls: Vec<String> = Vec::new();
            ls.push(first);
            ls.push(String::new());
            ls.push(String::from_str("Enter / 2 / m  -> medium"));
            ls.push(String::from_str("1 / c          -> compact"));
            ls.push(String::from_str("3 / f          -> full"));
            ls.push(String::from_str("4 / j          -> json"));
            ls.push(String::from_str("Esc / n / q    -> cancel"));
            let r = (String::from_str("Export Markdown"), ls);
            assert(views(r.1@) =~= modal_spec(app@, now).unwrap().1);
            return Some(r);
        }
    }
    if let Some(p) = &app.pending_delete {
        if now < p.when {
            let mut first = String::from_str("Delete session '");
            push_str(&mut first, p.name.as_str());
            push_str(&mut first, "' ?");
            let mut ls: Vec<String> = Vec::new();
            ls.push(first);
            ls.push(String::new());
            ls.push(String::from_str("y -> delete"));
            ls.push(String::from_str("n / Esc -> cancel"));
            let r = (String::from_str("Confirm Delete"), ls);
            assert(views(r.1@) =~= modal_spec(app@, now).unwrap().1);
            return Some(r);
        }
    }
    None
}

// ---------------------------------------------------------------------------
// Keys in the filter line
// ---------------------------------------------------------------------------

/// The character a key types into an input line, if it types one: a
/// printable ASCII character or a space, without Control, Alt or Super.
pub open spec fn typed_char(k: Key) -> Option<char> {
    match k.code {
        KeyCode::Char(c) => if !k.mods.control && !k.mods.alt && !k.mods.super_key && typable(c) {
            Some(c)
        } else {
            None
        },
        _ => None,
    }
}

/// Whether the key is the character `c`.
pub open spec fn is_char(k: Key, c: char) -> bool {
    k.code == KeyCode::Char(c)
}

/// The name of the first item whose lower-case name is `lc`.
pub open spec fn item_named(items: Seq<SessionView>, lc: Seq<char>, i: int) -> Option<Seq<char>>
    decreases items.len() - i,
{
    if i < 0 || i >= items.len() {
        None
    } else if items[i].name_lc == lc {
        Some(items[i].name)
    } else {
        item_named(items, lc, i + 1)
    }
}

/// The selection on the last item, when there is one.
pub open spec fn to_last(s: AppView) -> AppView {
    if s.items.len() > 0 {
        AppView { selected: (s.items.len() - 1) as nat, ..s }
    } else {
        s
    }
}

/// Opening the selected item, when there is one.
pub open spec fn open_selected(s: AppView) -> (AppView, ActionView) {
    if s.items.len() > 0 && s.selected < s.items.len() {
        (s, ActionView::Exit(Some(s.items[s.selected as int].name)))
    } else {
        (s, ActionView::Stay)
    }
}

/// Typing `c` into the filter: the items follow it, and the picker opens an
/// item at once when its lower-case name is the lower-case filter, or when
/// it is the only item left.
pub open spec fn typed_spec(s: AppView, c: char) -> (AppView, ActionView) {
    let s1 = with_items(AppView { filter: s.filter.push(c), selected: 0, ..s });
    match item_named(s1.items, spec_to_lowercase(s1.filter), 0) {
        Some(n) => (s1, ActionView::Exit(Some(n))),
        None => if s1.items.len() == 1 {
            (s1, ActionView::Exit(Some(s1.items[0].name)))
        } else {
            (s1, ActionView::Stay)
        },
    }
}

/// An answer to the export question about `name`.
pub open spec fn export_answer_spec(s: AppView, name: Seq<char>, key: Key, now: u64) -> (AppView, ActionView) {
    let done = AppView { pending_export: None, ..s };
    if key.code == KeyCode::Enter || is_char(key, '2') || is_char(key, 'm') || is_char(key, 'M') {
        (done, ActionView::Export(name, ExportDepth::Medium))
    } else if is_char(key, '1') || is_char(key, 'c') || is_char(key, 'C') {
        (done, ActionView::Export(name, ExportDepth::Compact))
    } else if is_char(key, '3') || is_char(key, 'f') || is_char(key, 'F') {
        (done, ActionView::Export(name, ExportDepth::Full))
    } else if is_char(key, '4') || is_char(key, 'j') || is_char(key, 'J') {
        (done, ActionView::Export(name, ExportDepth::Json))
    } else if key.code == KeyCode::Esc || is_char(key, 'n') || is_char(key, 'N') || is_char(key, 'q')
        || is_char(key, 'Q') {
        (with_status(done, "Export canceled."@, now, 900), ActionView::Stay)
    } else {
        (with_status(s, "Choose Enter/1/2/3/4 or c/m/f/j (Esc cancel)"@, now, 900), ActionView::Stay)
    }
}

/// An answer to the delete question about `name`.
pub open spec fn delete_answer_spec(s: AppView, name: Seq<char>, key: Key, now: u64) -> (AppView, ActionView) {
    let done = AppView { pending_delete: None, ..s };
    if is_char(key, 'y') || is_char(key, 'Y') {
        (done, ActionView::KillSession(name))
    } else if is_char(key, 'n') || is_char(key, 'N') || key.code == KeyCode::Esc {
        (with_status(done, "Delete canceled."@, now, 900), ActionView::Stay)
    } else {
        (with_status(s, "Press y to delete, n/Esc to cancel."@, now, 900), ActionView::Stay)
    }
}

/// The characters that do something with Control held in the filter line.
pub open spec fn ctrl_char(c: char) -> bool {
    c == 'c' || c == 'j' || c == 'k' || c == 'y' || c == 'x' || c == 'o' || c == 'u' || c == 'w'
        || c == 'd' || c == 'b' || c == 'f' || c == 'n' || c == 'p' || c == 'a' || c == 'e' || c
        == 'l' || c == 'r' || c == 's' || c == '[' || c == ']' || c == '\\'
}

/// Control and a character in the filter line.
pub open spec fn ctrl_spec(s: AppView, c: char, now: u64) -> (AppView, ActionView) {
    if c == 'c' {
        (s, ActionView::Exit(None))
    } else if c == 'j' {
        step_pane_spec(s, 1, now)
    } else if c == 'k' {
        step_pane_spec(s, -1, now)
    } else if c == 'y' {
        kill_pane_spec(s, false, now)
    } else if c == 'x' {
        kill_session_spec(s, false, now)
    } else if c == 'o' {
        if trim(s.filter).len() > 0 {
            open_raw_spec(s, s.filter, now)
        } else {
            open_selected(s)
        }
    } else if c == 'u' {
        (filter_cleared(s), ActionView::Stay)
    } else if c == 'w' {
        if s.filter.len() > 0 {
            (with_items(AppView { filter: without_last_word(s.filter), selected: 0, ..s }), ActionView::Stay)
        } else {
            (s, ActionView::Stay)
        }
    } else if c == 'd' || c == 'f' {
        (moved_down(s, 10), ActionView::Stay)
    } else if c == 'b' {
        (moved_up(s, 10), ActionView::Stay)
    } else if c == 'n' {
        (moved_down(s, 1), ActionView::Stay)
    } else if c == 'p' {
        copy_request_spec(s, 1, now)
    } else if c == '[' {
        copy_request_spec(s, 2, now)
    } else if c == ']' {
        copy_request_spec(s, 3, now)
    } else if c == '\\' {
        copy_request_spec(s, 4, now)
    } else if c == 'a' {
        (AppView { selected: 0, ..s }, ActionView::Stay)
    } else if c == 'e' {
        (to_last(s), ActionView::Stay)
    } else if c == 'l' || c == 'r' {
        (s, ActionView::RefreshSessions)
    } else {
        (export_prompt_spec(s, now), ActionView::Stay)
    }
}

/// A key in the filter line with no question pending and no Control or Alt
/// binding.
pub open spec fn plain_spec(s: AppView, key: Key, now: u64) -> (AppView, ActionView) {
    let k = key.code;
    if k == KeyCode::F(1) || k == KeyCode::Char('?') {
        (AppView { show_help: !s.show_help, ..s }, ActionView::Stay)
    } else if k == KeyCode::F(2) {
        (AppView { input_mode: InputMode::NewSession, new_session_name: Seq::empty(), ..s }, ActionView::Stay)
    } else if k == KeyCode::F(3) {
        (AppView { show_preview: !s.show_preview, ..s }, ActionView::RefreshPreview)
    } else if k == KeyCode::F(4) {
        (rename_start_spec(s, now), ActionView::Stay)
    } else if k == KeyCode::F(10) {
        copy_request_spec(s, 1, now)
    } else if k == KeyCode::F(8) {
        kill_session_spec(s, false, now)
    } else if k == KeyCode::F(9) {
        kill_session_spec(s, true, now)
    } else if k == KeyCode::F(6) {
        step_pane_spec(s, -1, now)
    } else if k == KeyCode::F(7) {
        kill_pane_spec(s, false, now)
    } else if k == KeyCode::Char('q') || k == KeyCode::Char('Q') {
        (s, ActionView::Exit(None))
    } else if k == KeyCode::Char('r') || k == KeyCode::Char('R') || k == KeyCode::F(5) {
        (s, ActionView::RefreshSessions)
    } else if k == KeyCode::Up || k == KeyCode::BackTab {
        (moved_up(s, 1), ActionView::Stay)
    } else if k == KeyCode::Down || k == KeyCode::Tab {
        (moved_down(s, 1), ActionView::Stay)
    } else if k == KeyCode::PageUp {
        (moved_up(s, 10), ActionView::Stay)
    } else if k == KeyCode::PageDown {
        (moved_down(s, 10), ActionView::Stay)
    } else if k == KeyCode::Home {
        (AppView { selected: 0, ..s }, ActionView::Stay)
    } else if k == KeyCode::End {
        (to_last(s), ActionView::Stay)
    } else if k == KeyCode::Char('g') && no_mods(key.mods) {
        (gg_spec(s, now), ActionView::Stay)
    } else if k == KeyCode::Char('j') && no_mods(key.mods) && s.filter.len() == 0 {
        (moved_down(s, 1), ActionView::Stay)
    } else if k == KeyCode::Char('k') && no_mods(key.mods) && s.filter.len() == 0 {
        (moved_up(s, 1), ActionView::Stay)
    } else if k == KeyCode::Char('G') {
        (to_last(s), ActionView::Stay)
    } else if k == KeyCode::Enter || k == KeyCode::Char(' ') {
        open_selected(s)
    } else if k == KeyCode::Esc {
        (filter_cleared(s), ActionView::Stay)
    } else if k == KeyCode::Backspace || k == KeyCode::Delete {
        if s.filter.len() > 0 {
            (with_items(AppView { filter: s.filter.drop_last(), selected: 0, ..s }), ActionView::Stay)
        } else if k == KeyCode::Backspace && no_mods(key.mods) {
            (prompt_delete_spec(s, now), ActionView::Stay)
        } else {
            (s, ActionView::Stay)
        }
    } else if k == KeyCode::Char('n') || k == KeyCode::Char('N') {
        (AppView { input_mode: InputMode::NewSession, new_session_name: Seq::empty(), ..s }, ActionView::Stay)
    } else if k == KeyCode::Char('/') && no_mods(key.mods) {
        (filter_cleared(s), ActionView::Stay)
    } else {
        match typed_char(key) {
            Some(c) => typed_spec(s, c),
            None => (s, ActionView::Stay),
        }
    }
}

/// A key with no question pending: Alt bindings (Alt+Backspace deletes the
/// previous word, as Control+W does), then Control bindings, then the rest.
pub open spec fn unprompted_spec(s: AppView, key: Key, now: u64) -> (AppView, ActionView) {
    if key.mods.alt && is_char(key, 'j') {
        (moved_down(s, 1), ActionView::Stay)
    } else if key.mods.alt && is_char(key, 'k') {
        (moved_up(s, 1), ActionView::Stay)
    } else if key.mods.alt && key.code == KeyCode::Backspace {
        ctrl_spec(s, 'w', now)
    } else if key.mods.control && (key.code matches KeyCode::Char(c) && ctrl_char(c)) {
        match key.code {
            KeyCode::Char(c) => ctrl_spec(s, c, now),
            _ => (s, ActionView::Stay),
        }
    } else {
        plain_spec(s, key, now)
    }
}

/// A key once the export question is settled: the delete question, while it
/// waits, takes it; an expired question is dropped.
pub open spec fn after_export_spec(s: AppView, key: Key, now: u64) -> (AppView, ActionView) {
    match s.pending_delete {
        Some((name, w)) => if now < w {
            delete_answer_spec(s, name, key, now)
        } else {
            unprompted_spec(AppView { pending_delete: None, ..s }, key, now)
        },
        None => unprompted_spec(s, key, now),
    }
}

/// A key in the filter line: any key but `g` ends a pending `gg`; the export
/// question, while it waits, takes the key; an expired one is dropped.
pub open spec fn filter_mode_spec(s0: AppView, key: Key, now: u64) -> (AppView, ActionView) {
    let s = if is_char(key, 'g') || is_char(key, 'G') {
        s0
    } else {
        AppView { pending_g_until: None, ..s0 }
    };
    match s.pending_export {
        Some((name, w)) => if now < w {
            export_answer_spec(s, name, key, now)
        } else {
            after_export_spec(AppView { pending_export: None, ..s }, key, now)
        },
        None => after_export_spec(s, key, now),
    }
}

/// A key in the new-session line (Control+W, Control+Backspace and
/// Alt+Backspace delete the previous word).
pub open spec fn new_session_mode_spec(s: AppView, key: Key, now: u64) -> (AppView, ActionView) {
    let k = key.code;
    if key.mods.control && is_char(key, 'c') {
        (s, ActionView::Exit(None))
    } else if key.mods.control && is_char(key, 'u') {
        (AppView { new_session_name: Seq::empty(), ..s }, ActionView::Stay)
    } else if (key.mods.control && (is_char(key, 'w') || k == KeyCode::Backspace)) || (key.mods.alt
        && k == KeyCode::Backspace) {
        (AppView { new_session_name: without_last_word(s.new_session_name), ..s }, ActionView::Stay)
    } else if k == KeyCode::Esc {
        (AppView { input_mode: InputMode::Filter, new_session_name: Seq::empty(), ..s }, ActionView::Stay)
    } else if k == KeyCode::Backspace || k == KeyCode::Delete {
        (
            AppView {
                new_session_name: if s.new_session_name.len() > 0 {
                    s.new_session_name.drop_last()
                } else {
                    s.new_session_name
                },
                ..s
            },
            ActionView::Stay,
        )
    } else if k == KeyCode::Enter {
        open_raw_spec(
            AppView { input_mode: InputMode::Filter, new_session_name: Seq::empty(), ..s },
            trim(s.new_session_name),
            now,
        )
    } else {
        match typed_char(key) {
            Some(c) => (AppView { new_session_name: s.new_session_name.push(c), ..s }, ActionView::Stay),
            None => (s, ActionView::Stay),
        }
    }
}

/// The first item whose lower-case name is `lc`.
fn item_named_exec(items: &Vec<SessionInfo>, lc: &str) -> (r: Option<String>)
    ensures
        crate::patterns::opt_string(r) == item_named(session_views(items@), lc@, 0),
{
    let ghost sv = session_views(items@);
    let mut i: usize = 0;
    while i < items.len()
        invariant
            i <= items@.len(),
            sv == session_views(items@),
            item_named(sv, lc@, 0) == item_named(sv, lc@, i as int),
        decreases items.len() - i,
    {
        if text_eq(items[i].name_lc.as_str(), lc) {
            return Some(items[i].name.clone());
        }
        i = i + 1;
    }
    None
}

/// Types `c` into the filter (see `typed_spec`).
fn type_into_filter(app: &mut App, c: char) -> (r: Action)
    requires
        names_within_limit(old(app)@.all_sessions),
    ensures
        (final(app)@, r@) == typed_spec(old(app)@, c),
{
    app.filter.push(c);
    app.selected = 0;
    app.refresh_items();
    let lc = to_lowercase_str(app.filter.as_str());
    match item_named_exec(&app.items, lc.as_str()) {
        Some(n) => Action::Exit(Some(n)),
        None => {
            if app.items.len() == 1 {
                Action::Exit(Some(app.items[0].name.clone()))
            } else {
                Action::Stay
            }
        },
    }
}

/// Opens the selected item, when there is one.
fn open_selected_exec(app: &App) -> (r: Action)
    ensures
        (app@, r@) == open_selected(app@),
{
    if app.items.len() > 0 && app.selected < app.items.len() {
        Action::Exit(Some(app.items[app.selected].name.clone()))
    } else {
        Action::Stay
    }
}

/// Puts the selection on the last item, when there is one.
fn select_last(app: &mut App)
    ensures
        final(app)@ == to_last(old(app)@),
{
    if app.items.len() > 0 {
        app.selected = app.items.len() - 1;
    }
}

/// Answers the export question about `name`.
fn export_answer(app: &mut App, name: String, key: Key, now: u64) -> (r: Action)
    ensures
        (final(app)@, r@) == export_answer_spec(old(app)@, name@, key, now),
{
    let is = |c: char| -> (b: bool)
        ensures
            b == is_char(key, c),
        { key.code == KeyCode::Char(c) };
    if key.code == KeyCode::Enter || is('2') || is('m') || is('M') {
        app.pending_export = None;
        return Action::Export(name, ExportDepth::Medium);
    }
    if is('1') || is('c') || is('C') {
        app.pending_export = None;
        return Action::Export(name, ExportDepth::Compact);
    }
    if is('3') || is('f') || is('F') {
        app.pending_export = None;
        return Action::Export(name, ExportDepth::Full);
    }
    if is('4') || is('j') || is('J') {
        app.pending_export = None;
        return Action::Export(name, ExportDepth::Json);
    }
    if key.code == KeyCode::Esc || is('n') || is('N') || is('q') || is('Q') {
        app.pending_export = None;
        app.set_status_for(String::from_str("Export canceled."), 900, now);
        return Action::Stay;
    }
    app.set_status_for(String::from_str("Choose Enter/1/2/3/4 or c/m/f/j (Esc cancel)"), 900, now);
    Action::Stay
}

/// Answers the delete question about `name`.
fn delete_answer(app: &mut App, name: String, key: Key, now: u64) -> (r: Action)
    ensures
        (final(app)@, r@) == delete_answer_spec(old(app)@, name@, key, now),
{
    if key.code == KeyCode::Char('y') || key.code == KeyCode::Char('Y') {
        return kill_session_by_name(app, name);
    }
    if key.code == KeyCode::Char('n') || key.code == KeyCode::Char('N') || key.code == KeyCode::Esc {
        app.pending_delete = None;
        app.set_status_for(String::from_str("Delete canceled."), 900, now);
        return Action::Stay;
    }
    app.set_status_for(String::from_str("Press y to delete, n/Esc to cancel."), 900, now);
    Action::Stay
}

/// Control and `c` in the filter line, for a character that has a binding.
fn ctrl_key(app: &mut App, c: char, now: u64) -> (r: Action)
    requires
        names_within_limit(old(app)@.all_sessions),
        ctrl_char(c),
    ensures
        (final(app)@, r@) == ctrl_spec(old(app)@, c, now),
{
    if c == 'c' {
        Action::Exit(None)
    } else if c == 'j' {
        app.step_preview_pane(1, now)
    } else if c == 'k' {
        app.step_preview_pane(-1, now)
    } else if c == 'y' {
        maybe_kill_selected_pane(app, false, now)
    } else if c == 'x' {
        maybe_kill_selected_session(app, false, now)
    } else if c == 'o' {
        let t = trim_str(app.filter.as_str());
        if !t.as_str().is_empty() {
            let filter = app.filter.clone();
            request_open_from_raw(app, filter.as_str(), now)
        } else {
            open_selected_exec(app)
        }
    } else if c == 'u' {
        clear_filter(app);
        Action::Stay
    } else if c == 'w' {
        if !app.filter.as_str().is_empty() {
            delete_last_word(&mut app.filter);
            app.selected = 0;
            app.refresh_items();
        }
        Action::Stay
    } else if c == 'd' || c == 'f' {
        move_selection_down(app, 10);
        Action::Stay
    } else if c == 'b' {
        move_selection_up(app, 10);
        Action::Stay
    } else if c == 'n' {
        move_selection_down(app, 1);
        Action::Stay
    } else if c == 'p' {
        request_copy(app, 1, now)
    } else if c == '[' {
        request_copy(app, 2, now)
    } else if c == ']' {
        request_copy(app, 3, now)
    } else if c == '\\' {
        request_copy(app, 4, now)
    } else if c == 'a' {
        app.selected = 0;
        Action::Stay
    } else if c == 'e' {
        select_last(app);
        Action::Stay
    } else if c == 'l' || c == 'r' {
        Action::RefreshSessions
    } else {
        start_export_prompt(app, now);
        Action::Stay
    }
}

/// The character a key types, if any.
fn typed_char_exec(key: Key) -> (r: Option<char>)
    ensures
        r == typed_char(key),
{
    match key.code {
        KeyCode::Char(c) => {
            if !key.mods.control && !key.mods.alt && !key.mods.super_key && (('!' <= c && c <= '~')
                || c == ' ') {
                Some(c)
            } else {
                None
            }
        },
        _ => None,
    }
}

/// Whether no modifier is held.
fn no_mods_exec(m: KeyMods) -> (r: bool)
    ensures
        r == no_mods(m),
{
    !m.control && !m.alt && !m.super_key && !m.other
}

/// A key in the filter line without a binding for Alt or Control.
fn plain_key(app: &mut App, key: Key, now: u64) -> (r: Action)
    requires
        names_within_limit(old(app)@.all_sessions),
    ensures
        (final(app)@, r@) == plain_spec(old(app)@, key, now),
{
    let k = key.code;
    if k == KeyCode::F(1) || k == KeyCode::Char('?') {
        app.show_help = !app.show_help;
        Action::Stay
    } else if k == KeyCode::F(2) {
        app.input_mode = InputMode::NewSession;
        app.new_session_name = String::new();
        Action::Stay
    } else if k == KeyCode::F(3) {
        app.show_preview = !app.show_preview;
        Action::RefreshPreview
    } else if k == KeyCode::F(4) {
        start_rename(app, now);
        Action::Stay
    } else if k == KeyCode::F(10) {
        request_copy(app, 1, now)
    } else if k == KeyCode::F(8) {
        maybe_kill_selected_session(app, false, now)
    } else if k == KeyCode::F(9) {
        maybe_kill_selected_session(app, true, now)
    } else if k == KeyCode::F(6) {
        app.step_preview_pane(-1, now)
    } else if k == KeyCode::F(7) {
        maybe_kill_selected_pane(app, false, now)
    } else if k == KeyCode::Char('q') || k == KeyCode::Char('Q') {
        Action::Exit(None)
    } else if k == KeyCode::Char('r') || k == KeyCode::Char('R') || k == KeyCode::F(5) {
        Action::RefreshSessions
    } else if k == KeyCode::Up || k == KeyCode::BackTab {
        move_selection_up(app, 1);
        Action::Stay
    } else if k == KeyCode::Down || k == KeyCode::Tab {
        move_selection_down(app, 1);
        Action::Stay
    } else if k == KeyCode::PageUp {
        move_selection_up(app, 10);
        Action::Stay
    } else if k == KeyCode::PageDown {
        move_selection_down(app, 10);
        Action::Stay
    } else if k == KeyCode::Home {
        app.selected = 0;
        Action::Stay
    } else if k == KeyCode::End {
        select_last(app);
        Action::Stay
    } else if k == KeyCode::Char('g') && no_mods_exec(key.mods) {
        handle_gg(app, now);
        Action::Stay
    } else if k == KeyCode::Char('j') && no_mods_exec(key.mods) && app.filter.as_str().is_empty() {
        move_selection_down(app, 1);
        Action::Stay
    } else if k == KeyCode::Char('k') && no_mods_exec(key.mods) && app.filter.as_str().is_empty() {
        move_selection_up(app, 1);
        Action::Stay
    } else if k == KeyCode::Char('G') {
        select_last(app);
        Action::Stay
    } else if k == KeyCode::Enter || k == KeyCode::Char(' ') {
        open_selected_exec(app)
    } else if k == KeyCode::Esc {
        clear_filter(app);
        Action::Stay
    } else if k == KeyCode::Backspace || k == KeyCode::Delete {
        if !app.filter.as_str().is_empty() {
            pop_char(&mut app.filter);
            app.selected = 0;
            app.refresh_items();
        } else if k == KeyCode::Backspace && no_mods_exec(key.mods) {
            prompt_delete_selected_session(app, now);
        }
        Action::Stay
    } else if k == KeyCode::Char('n') || k == KeyCode::Char('N') {
        app.input_mode = InputMode::NewSession;
        app.new_session_name = String::new();
        Action::Stay
    } else if k == KeyCode::Char('/') && no_mods_exec(key.mods) {
        clear_filter(app);
        Action::Stay
    } else {
        match typed_char_exec(key) {
            Some(c) => type_into_filter(app, c),
            None => Action::Stay,
        }
    }
}

/// A key in the filter line with no question pending.
fn unprompted_key(app: &mut App, key: Key, now: u64) -> (r: Action)
    requires
        names_within_limit(old(app)@.all_sessions),
    ensures
        (final(app)@, r@) == unprompted_spec(old(app)@, key, now),
{
    if key.mods.alt && key.code == KeyCode::Char('j') {
        move_selection_down(app, 1);
        return Action::Stay;
    }
    if key.mods.alt && key.code == KeyCode::Char('k') {
        move_selection_up(app, 1);
        return Action::Stay;
    }
    if key.mods.alt && key.code == KeyCode::Backspace {
        return ctrl_key(app, 'w', now);
    }
    if key.mods.control {
        if let KeyCode::Char(c) = key.code {
            if c == 'c' || c == 'j' || c == 'k' || c == 'y' || c == 'x' || c == 'o' || c == 'u' || c
                == 'w' || c == 'd' || c == 'b' || c == 'f' || c == 'n' || c == 'p' || c == 'a' || c
                == 'e' || c == 'l' || c == 'r' || c == 's' || c == '[' || c == ']' || c == '\\' {
                return ctrl_key(app, c, now);
            }
        }
    }
    plain_key(app, key, now)
}

/// Handles a key in the filter line; hands back what the caller does next.
pub fn handle_filter_mode(app: &mut App, key: Key, now: u64) -> (r: Action)
    requires
        names_within_limit(old(app)@.all_sessions),
    ensures
        (final(app)@, r@) == filter_mode_spec(old(app)@, key, now),
{
    if !(key.code == KeyCode::Char('g') || key.code == KeyCode::Char('G')) {
        app.pending_g_until = None;
    }
    let export = match &app.pending_export {
        Some(p) => Some((p.name.clone(), p.when)),
        None => None,
    };
    if let Some((name, when)) = export {
        if now < when {
            return export_answer(app, name, key, now);
        }
        app.pending_export = None;
    }
    let delete = match &app.pending_delete {
        Some(p) => Some((p.name.clone(), p.when)),
        None => None,
    };
    if let Some((name, when)) = delete {
        if now < when {
            return delete_answer(app, name, key, now);
        }
        app.pending_delete = None;
    }
    unprompted_key(app, key, now)
}

/// Handles a key in the new-session line; hands back what the caller does next.
pub fn handle_new_session_mode(app: &mut App, key: Key, now: u64) -> (r: Action)
    ensures
        (final(app)@, r@) == new_session_mode_spec(old(app)@, key, now),
{
    let k = key.code;
    if key.mods.control && k == KeyCode::Char('c') {
        return Action::Exit(None);
    }
    if key.mods.control && k == KeyCode::Char('u') {
        app.new_session_name = String::new();
        return Action::Stay;
    }
    if (key.mods.control && (k == KeyCode::Char('w') || k == KeyCode::Backspace)) || (key.mods.alt
        && k == KeyCode::Backspace) {
        delete_last_word(&mut app.new_session_name);
        return Action::Stay;
    }
    if k == KeyCode::Esc {
        app.input_mode = InputMode::Filter;
        app.new_session_name = String::new();
        return Action::Stay;
    }
    if k == KeyCode::Backspace || k == KeyCode::Delete {
        pop_char(&mut app.new_session_name);
        return Action::Stay;
    }
    if k == KeyCode::Enter {
        let raw = trim_str(app.new_session_name.as_str());
        app.input_mode = InputMode::Filter;
        app.new_session_name = String::new();
        return request_open_from_raw(app, raw.as_str(), now);
    }
    match typed_char_exec(key) {
        Some(c) => {
            app.new_session_name.push(c);
            Action::Stay
        },
        None => Action::Stay,
    }
}

/// A key to the picker: a copied output shown full screen takes it first;
/// otherwise the line being edited does.
pub open spec fn key_spec(s: AppView, key: Key, now: u64) -> (AppView, ActionView) {
    match s.copy_preview {
        Some(p) => copy_preview_key_spec(s, p, key),
        None => match s.input_mode {
            InputMode::Filter => filter_mode_spec(s, key, now),
            InputMode::NewSession => new_session_mode_spec(s, key, now),
            InputMode::Rename => rename_mode_spec(s, key, now),
        },
    }
}

/// Handles a key (see `key_spec`); hands back what the caller does next.
pub fn handle_key(app: &mut App, key: Key, now: u64) -> (r: Action)
    requires
        names_within_limit(old(app)@.all_sessions),
    ensures
        (final(app)@, r@) == key_spec(old(app)@, key, now),
{
    if app.copy_preview.is_some() {
        return handle_copy_preview(app, key);
    }
    match app.input_mode {
        InputMode::Filter => handle_filter_mode(app, key, now),
        InputMode::NewSession => handle_new_session_mode(app, key, now),
        InputMode::Rename => handle_rename_mode(app, key, now),
    }
}

// ---------------------------------------------------------------------------
// Renaming a session
// ---------------------------------------------------------------------------

/// Starting to rename the selected session: the rename line opens holding its
/// name; with no session selected, a note.
pub open spec fn rename_start_spec(s: AppView, now: u64) -> AppView {
    match selected_name_spec(s) {
        None => with_status(s, "No session selected"@, now, 1000),
        Some(n) => AppView { input_mode: InputMode::Rename, rename_from: Some(n), rename_input: n, ..s },
    }
}

/// Opens the rename line for the selected session (see `rename_start_spec`).
pub fn start_rename(app: &mut App, now: u64)
    ensures
        final(app)@ == rename_start_spec(old(app)@, now),
{
    match app.selected_name() {
        None => app.set_status_for(String::from_str("No session selected"), 1000, now),
        Some(n) => {
            app.rename_input = n.clone();
            app.rename_from = Some(n);
            app.input_mode = InputMode::Rename;
        },
    }
}

/// The rename line closed, back in the filter line.
pub open spec fn rename_closed(s: AppView) -> AppView {
    AppView { input_mode: InputMode::Filter, rename_from: None, rename_input: Seq::empty(), ..s }
}

/// Submitting the rename line: the typed name is trimmed and normalized; a
/// name that normalizes to nothing is refused, an unchanged one is noted, and
/// any other is handed back as a rename.
pub open spec fn rename_submit_spec(s: AppView, now: u64) -> (AppView, ActionView) {
    let back = rename_closed(s);
    match s.rename_from {
        None => (back, ActionView::Stay),
        Some(from) => {
            let n = normalized_name(s.rename_input);
            if n.len() == 0 {
                (with_status(back, "Invalid name. Allowed: letters, digits, . _ : -"@, now, 1100), ActionView::Stay)
            } else if n == from {
                (with_status(back, "Name unchanged."@, now, 900), ActionView::Stay)
            } else {
                (back, ActionView::Rename(from, n))
            }
        },
    }
}

/// A key in the rename line (Control+W, Control+Backspace and Alt+Backspace
/// delete the previous word).
pub open spec fn rename_mode_spec(s: AppView, key: Key, now: u64) -> (AppView, ActionView) {
    let k = key.code;
    if key.mods.control && is_char(key, 'c') {
        (s, ActionView::Exit(None))
    } else if key.mods.control && is_char(key, 'u') {
        (AppView { rename_input: Seq::empty(), ..s }, ActionView::Stay)
    } else if (key.mods.control && (is_char(key, 'w') || k == KeyCode::Backspace)) || (key.mods.alt
        && k == KeyCode::Backspace) {
        (AppView { rename_input: without_last_word(s.rename_input), ..s }, ActionView::Stay)
    } else if k == KeyCode::Esc {
        (with_status(rename_closed(s), "Rename canceled."@, now, 900), ActionView::Stay)
    } else if k == KeyCode::Backspace || k == KeyCode::Delete {
        (
            AppView {
                rename_input: if s.rename_input.len() > 0 {
                    s.rename_input.drop_last()
                } else {
                    s.rename_input
                },
                ..s
            },
            ActionView::Stay,
        )
    } else if k == KeyCode::Enter {
        rename_submit_spec(s, now)
    } else {
        match typed_char(key) {
            Some(c) => (AppView { rename_input: s.rename_input.push(c), ..s }, ActionView::Stay),
            None => (s, ActionView::Stay),
        }
    }
}

/// Submits the rename line (see `rename_submit_spec`).
fn submit_rename(app: &mut App, now: u64) -> (r: Action)
    ensures
        (final(app)@, r@) == rename_submit_spec(old(app)@, now),
{
    let from = app.rename_from.take();
    let n = normalize_session_name(app.rename_input.as_str());
    app.input_mode = InputMode::Filter;
    app.rename_input = String::new();
    match from {
        None => Action::Stay,
        Some(from) => {
            if n.as_str().is_empty() {
                app.set_status_for(String::from_str("Invalid name. Allowed: letters, digits, . _ : -"), 1100, now);
                Action::Stay
            } else if text_eq(n.as_str(), from.as_str()) {
                app.set_status_for(String::from_str("Name unchanged."), 900, now);
                Action::Stay
            } else {
                Action::Rename(from, n)
            }
        },
    }
}

/// Handles a key in the rename line; hands back what the caller does next.
pub fn handle_rename_mode(app: &mut App, key: Key, now: u64) -> (r: Action)
    ensures
        (final(app)@, r@) == rename_mode_spec(old(app)@, key, now),
{
    let k = key.code;
    if key.mods.control && k == KeyCode::Char('c') {
        return Action::Exit(None);
    }
    if key.mods.control && k == KeyCode::Char('u') {
        app.rename_input = String::new();
        return Action::Stay;
    }
    if (key.mods.control && (k == KeyCode::Char('w') || k == KeyCode::Backspace)) || (key.mods.alt
        && k == KeyCode::Backspace) {
        delete_last_word(&mut app.rename_input);
        return Action::Stay;
    }
    if k == KeyCode::Esc {
        app.input_mode = InputMode::Filter;
        app.rename_from = None;
        app.rename_input = String::new();
        app.set_status_for(String::from_str("Rename canceled."), 900, now);
        return Action::Stay;
    }
    if k == KeyCode::Backspace || k == KeyCode::Delete {
        pop_char(&mut app.rename_input);
        return Action::Stay;
    }
    if k == KeyCode::Enter {
        return submit_rename(app, now);
    }
    match typed_char_exec(key) {
        Some(c) => {
            app.rename_input.push(c);
            Action::Stay
        },
        None => Action::Stay,
    }
}

/// The status after renaming `from` to `to`, and whether the sessions are
/// reloaded.
pub open spec fn session_renamed_spec(s: AppView, from: Seq<char>, to: Seq<char>, outcome: Option<Option<Seq<char>>>, now: u64) -> (AppView, ActionView) {
    match outcome {
        Some(None) => (
            with_status(s, "Renamed session '"@ + from + "' to '"@ + to + "'."@, now, 1500),
            ActionView::RefreshSessions,
        ),
        None => (with_status(s, "Failed to rename session '"@ + from + "'."@, now, 1500), ActionView::Stay),
        Some(Some(m)) => (with_status(s, "Rename failed: "@ + trim_end(m), now, 1600), ActionView::Stay),
    }
}

// ---------------------------------------------------------------------------
// Copying an assistant output
// ---------------------------------------------------------------------------

/// Asking for the `n`-th last assistant output of the selected session's
/// chat; with no session selected, a note.
pub open spec fn copy_request_spec(s: AppView, n: usize, now: u64) -> (AppView, ActionView) {
    match selected_name_spec(s) {
        None => (with_status(s, "No session selected"@, now, 1000), ActionView::Stay),
        Some(name) => (s, ActionView::Copy(name, n)),
    }
}

/// Asks for the `n`-th last assistant output (see `copy_request_spec`).
pub fn request_copy(app: &mut App, n: usize, now: u64) -> (r: Action)
    ensures
        (final(app)@, r@) == copy_request_spec(old(app)@, n, now),
{
    match app.selected_name() {
        None => {
            app.set_status_for(String::from_str("No session selected"), 1000, now);
            Action::Stay
        },
        Some(name) => Action::Copy(name, n),
    }
}

/// Which output from the end a copy took, in words.
pub open spec fn copy_label(n: usize) -> Seq<char> {
    if n == 1 {
        "last"@
    } else if n == 2 {
        "second-to-last"@
    } else if n == 3 {
        "third-to-last"@
    } else if n == 4 {
        "fourth-to-last"@
    } else {
        "earlier"@
    }
}

fn copy_label_exec(n: usize) -> (r: &'static str)
    ensures
        r@ == copy_label(n),
{
    if n == 1 {
        "last"
    } else if n == 2 {
        "second-to-last"
    } else if n == 3 {
        "third-to-last"
    } else if n == 4 {
        "fourth-to-last"
    } else {
        "earlier"
    }
}

/// The picker after copying the `n`-th last assistant output of `name`: a
/// note, and for a copied text its full-screen view, from its first line.
pub open spec fn copy_done_spec(s: AppView, name: Seq<char>, n: usize, outcome: CopyOutcome, now: u64) -> AppView {
    match outcome {
        CopyOutcome::NoSessionId => with_status(s, "No coder session id found for '"@ + name + "'"@, now, 1800),
        CopyOutcome::NoOutput => with_status(s, "No "@ + copy_label(n) + " assistant output in '"@ + name + "'"@, now, 1800),
        CopyOutcome::Failed(e) => with_status(s, "Copy failed: "@ + e@, now, 3000),
        CopyOutcome::Copied(t) => AppView {
            copy_preview: Some(
                CopyPreviewView {
                    title: "Copied "@ + copy_label(n) + " assistant output of '"@ + name + "'"@,
                    lines: lines(t@),
                    scroll: 0,
                },
            ),
            ..with_status(s, "Copied to clipboard."@, now, 1500)
        },
    }
}

/// The copied output's view scrolled by `delta` lines, kept on its lines.
pub open spec fn scrolled(p: CopyPreviewView, delta: int) -> CopyPreviewView {
    let last: int = if p.lines.len() == 0 {
        0
    } else {
        p.lines.len() - 1
    };
    let t = p.scroll + delta;
    CopyPreviewView {
        scroll: if t < 0 {
            0
        } else if t > last {
            last as nat
        } else {
            t as nat
        },
        ..p
    }
}

/// A key while a copied output is shown: Esc, Enter or `q` close it; the
/// arrows, `j`/`k`, the page keys, Home and End scroll it; other keys do
/// nothing.
pub open spec fn copy_preview_key_spec(s: AppView, p: CopyPreviewView, key: Key) -> (AppView, ActionView) {
    let k = key.code;
    let to = |q: CopyPreviewView| AppView { copy_preview: Some(q), ..s };
    if k == KeyCode::Esc || k == KeyCode::Enter || is_char(key, 'q') {
        (AppView { copy_preview: None, ..s }, ActionView::Stay)
    } else if k == KeyCode::Up || is_char(key, 'k') {
        (to(scrolled(p, -1)), ActionView::Stay)
    } else if k == KeyCode::Down || is_char(key, 'j') {
        (to(scrolled(p, 1)), ActionView::Stay)
    } else if k == KeyCode::PageUp {
        (to(scrolled(p, -10)), ActionView::Stay)
    } else if k == KeyCode::PageDown {
        (to(scrolled(p, 10)), ActionView::Stay)
    } else if k == KeyCode::Home {
        (to(scrolled(p, -(p.scroll as int))), ActionView::Stay)
    } else if k == KeyCode::End {
        (to(scrolled(p, p.lines.len() as int)), ActionView::Stay)
    } else {
        (s, ActionView::Stay)
    }
}

/// Scrolls a copied output's view up by `d` lines (see `scrolled`).
fn scroll_up(p: &mut CopyPreview, d: usize)
    ensures
        copy_preview_view(Some(*final(p))) == Some(scrolled(copy_preview_view(Some(*old(p)))->0, -(d as int))),
{
    let last: usize = if p.lines.len() == 0 { 0 } else { p.lines.len() - 1 };
    let t: usize = if p.scroll >= d { p.scroll - d } else { 0 };
    p.scroll = if t > last { last } else { t };
}

/// Scrolls a copied output's view down by `d` lines (see `scrolled`).
fn scroll_down(p: &mut CopyPreview, d: usize)
    ensures
        copy_preview_view(Some(*final(p))) == Some(scrolled(copy_preview_view(Some(*old(p)))->0, d as int)),
{
    let last: usize = if p.lines.len() == 0 { 0 } else { p.lines.len() - 1 };
    let t: usize = p.scroll.saturating_add(d);
    p.scroll = if t > last { last } else { t };
}

/// Handles a key while a copied output is shown.
pub fn handle_copy_preview(app: &mut App, key: Key) -> (r: Action)
    requires
        old(app)@.copy_preview is Some,
    ensures
        (final(app)@, r@) == copy_preview_key_spec(old(app)@, old(app)@.copy_preview->0, key),
{
    let k = key.code;
    if k == KeyCode::Esc || k == KeyCode::Enter || k == KeyCode::Char('q') {
        app.copy_preview = None;
        return Action::Stay;
    }
    let mut p = match app.copy_preview.take() {
        Some(p) => p,
        None => {
            return Action::Stay;
        },
    };
    if k == KeyCode::Up || k == KeyCode::Char('k') {
        scroll_up(&mut p, 1);
    } else if k == KeyCode::Down || k == KeyCode::Char('j') {
        scroll_down(&mut p, 1);
    } else if k == KeyCode::PageUp {
        scroll_up(&mut p, 10);
    } else if k == KeyCode::PageDown {
        scroll_down(&mut p, 10);
    } else if k == KeyCode::Home {
        let d = p.scroll;
        scroll_up(&mut p, d);
    } else if k == KeyCode::End {
        let d = p.lines.len();
        scroll_down(&mut p, d);
    }
    app.copy_preview = Some(p);
    Action::Stay
}

impl App {
    /// Reports how renaming session `from` to `to` went; hands back a reload
    /// when it was renamed.
    pub fn session_renamed(&mut self, from: &str, to: &str, outcome: TmuxOutcome, now: u64) -> (r: Action)
        ensures
            (final(self)@, r@) == session_renamed_spec(old(self)@, from@, to@, outcome_view(outcome), now),
    {
        match outcome {
            TmuxOutcome::Done => {
                let mut msg = String::from_str("Renamed session '");
                push_str(&mut msg, from);
                push_str(&mut msg, "' to '");
                push_str(&mut msg, to);
                push_str(&mut msg, "'.");
                self.set_status_for(msg, 1500, now);
                Action::RefreshSessions
            },
            TmuxOutcome::Failed => {
                let mut msg = String::from_str("Failed to rename session '");
                push_str(&mut msg, from);
                push_str(&mut msg, "'.");
                self.set_status_for(msg, 1500, now);
                Action::Stay
            },
            TmuxOutcome::Error(m) => {
                let mut msg = String::from_str("Rename failed: ");
                let t = trim_end_str(m.as_str());
                push_str(&mut msg, t.as_str());
                self.set_status_for(msg, 1600, now);
                Action::Stay
            },
        }
    }

    /// Reports how copying the `n`-th last assistant output of `name` went;
    /// a copied text opens full screen.
    pub fn copy_done(&mut self, name: &str, n: usize, outcome: CopyOutcome, now: u64)
        ensures
            final(self)@ == copy_done_spec(old(self)@, name@, n, outcome, now),
    {
        match outcome {
            CopyOutcome::NoSessionId => {
                let mut msg = String::from_str("No coder session id found for '");
                push_str(&mut msg, name);
                push_str(&mut msg, "'");
                self.set_status_for(msg, 1800, now);
            },
            CopyOutcome::NoOutput => {
                let mut msg = String::from_str("No ");
                push_str(&mut msg, copy_label_exec(n));
                push_str(&mut msg, " assistant output in '");
                push_str(&mut msg, name);
                push_str(&mut msg, "'");
                self.set_status_for(msg, 1800, now);
            },
            CopyOutcome::Failed(e) => {
                let mut msg = String::from_str("Copy failed: ");
                push_str(&mut msg, e.as_str());
                self.set_status_for(msg, 3000, now);
            },
            CopyOutcome::Copied(t) => {
                self.set_status_for(String::from_str("Copied to clipboard."), 1500, now);
                let mut title = String::from_str("Copied ");
                push_str(&mut title, copy_label_exec(n));
                push_str(&mut title, " assistant output of '");
                push_str(&mut title, name);
                push_str(&mut title, "'");
                let ls = lines_of(t.as_str());
                self.copy_preview = Some(CopyPreview { title, lines: ls, scroll: 0 });
            },
        }
    }
}

// ---------------------------------------------------------------------------
// Laws
// ---------------------------------------------------------------------------

proof fn lemma_with_items_wf(s: AppView)
    requires
        names_within_limit(s.all_sessions),
    ensures
        app_wf(with_items(s)),
{
}

proof fn lemma_ctrl_wf(s: AppView, c: char, now: u64)
    requires
        app_wf(s),
    ensures
        app_wf(ctrl_spec(s, c, now).0),
{
    lemma_with_items_wf(AppView { filter: without_last_word(s.filter), selected: 0, ..s });
    lemma_with_items_wf(AppView { filter: Seq::empty(), selected: 0, ..s });
}

proof fn lemma_plain_wf(s: AppView, key: Key, now: u64)
    requires
        app_wf(s),
    ensures
        app_wf(plain_spec(s, key, now).0),
{
    lemma_with_items_wf(AppView { filter: s.filter.drop_last(), selected: 0, ..s });
    lemma_with_items_wf(AppView { filter: Seq::empty(), selected: 0, ..s });
    if let Some(c) = typed_char(key) {
        lemma_with_items_wf(AppView { filter: s.filter.push(c), selected: 0, ..s });
    }
}

proof fn lemma_unprompted_wf(s: AppView, key: Key, now: u64)
    requires
        app_wf(s),
    ensures
        app_wf(unprompted_spec(s, key, now).0),
{
    lemma_plain_wf(s, key, now);
    if let KeyCode::Char(c) = key.code {
        lemma_ctrl_wf(s, c, now);
    }
}

proof fn lemma_after_export_wf(s: AppView, key: Key, now: u64)
    requires
        app_wf(s),
    ensures
        app_wf(after_export_spec(s, key, now).0),
{
    lemma_unprompted_wf(s, key, now);
    lemma_unprompted_wf(AppView { pending_delete: None, ..s }, key, now);
}

/// While the export question about `name` waits, its answer keys choose the
/// depth of the export handed back, and close the question: Enter, `2`, `m`,
/// `M` medium; `1`, `c`, `C` compact; `3`, `f`, `F` full; `4`, `j`, `J` json.
pub proof fn law_export_answer_keys(s: AppView, name: Seq<char>, until: u64, key: Key, now: u64)
    requires
        s.pending_export == Some((name, until)),
        now < until,
    ensures
        ({
            let (t, a) = filter_mode_spec(s, key, now);
            let c = key.code;
            &&& (c == KeyCode::Enter || c == KeyCode::Char('2') || c == KeyCode::Char('m') || c
                == KeyCode::Char('M')) ==> a == ActionView::Export(name, ExportDepth::Medium)
                && t.pending_export is None
            &&& (c == KeyCode::Char('1') || c == KeyCode::Char('c') || c == KeyCode::Char('C'))
                ==> a == ActionView::Export(name, ExportDepth::Compact) && t.pending_export is None
            &&& (c == KeyCode::Char('3') || c == KeyCode::Char('f') || c == KeyCode::Char('F'))
                ==> a == ActionView::Export(name, ExportDepth::Full) && t.pending_export is None
            &&& (c == KeyCode::Char('4') || c == KeyCode::Char('j') || c == KeyCode::Char('J'))
                ==> a == ActionView::Export(name, ExportDepth::Json) && t.pending_export is None
        }),
        s.copy_preview is None && s.input_mode == InputMode::Filter ==> key_spec(s, key, now)
            == filter_mode_spec(s, key, now),
{
}

/// Every key keeps the picker well formed: the sessions stay scoreable and
/// the selection stays on an item.
pub proof fn law_keys_keep_picker_well_formed(s: AppView, key: Key, now: u64)
    requires
        app_wf(s),
    ensures
        app_wf(filter_mode_spec(s, key, now).0),
        app_wf(new_session_mode_spec(s, key, now).0),
        app_wf(rename_mode_spec(s, key, now).0),
        app_wf(key_spec(s, key, now).0),
{
    let s1 = if is_char(key, 'g') || is_char(key, 'G') {
        s
    } else {
        AppView { pending_g_until: None, ..s }
    };
    lemma_after_export_wf(s1, key, now);
    lemma_after_export_wf(AppView { pending_export: None, ..s1 }, key, now);
}

/// Reloading the sessions, showing a preview, pruning timers and reporting
/// work (kills, renames, copies) keep the picker well formed.
pub proof fn law_reports_keep_picker_well_formed(
    s: AppView,
    sessions: Seq<SessionView>,
    session: Seq<char>,
    fetched: Result<PreviewView, Seq<char>>,
    outcome: Option<Option<Seq<char>>>,
    now: u64,
    force: bool,
)
    requires
        app_wf(s),
        names_within_limit(sessions),
    ensures
        app_wf(with_sessions(s, sessions)),
        app_wf(preview_applied_spec(s, session, fetched, now)),
        app_wf(preview_check_spec(s, force, now).0),
        app_wf(pruned(s, now)),
        app_wf(session_killed_spec(s, session, outcome, now).0),
        app_wf(pane_killed_spec(s, session, session, outcome, now).0),
        app_wf(session_renamed_spec(s, session, session, outcome, now).0),
        forall|n: usize, c: CopyOutcome| #[trigger] app_wf(copy_done_spec(s, session, n, c, now)),
{
}

} // verus!
